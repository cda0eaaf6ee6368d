//! The template compiler: from a naming pattern to a sequence of tokens.
//!
//! A pattern is plain text with placeholders. A placeholder is one
//! punctuation character between braces:
//!
//! | written | stands for                                  |
//! |---------|---------------------------------------------|
//! | `{#}`   | the number of the room within its family    |
//! | `{%}`   | how many rooms the family has               |
//! | `{@}`   | how many occupants the room has             |
//! | `{^}`   | how many occupants the room can hold        |
//!
//! A doubled brace, `{{` or `}}`, writes one brace. A single `}` outside a
//! placeholder writes itself. Everything else is copied as it stands.
//! Neighbouring literal characters always end up in one token.
//!
//! [`compiled`] says what a pattern compiles to; [`parse_template`] computes
//! it.

use vstd::prelude::*;
use vstd::utf8::encode_scalar;
use crate::text::{chars_of, decimal, push_chars, push_decimal};

verus! {

/// What one token of a compiled pattern stands for.
pub enum Token {
    /// The number of the room within its family.
    Index,
    /// How many rooms the family has.
    Total,
    /// How many occupants the room has.
    Occupants,
    /// How many occupants the room can hold.
    Capacity,
    /// Text that is copied as it stands. Never empty in a compiled pattern.
    Literal(Seq<char>),
}

/// One part of a compiled pattern.
#[derive(Debug, Clone, PartialEq, Eq)]
pub enum TemplatePart {
    /// `{#}`
    ChannelNumber,
    /// `{%}`
    ChildrenInTotal,
    /// `{@}`
    Occupants,
    /// `{^}`
    Capacity,
    /// A run of literal text.
    String(String),
}

impl View for TemplatePart {
    type V = Token;

    open spec fn view(&self) -> Token {
        match self {
            TemplatePart::ChannelNumber => Token::Index,
            TemplatePart::ChildrenInTotal => Token::Total,
            TemplatePart::Occupants => Token::Occupants,
            TemplatePart::Capacity => Token::Capacity,
            TemplatePart::String(text) => Token::Literal(text@),
        }
    }
}

/// A compiled pattern.
#[derive(Debug, Clone, PartialEq, Eq)]
pub struct Template {
    pub parts: Vec<TemplatePart>,
}

impl View for Template {
    type V = Seq<Token>;

    open spec fn view(&self) -> Seq<Token> {
        self.parts@.map_values(|part: TemplatePart| part@)
    }
}

/// Why a pattern does not compile. Lines and columns count from one, in
/// characters; a line ends with `'\n'`.
#[derive(Debug, Clone, Copy, PartialEq, Eq)]
pub enum CompileError {
    /// The `{` at `line`:`column` is not closed before the pattern ends.
    Unclosed { line: usize, column: usize },
    /// The character `found` at `line`:`column` follows a `{` and names no
    /// placeholder.
    InvalidContent { line: usize, column: usize, found: char },
    /// The character `found` at `line`:`column` stands where the `}` of a
    /// placeholder belongs.
    ExpectedClose { line: usize, column: usize, found: char },
}

/// The line of the character at index `i` of `s`.
pub open spec fn line_of(s: Seq<char>, i: int) -> nat
    decreases i,
{
    if i <= 0 {
        1
    } else if s[i - 1] == '\n' {
        line_of(s, i - 1) + 1
    } else {
        line_of(s, i - 1)
    }
}

/// The column of the character at index `i` of `s`.
pub open spec fn column_of(s: Seq<char>, i: int) -> nat
    decreases i,
{
    if i <= 0 {
        1
    } else if s[i - 1] == '\n' {
        1
    } else {
        column_of(s, i - 1) + 1
    }
}

/// The placeholder that `c` names between braces, if any.
pub open spec fn placeholder(c: char) -> Option<Token> {
    if c == '#' {
        Some(Token::Index)
    } else if c == '%' {
        Some(Token::Total)
    } else if c == '@' {
        Some(Token::Occupants)
    } else if c == '^' {
        Some(Token::Capacity)
    } else {
        None
    }
}

/// The literal character that is written at index `i` of `s`, and the index
/// behind what writes it; `None` where `i` is the end of `s` or the `{` of a
/// placeholder.
pub open spec fn literal_at(s: Seq<char>, i: int) -> Option<(char, int)> {
    if !(0 <= i < s.len()) {
        None
    } else if s[i] == '{' {
        if i + 1 < s.len() && s[i + 1] == '{' {
            Some(('{', i + 2))
        } else {
            None
        }
    } else if s[i] == '}' && i + 1 < s.len() && s[i + 1] == '}' {
        Some(('}', i + 2))
    } else {
        Some((s[i], i + 1))
    }
}

/// The longest run of literal characters that is written from index `i` of
/// `s` on, and the index behind it.
pub open spec fn literal_run(s: Seq<char>, i: int) -> (Seq<char>, int)
    decreases s.len() - i,
{
    match literal_at(s, i) {
        None => (Seq::empty(), i),
        Some((c, next)) => {
            let (rest, end) = literal_run(s, next);
            (seq![c] + rest, end)
        },
    }
}

/// What stands behind the `{` at index `i - 1` of `s`: the placeholder that
/// the character at `i` names, or why there is none.
pub open spec fn content_at(s: Seq<char>, i: int) -> Result<Token, CompileError> {
    if i >= s.len() {
        Err(
            CompileError::Unclosed {
                line: line_of(s, i - 1) as usize,
                column: column_of(s, i - 1) as usize,
            },
        )
    } else {
        match placeholder(s[i]) {
            Some(token) => Ok(token),
            None => Err(
                CompileError::InvalidContent {
                    line: line_of(s, i) as usize,
                    column: column_of(s, i) as usize,
                    found: s[i],
                },
            ),
        }
    }
}

/// The placeholder that the `{` at index `i` of `s` opens, and the index
/// behind its `}`; or why it opens none.
pub open spec fn placeholder_at(s: Seq<char>, i: int) -> Result<(Token, int), CompileError> {
    match content_at(s, i + 1) {
        Err(e) => Err(e),
        Ok(token) => if i + 2 >= s.len() {
            Err(
                CompileError::Unclosed {
                    line: line_of(s, i) as usize,
                    column: column_of(s, i) as usize,
                },
            )
        } else if s[i + 2] != '}' {
            Err(
                CompileError::ExpectedClose {
                    line: line_of(s, i + 2) as usize,
                    column: column_of(s, i + 2) as usize,
                    found: s[i + 2],
                },
            )
        } else {
            Ok((token, i + 3))
        },
    }
}

/// `first` followed by what `rest` holds, or the error that `rest` is.
pub open spec fn followed_by(first: Seq<Token>, rest: Result<Seq<Token>, CompileError>) -> Result<
    Seq<Token>,
    CompileError,
> {
    match rest {
        Ok(tokens) => Ok(first + tokens),
        Err(e) => Err(e),
    }
}

/// The tokens that `s` compiles to from index `i` on, or the first error
/// from there on.
pub open spec fn tokens_from(s: Seq<char>, i: int) -> Result<Seq<Token>, CompileError>
    decreases s.len() - i,
{
    if !(0 <= i < s.len()) {
        Ok(Seq::empty())
    } else if literal_at(s, i) is Some {
        let (run, end) = literal_run(s, i);
        proof {
            lemma_literal_run(s, i);
        }
        followed_by(seq![Token::Literal(run)], tokens_from(s, end))
    } else {
        match placeholder_at(s, i) {
            Err(e) => Err(e),
            Ok((token, end)) => followed_by(seq![token], tokens_from(s, end)),
        }
    }
}

/// What the pattern `s` compiles to.
pub open spec fn compiled(s: Seq<char>) -> Result<Seq<Token>, CompileError> {
    tokens_from(s, 0)
}

/// Whether no literal of `tokens` is empty and no two literals are
/// neighbours.
pub open spec fn coalesced(tokens: Seq<Token>) -> bool {
    &&& forall|k: int|
        0 <= k < tokens.len() ==> (#[trigger] tokens[k] matches Token::Literal(text)
            ==> text.len() > 0)
    &&& forall|k: int|
        0 <= k < tokens.len() - 1 ==> !(#[trigger] tokens[k] is Literal && tokens[k + 1] is Literal)
}

/// A literal run ends inside `s`, behind where it began, and at a place
/// where no further literal character is written.
pub proof fn lemma_literal_run(s: Seq<char>, i: int)
    requires
        0 <= i <= s.len(),
    ensures
        i <= literal_run(s, i).1 <= s.len(),
        literal_at(s, literal_run(s, i).1) is None,
        literal_at(s, i) is Some ==> i < literal_run(s, i).1 && literal_run(s, i).0.len() > 0,
    decreases s.len() - i,
{
    if let Some((c, next)) = literal_at(s, i) {
        lemma_literal_run(s, next);
    }
}

/// Lines and columns of a position are at most one more than its index.
pub proof fn lemma_position_bounds(s: Seq<char>, i: int)
    requires
        0 <= i,
    ensures
        1 <= line_of(s, i) <= i + 1,
        1 <= column_of(s, i) <= i + 1,
    decreases i,
{
    if i > 0 {
        lemma_position_bounds(s, i - 1);
    }
}

/// The tokens of a pattern are coalesced: the compiler never hands out an
/// empty literal, nor two literals side by side.
pub proof fn lemma_tokens_coalesced(s: Seq<char>, i: int)
    requires
        0 <= i <= s.len(),
        tokens_from(s, i) is Ok,
    ensures
        coalesced(tokens_from(s, i)->Ok_0),
        tokens_from(s, i)->Ok_0.len() > 0 && tokens_from(s, i)->Ok_0[0] is Literal ==> literal_at(
            s,
            i,
        ) is Some,
    decreases s.len() - i,
{
    let tokens = tokens_from(s, i)->Ok_0;
    if i < s.len() {
        if literal_at(s, i) is Some {
            let (run, end) = literal_run(s, i);
            lemma_literal_run(s, i);
            lemma_tokens_coalesced(s, end);
            let rest = tokens_from(s, end)->Ok_0;
            assert forall|k: int| 0 <= k < tokens.len() - 1 implies !(#[trigger] tokens[k] is Literal
                && tokens[k + 1] is Literal) by {}
            assert forall|k: int| 0 <= k < tokens.len() implies (#[trigger] tokens[k] matches Token::Literal(
                text,
            ) ==> text.len() > 0) by {}
        } else {
            let (token, end) = placeholder_at(s, i)->Ok_0;
            lemma_tokens_coalesced(s, end);
            let rest = tokens_from(s, end)->Ok_0;
            assert forall|k: int| 0 <= k < tokens.len() - 1 implies !(#[trigger] tokens[k] is Literal
                && tokens[k + 1] is Literal) by {}
            assert forall|k: int| 0 <= k < tokens.len() implies (#[trigger] tokens[k] matches Token::Literal(
                text,
            ) ==> text.len() > 0) by {}
        }
    }
}

/// What a pattern compiles to is coalesced.
pub proof fn lemma_compiled_coalesced(s: Seq<char>)
    requires
        compiled(s) is Ok,
    ensures
        coalesced(compiled(s)->Ok_0),
{
    lemma_tokens_coalesced(s, 0);
}


/// The byte that writes `'\n'`.
pub const LINE_BREAK: u8 = 0x0A;

/// The byte that writes `'{'`.
pub const OPEN: u8 = 0x7B;

/// The byte that writes `'}'`.
pub const CLOSE: u8 = 0x7D;

/// The byte that writes `'#'`.
pub const NUMBER_SIGN: u8 = 0x23;

/// The byte that writes `'%'`.
pub const PERCENT_SIGN: u8 = 0x25;

/// The byte that writes `'@'`.
pub const AT_SIGN: u8 = 0x40;

/// The byte that writes `'^'`.
pub const CARET: u8 = 0x5E;

/// The first byte of the UTF-8 encoding of `c`.
pub open spec fn lead_byte(c: char) -> u8 {
    encode_scalar(c as u32)[0]
}

/// A character below 128 is its own first byte; the first byte of any other
/// character is 192 or more.
pub proof fn lemma_lead_byte(c: char)
    ensures
        c as u32 <= 0x7F ==> lead_byte(c) as u32 == c as u32,
        c as u32 > 0x7F ==> lead_byte(c) >= 0xC0,
{
    let v = c as u32;
    assert(v <= 0x7F ==> (v & 0x7F) as u8 as u32 == v) by (bit_vector);
    assert(0xC0u8 | ((v >> 6) & 0x1F) as u8 >= 0xC0) by (bit_vector);
    assert(0xE0u8 | ((v >> 12) & 0x0F) as u8 >= 0xC0) by (bit_vector);
    assert(0xF0u8 | ((v >> 18) & 0x7) as u8 >= 0xC0) by (bit_vector);
}

/// The first byte of a character equals the code of a character below 128
/// only where the two characters are the same.
pub proof fn lemma_lead_byte_names(c: char, plain: char)
    requires
        plain as u32 <= 0x7F,
    ensures
        (lead_byte(c) as u32 == plain as u32) <==> c == plain,
{
    lemma_lead_byte(c);
    lemma_lead_byte(plain);
    vstd::utf8::char_u32_cast(c, c as u32);
    vstd::utf8::char_u32_cast(plain, plain as u32);
}

fn lead_byte_of(c: char) -> (b: u8)
    ensures
        b == lead_byte(c),
{
    let v = c as u32;
    proof {
        vstd::utf8::char_is_scalar(c);
    }
    if v <= 0x7F {
        (v & 0x7F) as u8
    } else if v <= 0x7FF {
        0xC0u8 | ((v >> 6) & 0x1F) as u8
    } else if v <= 0xFFFF {
        0xE0u8 | ((v >> 12) & 0x0F) as u8
    } else {
        0xF0u8 | ((v >> 18) & 0x7) as u8
    }
}

/// The state of one compilation: the pattern, how far it has been read, and
/// the parts found so far.
pub struct Parser {
    input: Vec<char>,
    current_idx: usize,
    /// Characters passed since the line began.
    current_col: usize,
    /// Line breaks passed.
    current_row: usize,
    parts: Vec<TemplatePart>,
}

impl Parser {
    /// The pattern.
    pub closed spec fn text(&self) -> Seq<char> {
        self.input@
    }

    /// The index of the next character to read.
    pub closed spec fn cursor(&self) -> int {
        self.current_idx as int
    }

    /// The tokens found so far.
    pub closed spec fn emitted(&self) -> Seq<Token> {
        self.parts@.map_values(|part: TemplatePart| part@)
    }

    /// The cursor is inside the pattern or at its end, and the line and
    /// column on record are those of the cursor.
    pub closed spec fn wf(&self) -> bool {
        &&& self.current_idx <= self.input.len()
        &&& self.current_row + 1 == line_of(self.input@, self.current_idx as int)
        &&& self.current_col + 1 == column_of(self.input@, self.current_idx as int)
    }

    /// Whether the unread part of the pattern begins with `s`.
    pub fn starts_with(&self, s: &str) -> (b: bool)
        requires
            self.wf(),
        ensures
            b == s@.is_prefix_of(self.text().skip(self.cursor())),
    {
        let wanted = chars_of(s);
        if wanted.len() > self.input.len() - self.current_idx {
            return false;
        }
        let ghost rest = self.input@.skip(self.current_idx as int);
        let mut k: usize = 0;
        while k < wanted.len()
            invariant
                k <= wanted.len(),
                wanted.len() <= self.input.len() - self.current_idx,
                rest == self.input@.skip(self.current_idx as int),
                wanted@ == s@,
                forall|j: int| 0 <= j < k ==> wanted@[j] == rest[j],
            decreases wanted.len() - k,
        {
            if wanted[k] != self.input[self.current_idx + k] {
                return false;
            }
            k = k + 1;
        }
        true
    }

    /// The first byte of the UTF-8 encoding of the next character; `None` at
    /// the end of the pattern.
    pub fn current_byte(&self) -> (b: Option<u8>)
        requires
            self.wf(),
        ensures
            b == if self.cursor() < self.text().len() {
                Some(lead_byte(self.text()[self.cursor()]))
            } else {
                None
            },
    {
        if self.current_idx < self.input.len() {
            Some(lead_byte_of(self.input[self.current_idx]))
        } else {
            None
        }
    }

    /// The next character; `None` at the end of the pattern.
    pub fn current_char(&self) -> (c: Option<char>)
        requires
            self.wf(),
        ensures
            c == if self.cursor() < self.text().len() {
                Some(self.text()[self.cursor()])
            } else {
                None
            },
    {
        if self.current_idx < self.input.len() {
            Some(self.input[self.current_idx])
        } else {
            None
        }
    }

    /// Passes the next character, and keeps line and column up to date. At
    /// the end of the pattern nothing changes.
    pub fn advance(&mut self)
        requires
            old(self).wf(),
        ensures
            final(self).wf(),
            final(self).text() == old(self).text(),
            final(self).emitted() == old(self).emitted(),
            final(self).cursor() == if old(self).cursor() < old(self).text().len() {
                old(self).cursor() + 1
            } else {
                old(self).cursor()
            },
    {
        let next = self.current_byte();
        let newline = match next {
            None => {
                return ;
            },
            Some(b) => b == LINE_BREAK,
        };
        proof {
            let c = self.input@[self.current_idx as int];
            lemma_position_bounds(self.input@, self.current_idx as int);
            lemma_lead_byte_names(c, '\n');
        }
        if newline {
            self.current_col = 0;
            self.current_row = self.current_row + 1;
        } else {
            self.current_col = self.current_col + 1;
        }
        self.current_idx = self.current_idx + 1;
    }

    /// A parser at the start of `input`, with no part found yet.
    pub fn new(input: &str) -> (parser: Parser)
        ensures
            parser.wf(),
            parser.text() == input@,
            parser.cursor() == 0,
            parser.emitted() == Seq::<Token>::empty(),
    {
        let parser = Parser {
            input: chars_of(input),
            current_idx: 0,
            current_col: 0,
            current_row: 0,
            parts: Vec::new(),
        };
        parser
    }

    /// Reads the character that names a placeholder, behind the `{` that has
    /// just been passed.
    pub fn parse_template_content(&mut self) -> (r: Result<TemplatePart, CompileError>)
        requires
            old(self).wf(),
            0 < old(self).cursor(),
            old(self).text()[old(self).cursor() - 1] == '{',
        ensures
            final(self).wf(),
            final(self).text() == old(self).text(),
            final(self).emitted() == old(self).emitted(),
            match content_at(old(self).text(), old(self).cursor()) {
                Ok(token) => r matches Ok(part) && part@ == token && final(self).cursor() == old(
                    self,
                ).cursor() + 1,
                Err(e) => r == Err::<TemplatePart, CompileError>(e) && final(self).cursor() == old(
                    self,
                ).cursor(),
            },
    {
        proof {
            lemma_position_bounds(self.input@, self.current_idx as int);
            lemma_position_bounds(self.input@, self.current_idx - 1);
        }
        let next = self.current_byte();
        let b = match next {
            None => {
                return Err(
                    CompileError::Unclosed { line: self.current_row + 1, column: self.current_col },
                );
            },
            Some(b) => b,
        };
        proof {
            let c = self.input@[self.current_idx as int];
            lemma_lead_byte_names(c, '#');
            lemma_lead_byte_names(c, '%');
            lemma_lead_byte_names(c, '@');
            lemma_lead_byte_names(c, '^');
        }
        let part = if b == NUMBER_SIGN {
            TemplatePart::ChannelNumber
        } else if b == PERCENT_SIGN {
            TemplatePart::ChildrenInTotal
        } else if b == AT_SIGN {
            TemplatePart::Occupants
        } else if b == CARET {
            TemplatePart::Capacity
        } else {
            return Err(
                CompileError::InvalidContent {
                    line: self.current_row + 1,
                    column: self.current_col + 1,
                    found: self.input[self.current_idx],
                },
            );
        };
        self.advance();
        Ok(part)
    }

    /// Reads one placeholder, from its `{` to its `}`.
    pub fn parse_braces(&mut self) -> (r: Result<TemplatePart, CompileError>)
        requires
            old(self).wf(),
            old(self).cursor() < old(self).text().len(),
            old(self).text()[old(self).cursor()] == '{',
        ensures
            final(self).wf(),
            final(self).text() == old(self).text(),
            final(self).emitted() == old(self).emitted(),
            match placeholder_at(old(self).text(), old(self).cursor()) {
                Ok((token, end)) => r matches Ok(part) && part@ == token && final(self).cursor()
                    == end,
                Err(e) => r == Err::<TemplatePart, CompileError>(e),
            },
    {
        proof {
            lemma_position_bounds(self.input@, self.current_idx as int);
        }
        let open_line = self.current_row + 1;
        let open_column = self.current_col + 1;
        self.advance();
        let content = self.parse_template_content();
        let part = match content {
            Err(e) => {
                return Err(e);
            },
            Ok(part) => part,
        };
        proof {
            lemma_position_bounds(self.input@, self.current_idx as int);
        }
        let next = self.current_byte();
        match next {
            None => Err(CompileError::Unclosed { line: open_line, column: open_column }),
            Some(b) => {
                proof {
                    lemma_lead_byte_names(self.input@[self.current_idx as int], '}');
                }
                if b != CLOSE {
                    Err(
                        CompileError::ExpectedClose {
                            line: self.current_row + 1,
                            column: self.current_col + 1,
                            found: self.input[self.current_idx],
                        },
                    )
                } else {
                    self.advance();
                    Ok(part)
                }
            },
        }
    }

    /// Reads the longest run of literal text that begins at the cursor.
    pub fn parse_string(&mut self) -> (part: TemplatePart)
        requires
            old(self).wf(),
            literal_at(old(self).text(), old(self).cursor()) is Some,
        ensures
            final(self).wf(),
            final(self).text() == old(self).text(),
            final(self).emitted() == old(self).emitted(),
            part@ == Token::Literal(literal_run(old(self).text(), old(self).cursor()).0),
            final(self).cursor() == literal_run(old(self).text(), old(self).cursor()).1,
    {
        let mut contents = String::new();
        let ghost whole = literal_run(self.input@, self.current_idx as int);
        loop
            invariant
                self.wf(),
                self.text() == old(self).text(),
                self.emitted() == old(self).emitted(),
                whole == literal_run(old(self).text(), old(self).cursor()),
                whole.0 == contents@ + literal_run(self.input@, self.current_idx as int).0,
                whole.1 == literal_run(self.input@, self.current_idx as int).1,
            ensures
                self.wf(),
                self.text() == old(self).text(),
                self.emitted() == old(self).emitted(),
                whole == literal_run(old(self).text(), old(self).cursor()),
                whole.0 == contents@,
                whole.1 == self.current_idx,
            decreases self.input@.len() - self.current_idx,
        {
            proof {
                reveal_strlit("{{");
                reveal_strlit("}}");
            }
            let ghost before = contents@;
            let ghost at = self.current_idx as int;
            let ghost rest = self.input@.skip(at);
            if self.starts_with("{{") {
                assert(rest[0] == '{' && rest[1] == '{') by {
                    assert(rest.subrange(0, 2)[0] == rest[0]);
                    assert(rest.subrange(0, 2)[1] == rest[1]);
                }
                self.advance();
                self.advance();
                contents.push('{');
            } else if self.starts_with("}}") {
                assert(rest[0] == '}' && rest[1] == '}') by {
                    assert(rest.subrange(0, 2)[0] == rest[0]);
                    assert(rest.subrange(0, 2)[1] == rest[1]);
                }
                self.advance();
                self.advance();
                contents.push('}');
            } else {
                let next = self.current_char();
                proof {
                    // No doubled brace begins here.
                    if at + 1 < self.input@.len() {
                        assert(rest[0] != rest[1] || (rest[0] != '{' && rest[0] != '}')) by {
                            assert(rest.subrange(0, 2) =~= seq![rest[0], rest[1]]);
                        }
                    }
                }
                match next {
                    None => {
                        break ;
                    },
                    Some(c) => {
                        if c == '{' {
                            break ;
                        }
                        contents.push(c);
                        self.advance();
                    },
                }
            }
        }
        TemplatePart::String(contents)
    }

    /// Reads the rest of the pattern and hands out all parts, those found
    /// before the call first.
    pub fn parse(self) -> (r: Result<Template, CompileError>)
        requires
            self.wf(),
        ensures
            match tokens_from(self.text(), self.cursor()) {
                Ok(tokens) => r matches Ok(template) && template@ == self.emitted() + tokens,
                Err(e) => r == Err::<Template, CompileError>(e),
            },
    {
        let mut this = self;
        let ghost goal = followed_by(self.emitted(), tokens_from(self.text(), self.cursor()));
        while this.current_idx < this.input.len()
            invariant
                this.wf(),
                this.text() == self.text(),
                goal == followed_by(self.emitted(), tokens_from(self.text(), self.cursor())),
                goal == followed_by(this.emitted(), tokens_from(this.text(), this.cursor())),
            decreases this.input@.len() - this.current_idx,
        {
            let ghost at = this.current_idx as int;
            let ghost found = this.emitted();
            proof {
                reveal_strlit("{{");
                lemma_literal_run(this.input@, at);
                let rest = this.input@.skip(at);
                if at + 1 < this.input@.len() {
                    assert(rest.subrange(0, 2) =~= seq![rest[0], rest[1]]);
                }
                lemma_lead_byte_names(this.input@[at], '{');
            }
            let next = this.current_byte();
            let opens = match next {
                Some(b) => b == OPEN,
                None => false,
            };
            if opens && !this.starts_with("{{") {
                let res = this.parse_braces();
                match res {
                    Err(e) => {
                        return Err(e);
                    },
                    Ok(part) => {
                        this.parts.push(part);
                        assert(this.emitted() =~= found.push(part@));
                        assert forall|rest: Seq<Token>|
                            found + (seq![part@] + rest) =~= #[trigger] (found.push(part@) + rest) by {}
                    },
                }
            } else {
                let part = this.parse_string();
                this.parts.push(part);
                assert(this.emitted() =~= found.push(part@));
                assert forall|rest: Seq<Token>|
                    found + (seq![part@] + rest) =~= #[trigger] (found.push(part@) + rest) by {}
            }
        }
        Ok(Template { parts: this.parts })
    }
}

/// Compiles `template`.
///
/// The result is exactly what [`compiled`] says of the pattern: its tokens,
/// or the first error in it. The tokens are coalesced.
pub fn parse_template(template: &str) -> (r: Result<Template, CompileError>)
    ensures
        match compiled(template@) {
            Ok(tokens) => r matches Ok(t) && t@ == tokens && coalesced(t@),
            Err(e) => r == Err::<Template, CompileError>(e),
        },
{
    proof {
        if compiled(template@) is Ok {
            lemma_compiled_coalesced(template@);
        }
    }
    let parser = Parser::new(template);
    parser.parse()
}


impl CompileError {
    /// The line of the character that the error points at.
    pub open spec fn spec_line(&self) -> usize {
        match self {
            CompileError::Unclosed { line, .. } => *line,
            CompileError::InvalidContent { line, .. } => *line,
            CompileError::ExpectedClose { line, .. } => *line,
        }
    }

    /// The column of the character that the error points at.
    pub open spec fn spec_column(&self) -> usize {
        match self {
            CompileError::Unclosed { column, .. } => *column,
            CompileError::InvalidContent { column, .. } => *column,
            CompileError::ExpectedClose { column, .. } => *column,
        }
    }

    /// The text of [`CompileError::message`].
    pub open spec fn message_text(&self) -> Seq<char> {
        let place = decimal(self.spec_line() as nat) + ":"@ + decimal(self.spec_column() as nat);
        match self {
            CompileError::Unclosed { .. } => "no '}' closes the '{' at "@ + place,
            CompileError::InvalidContent { found, .. } => "no placeholder is named '"@.push(*found)
                + "' at "@ + place + ": expected one of '#', '%', '@', '^'"@,
            CompileError::ExpectedClose { found, .. } => "expected '}' but found '"@.push(*found)
                + "' at "@ + place,
        }
    }

    /// The line of the character that the error points at, counted from one.
    #[verifier::when_used_as_spec(spec_line)]
    pub fn line(&self) -> (line: usize)
        ensures
            line == self.spec_line(),
    {
        match self {
            CompileError::Unclosed { line, .. } => *line,
            CompileError::InvalidContent { line, .. } => *line,
            CompileError::ExpectedClose { line, .. } => *line,
        }
    }

    /// The column of the character that the error points at, counted from
    /// one.
    #[verifier::when_used_as_spec(spec_column)]
    pub fn column(&self) -> (column: usize)
        ensures
            column == self.spec_column(),
    {
        match self {
            CompileError::Unclosed { column, .. } => *column,
            CompileError::InvalidContent { column, .. } => *column,
            CompileError::ExpectedClose { column, .. } => *column,
        }
    }

    /// A sentence for the operator: what is wrong, and where.
    pub fn message(&self) -> (text: String)
        ensures
            text@ == self.message_text(),
    {
        let mut place = String::new();
        push_decimal(&mut place, self.line() as u64);
        push_chars(&mut place, ":");
        push_decimal(&mut place, self.column() as u64);
        let mut text = String::new();
        match self {
            CompileError::Unclosed { .. } => {
                push_chars(&mut text, "no '}' closes the '{' at ");
                push_chars(&mut text, place.as_str());
            },
            CompileError::InvalidContent { found, .. } => {
                push_chars(&mut text, "no placeholder is named '");
                text.push(*found);
                push_chars(&mut text, "' at ");
                push_chars(&mut text, place.as_str());
                push_chars(&mut text, ": expected one of '#', '%', '@', '^'");
            },
            CompileError::ExpectedClose { found, .. } => {
                push_chars(&mut text, "expected '}' but found '");
                text.push(*found);
                push_chars(&mut text, "' at ");
                push_chars(&mut text, place.as_str());
            },
        }
        text
    }
}

} // verus!
