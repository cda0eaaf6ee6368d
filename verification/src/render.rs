//! The room renderer: from tokens and numbers to a room name.
//!
//! [`rendered`] says what a name is; [`render`] computes it, and
//! [`update_channel`] decides whether a room has to be renamed.

use vstd::prelude::*;
use crate::template::{
    compiled, literal_at, literal_run, parse_template, tokens_from, CompileError, Template,
    TemplatePart, Token,
};
use crate::text::{decimal, push_chars, push_decimal};

verus! {

/// The numbers that a room name can show.
#[derive(Debug, Clone, Copy, PartialEq, Eq)]
pub struct NameContext {
    /// The number of the room within its family.
    pub index: u64,
    /// How many rooms the family has.
    pub total: u64,
    /// How many occupants the room has.
    pub occupants: u64,
    /// How many occupants the room can hold; `None` where nothing limits
    /// them.
    pub capacity: Option<u64>,
}

/// The number that stands for a capacity in a name: the capacity itself,
/// and zero where nothing limits the occupants, as the platform writes it.
pub open spec fn capacity_shown(capacity: Option<u64>) -> nat {
    match capacity {
        Some(limit) => limit as nat,
        None => 0,
    }
}

/// The text that one token contributes to a name.
pub open spec fn piece(token: Token, ctx: NameContext) -> Seq<char> {
    match token {
        Token::Index => decimal(ctx.index as nat),
        Token::Total => decimal(ctx.total as nat),
        Token::Occupants => decimal(ctx.occupants as nat),
        Token::Capacity => decimal(capacity_shown(ctx.capacity)),
        Token::Literal(text) => text,
    }
}

/// The name that `tokens` make with the numbers of `ctx`: the pieces of all
/// tokens, in order.
pub open spec fn rendered(tokens: Seq<Token>, ctx: NameContext) -> Seq<char>
    decreases tokens.len(),
{
    if tokens.len() == 0 {
        Seq::empty()
    } else {
        rendered(tokens.drop_last(), ctx) + piece(tokens.last(), ctx)
    }
}

/// The name that `template` makes with the numbers of `ctx`.
pub fn render(template: &Template, ctx: &NameContext) -> (name: String)
    ensures
        name@ == rendered(template@, *ctx),
{
    let mut name = String::new();
    let mut i: usize = 0;
    while i < template.parts.len()
        invariant
            i <= template.parts.len(),
            name@ == rendered(template@.take(i as int), *ctx),
        decreases template.parts.len() - i,
    {
        match &template.parts[i] {
            TemplatePart::String(text) => push_chars(&mut name, text.as_str()),
            TemplatePart::ChannelNumber => push_decimal(&mut name, ctx.index),
            TemplatePart::ChildrenInTotal => push_decimal(&mut name, ctx.total),
            TemplatePart::Occupants => push_decimal(&mut name, ctx.occupants),
            TemplatePart::Capacity => {
                let shown = match ctx.capacity {
                    Some(limit) => limit,
                    None => 0,
                };
                push_decimal(&mut name, shown)
            },
        }
        assert(template@.take(i + 1).drop_last() =~= template@.take(i as int));
        i = i + 1;
    }
    assert(template@.take(template.parts.len() as int) =~= template@);
    name
}

/// What is needed to bring the name of one room up to date.
pub struct UpdaterContext<'a> {
    /// The compiled pattern of the family.
    pub template: &'a Template,
    /// The name that the room has now.
    pub channel_name: &'a String,
    /// The number of the room within its family.
    pub channel_number: u64,
    /// How many rooms the family has.
    pub total_children_number: u64,
    /// How many occupants the room has.
    pub occupants: u64,
    /// How many occupants the room can hold.
    pub capacity: Option<u64>,
}

impl<'a> UpdaterContext<'a> {
    /// The numbers that the name of the room shows.
    pub open spec fn numbers(&self) -> NameContext {
        NameContext {
            index: self.channel_number,
            total: self.total_children_number,
            occupants: self.occupants,
            capacity: self.capacity,
        }
    }
}

/// The new name that the room has to be given, or `None` where it bears
/// that name already, so that nothing has to be sent to the platform.
pub fn update_channel(ctx: &UpdaterContext) -> (rename: Option<String>)
    ensures
        rename matches Some(name) ==> (name@ == rendered(ctx.template@, ctx.numbers()) && name@
            != ctx.channel_name@),
        rename is None <==> ctx.channel_name@ == rendered(ctx.template@, ctx.numbers()),
{
    let numbers = NameContext {
        index: ctx.channel_number,
        total: ctx.total_children_number,
        occupants: ctx.occupants,
        capacity: ctx.capacity,
    };
    let new_name = render(ctx.template, &numbers);
    if new_name == *ctx.channel_name {
        None
    } else {
        Some(new_name)
    }
}

/// Rendering is a function of the tokens and the numbers: two names made
/// from the same tokens and numbers are the same name.
pub proof fn lemma_render_twice(tokens: Seq<Token>, ctx: NameContext, first: Seq<char>, second: Seq<char>)
    requires
        first == rendered(tokens, ctx),
        second == rendered(tokens, ctx),
    ensures
        first == second,
{
}

/// A room that bears the name its pattern and numbers make is not renamed
/// again while neither changes: what [`update_channel`] then answers is
/// `None`.
pub proof fn lemma_rename_settles(
    tokens: Seq<Token>,
    ctx: NameContext,
    name_after_rename: Seq<char>,
    second_answer: Option<Seq<char>>,
)
    requires
        name_after_rename == rendered(tokens, ctx),
        second_answer is None <==> name_after_rename == rendered(tokens, ctx),
    ensures
        second_answer is None,
{
}

/// Whether `s` holds no brace that the compiler would read as anything but
/// itself: no `{` at all, and no `}` next to another.
pub open spec fn plain(s: Seq<char>) -> bool {
    &&& forall|i: int| 0 <= i < s.len() ==> s[i] != '{'
    &&& forall|i: int| 0 <= i < s.len() - 1 ==> !(s[i] == '}' && #[trigger] s[i + 1] == '}')
}

/// In plain text every character writes itself: the literal run from `i`
/// is the rest of the text.
pub proof fn lemma_plain_run(s: Seq<char>, i: int)
    requires
        plain(s),
        0 <= i <= s.len(),
    ensures
        literal_run(s, i) == (s.skip(i), s.len() as int),
    decreases s.len() - i,
{
    if i < s.len() {
        lemma_plain_run(s, i + 1);
    }
}

/// A plain pattern compiles to itself as one literal (to nothing where it
/// is empty), and renders as itself whatever the numbers are.
pub proof fn lemma_plain_round_trip(s: Seq<char>, ctx: NameContext)
    requires
        plain(s),
    ensures
        compiled(s) == Ok::<Seq<Token>, CompileError>(
            if s.len() == 0 {
                Seq::empty()
            } else {
                seq![Token::Literal(s)]
            },
        ),
        rendered(compiled(s)->Ok_0, ctx) == s,
{
    if s.len() > 0 {
        lemma_plain_run(s, 0);
        assert(s.skip(0) =~= s);
        assert(literal_at(s, 0) is Some);
        assert(tokens_from(s, s.len() as int) == Ok::<Seq<Token>, CompileError>(Seq::empty()));
        let tokens = seq![Token::Literal(s)];
        assert(tokens.drop_last() =~= Seq::<Token>::empty());
    } else {
        assert(rendered(Seq::<Token>::empty(), ctx) =~= s);
    }
}

/// A pattern that is literal text from end to end compiles to one literal,
/// the text with every doubled brace written once, and renders as that
/// text whatever the numbers are.
pub proof fn lemma_literal_round_trip(s: Seq<char>, ctx: NameContext)
    requires
        s.len() > 0,
        literal_run(s, 0).1 == s.len(),
    ensures
        compiled(s) == Ok::<Seq<Token>, CompileError>(seq![Token::Literal(literal_run(s, 0).0)]),
        rendered(compiled(s)->Ok_0, ctx) == literal_run(s, 0).0,
{
    let run = literal_run(s, 0).0;
    assert(literal_at(s, 0) is Some);
    assert(tokens_from(s, s.len() as int) == Ok::<Seq<Token>, CompileError>(Seq::empty()));
    let tokens = seq![Token::Literal(run)];
    assert(tokens.drop_last() =~= Seq::<Token>::empty());
    assert(rendered(Seq::<Token>::empty(), ctx) =~= Seq::<char>::empty());
}

/// Compiles `pattern` and renders it with the numbers of `ctx`.
pub fn render_pattern(pattern: &str, ctx: &NameContext) -> (r: Result<String, CompileError>)
    ensures
        match compiled(pattern@) {
            Ok(tokens) => r matches Ok(name) && name@ == rendered(tokens, *ctx),
            Err(e) => r == Err::<String, CompileError>(e),
        },
        plain(pattern@) ==> (r matches Ok(name) && name@ == pattern@),
{
    proof {
        if plain(pattern@) {
            lemma_plain_round_trip(pattern@, *ctx);
        }
    }
    match parse_template(pattern) {
        Ok(template) => Ok(render(&template, ctx)),
        Err(e) => Err(e),
    }
}

} // verus!
