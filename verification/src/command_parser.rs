//! Commands that arrive as plain messages: the words of a message, without
//! the mention of the bot and without the name of the command.

use vstd::prelude::*;
use crate::text::{chars_of, decimal, push_chars, push_decimal, string_of};

verus! {

/// Whether `c` has the Unicode property `White_Space`, as
/// `char::is_whitespace` tells it.
pub uninterp spec fn white_space(c: char) -> bool;

/// `char::is_whitespace`: whether `c` is white space. The answer depends
/// on the character alone.
#[verifier::external_body]
fn is_whitespace(c: char) -> (b: bool)
    ensures
        b == white_space(c),
{
    c.is_whitespace()
}

/// The state of reading words: the words that are complete, and the word
/// that is being read.
pub struct Words {
    pub done: Seq<Seq<char>>,
    pub current: Seq<char>,
}

/// What reading `c` makes of `words`: white space completes the word that
/// is being read, if there is one; any other character goes on to it.
pub open spec fn word_step(words: Words, c: char) -> Words {
    if white_space(c) {
        if words.current.len() > 0 {
            Words { done: words.done.push(words.current), current: Seq::empty() }
        } else {
            words
        }
    } else {
        Words { done: words.done, current: words.current.push(c) }
    }
}

/// What reading all of `s` makes of no words.
pub open spec fn words_read(s: Seq<char>) -> Words
    decreases s.len(),
{
    if s.len() == 0 {
        Words { done: Seq::empty(), current: Seq::empty() }
    } else {
        word_step(words_read(s.drop_last()), s.last())
    }
}

/// The words of `s`: the longest runs of characters that are not white
/// space, in order.
pub open spec fn words_of(s: Seq<char>) -> Seq<Seq<char>> {
    let words = words_read(s);
    if words.current.len() > 0 {
        words.done.push(words.current)
    } else {
        words.done
    }
}

/// How the bot is mentioned: `<@`, its id as a decimal numeral, `>`.
pub open spec fn mention_of(client_id: u64) -> Seq<char> {
    "<@"@ + decimal(client_id as nat) + ">"@
}

/// How many words stand before the arguments: the name of the command,
/// and before it the mention of the bot where the message begins with it.
pub open spec fn words_before_args(words: Seq<Seq<char>>, client_id: u64) -> int {
    if words.len() > 0 && mention_of(client_id).is_prefix_of(words[0]) {
        2
    } else {
        1
    }
}

/// The arguments of the command that `content` is.
pub open spec fn args_of(content: Seq<char>, client_id: u64) -> Seq<Seq<char>> {
    let words = words_of(content);
    let before = words_before_args(words, client_id);
    if before <= words.len() {
        words.skip(before)
    } else {
        Seq::empty()
    }
}

/// A command: the message as it came, and its arguments.
#[derive(Debug)]
pub struct Command {
    command: String,
    args: Vec<String>,
}

impl Command {
    /// The message as it came.
    pub closed spec fn text(&self) -> Seq<char> {
        self.command@
    }

    /// The arguments, in order.
    pub closed spec fn arguments(&self) -> Seq<Seq<char>> {
        self.args@.map_values(|arg: String| arg@)
    }

    /// The argument at place `n`, counted from zero, if there is one.
    pub fn get_nth_arg(&self, n: usize) -> (arg: Option<&str>)
        ensures
            arg is Some <==> n < self.arguments().len(),
            arg matches Some(text) ==> text@ == self.arguments()[n as int],
    {
        if n < self.args.len() {
            Some(self.args[n].as_str())
        } else {
            None
        }
    }

    /// The arguments, in order.
    pub fn args(&self) -> (args: &Vec<String>)
        ensures
            args@.map_values(|arg: String| arg@) == self.arguments(),
    {
        &self.args
    }

    /// The arguments, in order, for one pass over them.
    pub fn args_iter(&self) -> (args: Vec<&str>)
        ensures
            args.len() == self.arguments().len(),
            forall|i: int| 0 <= i < args.len() ==> (#[trigger] args[i])@ == self.arguments()[i],
    {
        let mut args: Vec<&str> = Vec::new();
        let mut i: usize = 0;
        while i < self.args.len()
            invariant
                i <= self.args.len(),
                args.len() == i,
                forall|k: int| 0 <= k < i ==> (#[trigger] args[k])@ == self.arguments()[k],
            decreases self.args.len() - i,
        {
            args.push(self.args[i].as_str());
            i = i + 1;
        }
        args
    }
}

/// The words of `content`, in order.
pub fn split_words(content: &str) -> (words: Vec<Vec<char>>)
    ensures
        words@.map_values(|word: Vec<char>| word@) == words_of(content@),
{
    let chars = chars_of(content);
    let mut done: Vec<Vec<char>> = Vec::new();
    let mut current: Vec<char> = Vec::new();
    let mut i: usize = 0;
    assert(done@.map_values(|word: Vec<char>| word@) =~= Seq::<Seq<char>>::empty());
    while i < chars.len()
        invariant
            i <= chars.len(),
            chars@ == content@,
            (Words { done: done@.map_values(|word: Vec<char>| word@), current: current@ })
                == words_read(chars@.take(i as int)),
        decreases chars.len() - i,
    {
        let c = chars[i];
        let ghost before = done@.map_values(|word: Vec<char>| word@);
        proof {
            assert(chars@.take(i + 1).drop_last() == chars@.take(i as int));
        }
        if is_whitespace(c) {
            if current.len() > 0 {
                let ghost word = current@;
                done.push(current);
                current = Vec::new();
                assert(done@.map_values(|word: Vec<char>| word@) =~= before.push(word));
            }
        } else {
            current.push(c);
        }
        i = i + 1;
    }
    assert(chars@.take(chars.len() as int) == chars@);
    if current.len() > 0 {
        let ghost before = done@.map_values(|word: Vec<char>| word@);
        let ghost word = current@;
        done.push(current);
    }
    done
}

fn starts_with(word: &Vec<char>, prefix: &Vec<char>) -> (b: bool)
    ensures
        b == prefix@.is_prefix_of(word@),
{
    if prefix.len() > word.len() {
        return false;
    }
    let mut k: usize = 0;
    while k < prefix.len()
        invariant
            k <= prefix.len(),
            prefix.len() <= word.len(),
            forall|j: int| 0 <= j < k ==> prefix@[j] == word@[j],
        decreases prefix.len() - k,
    {
        if prefix[k] != word[k] {
            return false;
        }
        k = k + 1;
    }
    true
}

/// Reads the message `content` as a command to the bot whose id is
/// `client_id`: the words behind the name of the command are its
/// arguments. The mention of the bot, where the message begins with it, is
/// passed over first.
pub fn parse_command(client_id: u64, content: &str) -> (command: Command)
    ensures
        command.text() == content@,
        command.arguments() == args_of(content@, client_id),
{
    let words = split_words(content);
    let ghost all = words@.map_values(|word: Vec<char>| word@);
    let mut mention = String::new();
    push_chars(&mut mention, "<@");
    push_decimal(&mut mention, client_id);
    push_chars(&mut mention, ">");
    let mention = chars_of(mention.as_str());
    let before: usize = if words.len() > 0 && starts_with(&words[0], &mention) {
        2
    } else {
        1
    };
    let mut args: Vec<String> = Vec::new();
    if before > words.len() {
        let command = Command { command: content.to_owned(), args };
        return command;
    }
    let mut i: usize = before;
    while i < words.len()
        invariant
            before <= i <= words.len(),
            all == words@.map_values(|word: Vec<char>| word@),
            args@.map_values(|arg: String| arg@) == all.subrange(before as int, i as int),
        decreases words.len() - i,
    {
        let ghost so_far = args@.map_values(|arg: String| arg@);
        let arg = string_of(&words[i]);
        args.push(arg);
        assert(args@.map_values(|arg: String| arg@) =~= so_far.push(all[i as int]));
        i = i + 1;
    }
    Command { command: content.to_owned(), args }
}

} // verus!
