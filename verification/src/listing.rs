//! The list of families that an operator can ask for.

use vstd::prelude::*;
use crate::text::{decimal, push_chars, push_decimal};

verus! {

/// A sibling room in a list: its number and its name on the platform.
#[derive(Debug)]
pub struct ChildListing {
    pub number: u64,
    pub name: String,
}

/// A template room in a list: its name on the platform, and its siblings.
#[derive(Debug)]
pub struct ParentListing {
    pub name: String,
    pub children: Vec<ChildListing>,
}

/// The line for one sibling.
pub open spec fn child_line(child: ChildListing) -> Seq<char> {
    "\t\tChild "@ + decimal(child.number as nat) + ": \""@ + child.name@ + "\"\n"@
}

/// The lines for the siblings from place `from` on.
pub open spec fn child_lines(children: Seq<ChildListing>, from: int) -> Seq<char>
    decreases children.len() - from,
{
    if from < 0 || from >= children.len() {
        Seq::empty()
    } else {
        child_line(children[from]) + child_lines(children, from + 1)
    }
}

/// The lines for one template room, which is the `position`-th of the
/// list, and for its siblings.
pub open spec fn parent_lines(parent: ParentListing, position: nat) -> Seq<char> {
    "\tParent "@ + decimal(position) + ": \""@ + parent.name@ + "\"\n"@ + child_lines(
        parent.children@,
        0,
    )
}

/// The lines for the template rooms from place `from` on, which are
/// counted from one.
pub open spec fn family_lines(parents: Seq<ParentListing>, from: int) -> Seq<char>
    decreases parents.len() - from,
{
    if from < 0 || from >= parents.len() {
        Seq::empty()
    } else {
        parent_lines(parents[from], (from + 1) as nat) + family_lines(parents, from + 1)
    }
}

/// The message that lists `parents` for the operator that `mention` names.
pub open spec fn list_text(mention: Seq<char>, parents: Seq<ParentListing>) -> Seq<char> {
    mention + ":\n`"@ + family_lines(parents, 0) + "`"@
}

fn children_text(children: &Vec<ChildListing>) -> (text: String)
    ensures
        text@ == child_lines(children@, 0),
{
    let mut text = String::new();
    let mut i: usize = children.len();
    while i > 0
        invariant
            i <= children.len(),
            text@ == child_lines(children@, i as int),
        decreases i,
    {
        i = i - 1;
        let mut line = String::new();
        push_chars(&mut line, "\t\tChild ");
        push_decimal(&mut line, children[i].number);
        push_chars(&mut line, ": \"");
        push_chars(&mut line, children[i].name.as_str());
        push_chars(&mut line, "\"\n");
        push_chars(&mut line, text.as_str());
        text = line;
    }
    text
}

/// The message that lists `parents` for the operator that `mention` names:
/// one line for each template room, counted from one, each followed by one
/// line for each of its siblings.
pub fn list_message(mention: &str, parents: &Vec<ParentListing>) -> (text: String)
    ensures
        text@ == list_text(mention@, parents@),
{
    let mut lines = String::new();
    let mut i: usize = parents.len();
    while i > 0
        invariant
            i <= parents.len(),
            lines@ == family_lines(parents@, i as int),
        decreases i,
    {
        i = i - 1;
        let mut block = String::new();
        push_chars(&mut block, "\tParent ");
        push_decimal(&mut block, (i + 1) as u64);
        push_chars(&mut block, ": \"");
        push_chars(&mut block, parents[i].name.as_str());
        push_chars(&mut block, "\"\n");
        let below = children_text(&parents[i].children);
        push_chars(&mut block, below.as_str());
        push_chars(&mut block, lines.as_str());
        lines = block;
    }
    let mut text = String::new();
    push_chars(&mut text, mention);
    push_chars(&mut text, ":\n`");
    push_chars(&mut text, lines.as_str());
    push_chars(&mut text, "`");
    text
}

} // verus!
