//! Editors that the viewer can hand a file to.

use vstd::prelude::*;

use crate::chars::{chars_of, string_of};

verus! {

/// An editor found on the system: a name to show and the command that starts it.
pub struct EditorEntry {
    /// The name shown in the picker.
    pub name: String,
    /// The command line that starts the editor.
    pub command: String,
}

impl EditorEntry {
    /// An entry with the given name and command.
    pub fn new(name: String, command: String) -> (e: EditorEntry)
        ensures
            e.name == name,
            e.command == command,
    {
        EditorEntry { name, command }
    }
}

/// Whether `c` separates the words of a command line.
pub open spec fn is_blank(c: char) -> bool {
    c == ' ' || c == '\t' || c == '\n' || c == '\r' || c == '\x0B' || c == '\x0C'
}

/// The number of blanks at the start of `s`.
pub open spec fn leading_blanks(s: Seq<char>) -> nat
    decreases s.len(),
{
    if s.len() > 0 && is_blank(s[0]) {
        1 + leading_blanks(s.drop_first())
    } else {
        0
    }
}

/// The number of characters before the first blank of `s` (all of them when
/// there is none).
pub open spec fn word_len(s: Seq<char>) -> nat
    decreases s.len(),
{
    if s.len() > 0 && !is_blank(s[0]) {
        1 + word_len(s.drop_first())
    } else {
        0
    }
}

/// The first word of a command line.
pub open spec fn first_word(s: Seq<char>) -> Seq<char> {
    let rest = s.skip(leading_blanks(s) as int);
    rest.take(word_len(rest) as int)
}

/// What follows the last `'/'` or `'\\'` of `w` (all of `w` when there is none).
pub open spec fn last_component(w: Seq<char>) -> Seq<char>
    decreases w.len(),
{
    if w.len() == 0 {
        w
    } else if w.last() == '/' || w.last() == '\\' {
        seq![]
    } else {
        last_component(w.drop_last()).push(w.last())
    }
}

/// The program that a command line starts: the last path component of its first word.
pub open spec fn program_of(command: Seq<char>) -> Seq<char> {
    last_component(first_word(command))
}

proof fn lemma_leading_blanks(s: Seq<char>, k: int)
    requires
        0 <= k <= s.len(),
        forall|j: int| 0 <= j < k ==> is_blank(#[trigger] s[j]),
        k < s.len() ==> !is_blank(s[k]),
    ensures
        leading_blanks(s) == k,
    decreases k,
{
    if k > 0 {
        lemma_leading_blanks(s.drop_first(), k - 1);
    }
}

proof fn lemma_word_len(s: Seq<char>, k: int)
    requires
        0 <= k <= s.len(),
        forall|j: int| 0 <= j < k ==> !is_blank(#[trigger] s[j]),
        k < s.len() ==> is_blank(s[k]),
    ensures
        word_len(s) == k,
    decreases k,
{
    if k > 0 {
        lemma_word_len(s.drop_first(), k - 1);
    }
}

proof fn lemma_last_component(w: Seq<char>, k: int)
    requires
        0 <= k <= w.len(),
        forall|j: int| k <= j < w.len() ==> !(#[trigger] w[j] == '/' || w[j] == '\\'),
        k > 0 ==> (w[k - 1] == '/' || w[k - 1] == '\\'),
    ensures
        last_component(w) == w.skip(k),
    decreases w.len(),
{
    if w.len() > k {
        lemma_last_component(w.drop_last(), k);
        assert(w.drop_last().skip(k).push(w.last()) =~= w.skip(k));
    } else {
        assert(w.skip(k) =~= Seq::<char>::empty());
        if w.len() > 0 {
        }
    }
}

fn is_blank_char(c: char) -> (b: bool)
    ensures
        b == is_blank(c),
{
    c == ' ' || c == '\t' || c == '\n' || c == '\r' || c == '\x0B' || c == '\x0C'
}

/// The program that a command line starts: the last path component (after the
/// last `'/'` or `'\\'`) of its first blank-separated word.
pub fn binary_name(command: &str) -> (name: String)
    ensures
        name@ == program_of(command@),
{
    let chars = chars_of(command);
    let mut start: usize = 0;
    while start < chars.len() && is_blank_char(chars[start])
        invariant
            start <= chars@.len(),
            forall|j: int| 0 <= j < start ==> is_blank(#[trigger] chars@[j]),
        decreases chars.len() - start,
    {
        start = start + 1;
    }
    let mut end = start;
    while end < chars.len() && !is_blank_char(chars[end])
        invariant
            start <= end <= chars@.len(),
            forall|j: int| start <= j < end ==> !is_blank(#[trigger] chars@[j]),
        decreases chars.len() - end,
    {
        end = end + 1;
    }
    let mut cut = end;
    while cut > start && !(chars[cut - 1] == '/' || chars[cut - 1] == '\\')
        invariant
            start <= cut <= end,
            end <= chars@.len(),
            forall|j: int| cut <= j < end ==> !(#[trigger] chars@[j] == '/' || chars@[j] == '\\'),
        decreases cut - start,
    {
        cut = cut - 1;
    }
    proof {
        let s = chars@;
        lemma_leading_blanks(s, start as int);
        let rest = s.skip(start as int);
        assert forall|j: int| 0 <= j < end - start implies !is_blank(#[trigger] rest[j]) by {
            assert(rest[j] == s[start + j]);
        }
        lemma_word_len(rest, end - start);
        let w = rest.take(end - start);
        assert(w =~= s.subrange(start as int, end as int));
        assert forall|j: int| cut - start <= j < w.len() implies !(#[trigger] w[j] == '/' || w[j]
            == '\\') by {
            assert(w[j] == s[start + j]);
        }
        lemma_last_component(w, cut - start);
        assert(w.skip(cut - start) =~= s.subrange(cut as int, end as int));
    }
    string_of(chars.as_slice(), cut, end)
}

} // verus!
