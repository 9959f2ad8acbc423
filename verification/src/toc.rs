//! Table-of-contents normalisation.

use vstd::prelude::*;

verus! {

/// A single table-of-contents entry extracted from a heading.
#[derive(Clone)]
#[non_exhaustive]
pub struct TocEntry {
    /// Heading level (1 for h1, 2 for h2, etc.).
    pub level: u8,
    /// Plain text of the heading.
    pub title: String,
    /// Zero-based line index in the rendered output.
    pub line: usize,
}

impl TocEntry {
    /// Builds an entry from its parts.
    pub fn new(level: u8, title: String, line: usize) -> (entry: TocEntry)
        ensures
            entry.level == level,
            entry.title == title,
            entry.line == line,
    {
        TocEntry { level, title, line }
    }
}

/// Whether some entry of `toc` has heading level `level`.
pub open spec fn has_level(toc: Seq<TocEntry>, level: u8) -> bool {
    exists|i: int| 0 <= i < toc.len() && #[trigger] toc[i].level == level
}

/// The number of entries of `toc` with heading level `level`.
pub open spec fn count_level(toc: Seq<TocEntry>, level: u8) -> nat
    decreases toc.len(),
{
    if toc.len() == 0 {
        0
    } else {
        count_level(toc.drop_last(), level) + if toc.last().level == level { 1nat } else { 0nat }
    }
}

/// A document with exactly one h1 and at least one h2 hides its h1 in the outline.
pub open spec fn hides_single_h1(toc: Seq<TocEntry>) -> bool {
    count_level(toc, 1) == 1 && has_level(toc, 2)
}

/// A document without any h1 but with an h2 shows its h2s at the root.
pub open spec fn promotes_h2(toc: Seq<TocEntry>) -> bool {
    !has_level(toc, 1) && has_level(toc, 2)
}

/// The deepest heading level kept in the outline of `toc`.
pub open spec fn max_kept_level(toc: Seq<TocEntry>) -> u8 {
    if hides_single_h1(toc) || promotes_h2(toc) { 3 } else { 2 }
}

/// Whether the outline keeps an entry of the given level.
pub open spec fn keeps_level(level: u8, max_level: u8) -> bool {
    1 <= level <= max_level
}

/// The entries of `toc` that the outline keeps, in their order.
pub open spec fn kept_entries(toc: Seq<TocEntry>, max_level: u8) -> Seq<TocEntry> {
    toc.filter(|e: TocEntry| keeps_level(e.level, max_level))
}

/// The outline of `toc`.
pub open spec fn normalized(toc: Seq<TocEntry>) -> Seq<TocEntry> {
    kept_entries(toc, max_kept_level(toc))
}

/// The level at which an entry of `level` is displayed.
pub open spec fn display_level(level: u8, hide_single_h1: bool, promote_h2_root: bool) -> u8 {
    if (hide_single_h1 || promote_h2_root) && (level == 2 || level == 3) {
        (level - 1) as u8
    } else {
        level
    }
}

fn count_level_exec(toc: &[TocEntry], level: u8) -> (n: usize)
    ensures
        n == count_level(toc@, level),
{
    let mut n: usize = 0;
    let mut i: usize = 0;
    while i < toc.len()
        invariant
            i <= toc.len(),
            n == count_level(toc@.take(i as int), level),
            n <= i,
        decreases toc.len() - i,
    {
        assert(toc@.take(i + 1).drop_last() =~= toc@.take(i as int));
        if toc[i].level == level {
            n = n + 1;
        }
        i = i + 1;
    }
    assert(toc@.take(toc.len() as int) =~= toc@);
    n
}

fn has_level_exec(toc: &[TocEntry], level: u8) -> (b: bool)
    ensures
        b == has_level(toc@, level),
{
    let mut i: usize = 0;
    while i < toc.len()
        invariant
            i <= toc.len(),
            forall|j: int| 0 <= j < i ==> toc@[j].level != level,
        decreases toc.len() - i,
    {
        if toc[i].level == level {
            return true;
        }
        i = i + 1;
    }
    false
}

/// Whether the outline hides a single h1: there is exactly one h1 and at least one h2.
pub fn should_hide_single_h1(toc: &[TocEntry]) -> (b: bool)
    ensures
        b == hides_single_h1(toc@),
{
    let h1_count = count_level_exec(toc, 1);
    let has_h2 = has_level_exec(toc, 2);
    h1_count == 1 && has_h2
}

/// Whether the outline promotes h2s to the root: there is no h1 and at least one h2.
pub fn should_promote_h2_when_no_h1(toc: &[TocEntry]) -> (b: bool)
    ensures
        b == promotes_h2(toc@),
{
    !has_level_exec(toc, 1) && has_level_exec(toc, 2)
}

/// The level at which a heading is shown: when the single h1 is hidden or the
/// h2s are promoted, h2 and h3 move up one level; every other level is kept.
pub fn toc_display_level(level: u8, hide_single_h1: bool, promote_h2_root: bool) -> (shown: u8)
    ensures
        shown == display_level(level, hide_single_h1, promote_h2_root),
{
    if hide_single_h1 || promote_h2_root {
        match level {
            2 => 1,
            3 => 2,
            _ => level,
        }
    } else {
        level
    }
}

/// Keeps the entries of levels 1 to 3 when the single h1 is hidden or the h2s
/// are promoted, and those of levels 1 and 2 otherwise, in their order.
pub fn normalize_toc(toc: Vec<TocEntry>) -> (out: Vec<TocEntry>)
    ensures
        out@ == normalized(toc@),
{
    let max_level: u8 = if should_hide_single_h1(toc.as_slice()) || should_promote_h2_when_no_h1(
        toc.as_slice(),
    ) {
        3
    } else {
        2
    };
    let ghost all = toc@;
    let mut out: Vec<TocEntry> = Vec::new();
    for entry in it: toc
        invariant
            max_level == max_kept_level(all),
            it.seq() == all,
            out@ == kept_entries(all.take(it.index() as int), max_level),
    {
        proof {
            reveal_with_fuel(Seq::<_>::filter, 1);
        }
        assert(all.take(it.index() + 1).drop_last() =~= all.take(it.index() as int));
        if 1 <= entry.level && entry.level <= max_level {
            out.push(entry);
        }
    }
    assert(all.take(all.len() as int) =~= all);
    out
}

proof fn lemma_count_level_filter(toc: Seq<TocEntry>, level: u8, max_level: u8)
    requires
        keeps_level(level, max_level),
    ensures
        count_level(kept_entries(toc, max_level), level) == count_level(toc, level),
    decreases toc.len(),
{
    reveal_with_fuel(Seq::<_>::filter, 1);
    if toc.len() > 0 {
        lemma_count_level_filter(toc.drop_last(), level, max_level);
        let pred = |e: TocEntry| keeps_level(e.level, max_level);
        let sub = toc.drop_last().filter(pred);
        if pred(toc.last()) {
            assert(toc.filter(pred) == sub.push(toc.last()));
            assert(sub.push(toc.last()).drop_last() =~= sub);
        }
    }
}

proof fn lemma_has_level_last(s: Seq<TocEntry>, level: u8)
    requires
        s.len() > 0,
    ensures
        has_level(s, level) == (has_level(s.drop_last(), level) || s.last().level == level),
{
    if has_level(s, level) {
        let i = choose|i: int| 0 <= i < s.len() && #[trigger] s[i].level == level;
        if i < s.len() - 1 {
            assert(s.drop_last()[i].level == level);
        }
    }
    if has_level(s.drop_last(), level) {
        let i = choose|i: int| 0 <= i < s.drop_last().len() && #[trigger] s.drop_last()[i].level
            == level;
        assert(s[i].level == level);
    }
    if s.last().level == level {
        assert(s[s.len() - 1].level == level);
    }
}

proof fn lemma_has_level_filter(toc: Seq<TocEntry>, level: u8, max_level: u8)
    requires
        keeps_level(level, max_level),
    ensures
        has_level(kept_entries(toc, max_level), level) == has_level(toc, level),
    decreases toc.len(),
{
    reveal_with_fuel(Seq::<_>::filter, 1);
    if toc.len() > 0 {
        lemma_has_level_filter(toc.drop_last(), level, max_level);
        lemma_has_level_last(toc, level);
        let pred = |e: TocEntry| keeps_level(e.level, max_level);
        let sub = toc.drop_last().filter(pred);
        if pred(toc.last()) {
            let out = sub.push(toc.last());
            assert(toc.filter(pred) == out);
            assert(out.drop_last() =~= sub);
            lemma_has_level_last(out, level);
        }
    } else {
        assert(kept_entries(toc, max_level) == toc);
    }
}

proof fn lemma_filter_twice(toc: Seq<TocEntry>, max_level: u8)
    ensures
        kept_entries(kept_entries(toc, max_level), max_level) == kept_entries(toc, max_level),
{
    let pred = |e: TocEntry| keeps_level(e.level, max_level);
    let out = toc.filter(pred);
    assert forall|i: int| 0 <= i < out.len() implies pred(#[trigger] out[i]) by {
        toc.lemma_filter_pred(pred, i);
    }
    lemma_filter_all(out, pred);
}

proof fn lemma_filter_all(s: Seq<TocEntry>, pred: spec_fn(TocEntry) -> bool)
    requires
        forall|i: int| 0 <= i < s.len() ==> pred(#[trigger] s[i]),
    ensures
        s.filter(pred) == s,
    decreases s.len(),
{
    reveal_with_fuel(Seq::<_>::filter, 1);
    if s.len() > 0 {
        lemma_filter_all(s.drop_last(), pred);
        assert(s.drop_last().push(s.last()) =~= s);
    }
}

/// Normalising an outline that is already normalised changes nothing.
pub proof fn law_normalize_idempotent(toc: Seq<TocEntry>)
    ensures
        normalized(normalized(toc)) == normalized(toc),
{
    let m = max_kept_level(toc);
    let out = kept_entries(toc, m);
    lemma_count_level_filter(toc, 1, m);
    lemma_has_level_filter(toc, 1, m);
    lemma_has_level_filter(toc, 2, m);
    assert(max_kept_level(out) == m);
    lemma_filter_twice(toc, m);
}

/// The single h1 is never hidden in an outline that promotes its h2s: hiding
/// needs an h1, promoting needs there be none.
pub proof fn law_hide_and_promote_exclusive(toc: Seq<TocEntry>)
    ensures
        !(hides_single_h1(toc) && promotes_h2(toc)),
{
    if hides_single_h1(toc) {
        lemma_count_positive_has_level(toc, 1);
    }
}

proof fn lemma_count_positive_has_level(toc: Seq<TocEntry>, level: u8)
    requires
        count_level(toc, level) > 0,
    ensures
        has_level(toc, level),
    decreases toc.len(),
{
    if toc.len() > 0 {
        if toc.last().level == level {
            assert(toc[toc.len() - 1].level == level);
        } else {
            lemma_count_positive_has_level(toc.drop_last(), level);
            let i = choose|i: int| 0 <= i < toc.drop_last().len() && #[trigger] toc.drop_last()[i].level
                == level;
            assert(toc[i].level == level);
        }
    }
}

/// Every entry of a normalised outline is displayed at level 1 or 2: the
/// outline never shows more than two levels.
pub proof fn law_outline_shows_two_levels(toc: Seq<TocEntry>, i: int)
    requires
        0 <= i < normalized(toc).len(),
    ensures
        1 <= display_level(normalized(toc)[i].level, hides_single_h1(toc), promotes_h2(toc)) <= 2,
{
    let m = max_kept_level(toc);
    let pred = |e: TocEntry| keeps_level(e.level, m);
    toc.lemma_filter_pred(pred, i);
}

/// Hiding the single h1 and promoting the h2s both move the outline up one
/// level in the same way: whichever of the two applies, an h2 is shown at
/// level 1 and an h3 at level 2. Any other level, and every level when
/// neither applies, is shown as it is.
pub proof fn law_display_level_moves_h2_and_h3_up(level: u8, hide_single_h1: bool, promote_h2_root: bool)
    ensures
        (hide_single_h1 || promote_h2_root) && level == 2 ==> display_level(
            level,
            hide_single_h1,
            promote_h2_root,
        ) == 1,
        (hide_single_h1 || promote_h2_root) && level == 3 ==> display_level(
            level,
            hide_single_h1,
            promote_h2_root,
        ) == 2,
        !(hide_single_h1 || promote_h2_root) ==> display_level(
            level,
            hide_single_h1,
            promote_h2_root,
        ) == level,
        level != 2 && level != 3 ==> display_level(level, hide_single_h1, promote_h2_root)
            == level,
        display_level(level, true, false) == display_level(level, false, true),
{
}

/// The single h1 is hidden only when there is an h2 to show in its place:
/// an outline without an h2 never hides its h1 and keeps exactly its h1 and
/// h2 entries (here: its h1s), while exactly one h1 beside an h2 is always
/// hidden.
pub proof fn law_single_h1_hidden_only_beside_h2(toc: Seq<TocEntry>)
    ensures
        hides_single_h1(toc) ==> has_level(toc, 2),
        !has_level(toc, 2) ==> !hides_single_h1(toc) && max_kept_level(toc) == 2 && normalized(
            toc,
        ) == kept_entries(toc, 2),
        count_level(toc, 1) == 1 && has_level(toc, 2) ==> hides_single_h1(toc),
{
}

} // verus!
