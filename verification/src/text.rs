//! Styled terminal text as plain values: colors, styles, spans and lines,
//! with the line comparison that finds the stable prefix of two renders.

use vstd::prelude::*;

use crate::chars::{chars_of, string_of};

verus! {

/// A terminal color.
#[derive(Clone, Copy, PartialEq, Eq, Structural, Debug)]
pub enum Color {
    Reset,
    Black,
    Red,
    Green,
    Yellow,
    Blue,
    Magenta,
    Cyan,
    Gray,
    DarkGray,
    LightRed,
    LightGreen,
    LightYellow,
    LightBlue,
    LightMagenta,
    LightCyan,
    White,
    Rgb(u8, u8, u8),
    Indexed(u8),
}

/// Bold text.
pub const BOLD: u16 = 1;

/// Horizontal alignment of a line.
#[derive(Clone, Copy, PartialEq, Eq, Structural, Debug)]
pub enum Alignment {
    Left,
    Center,
    Right,
}

/// How a span of text is drawn: colors, and the modifier bits that it adds
/// and removes.
#[derive(Clone, Copy, PartialEq, Eq, Structural, Debug)]
pub struct Style {
    pub fg: Option<Color>,
    pub bg: Option<Color>,
    pub underline_color: Option<Color>,
    pub add_modifier: u16,
    pub sub_modifier: u16,
}

/// The style that changes nothing.
pub open spec fn plain_style() -> Style {
    Style { fg: None, bg: None, underline_color: None, add_modifier: 0, sub_modifier: 0 }
}

impl Style {
    /// The style that changes nothing.
    pub fn new() -> (s: Style)
        ensures
            s == plain_style(),
    {
        Style { fg: None, bg: None, underline_color: None, add_modifier: 0, sub_modifier: 0 }
    }
}

/// A piece of text drawn in one style.
pub struct Span {
    pub content: String,
    pub style: Style,
}

/// A line of spans, with its own style and alignment.
pub struct Line {
    pub style: Style,
    pub alignment: Option<Alignment>,
    pub spans: Vec<Span>,
}

/// Text and style of a span, as plain values.
pub type SpanView = (Seq<char>, Style);

/// The style, alignment and spans of a line, as plain values.
pub type LineView = (Style, Option<Alignment>, Seq<SpanView>);

/// The text and style of a span.
pub open spec fn span_key(s: Span) -> SpanView {
    (s.content@, s.style)
}

/// The text and style of every span of a line, in order.
pub open spec fn line_key(l: Line) -> Seq<SpanView> {
    l.spans@.map_values(|s: Span| span_key(s))
}

/// Everything a line draws: its style, its alignment and its spans.
pub open spec fn line_view(l: Line) -> LineView {
    (l.style, l.alignment, line_key(l))
}

/// The views of a list of lines.
pub open spec fn views(lines: Seq<Line>) -> Seq<LineView> {
    lines.map_values(|l: Line| line_view(l))
}

/// `n` is the number of leading positions at which two renders agree: the
/// lines before `n` are drawn the same (style, alignment and spans), and the
/// line at `n` (if both renders have one) differs.
pub open spec fn is_stable_prefix(old: Seq<LineView>, new: Seq<LineView>, n: int) -> bool {
    &&& 0 <= n <= old.len()
    &&& n <= new.len()
    &&& forall|i: int| 0 <= i < n ==> #[trigger] old[i] == new[i]
    &&& (n < old.len() && n < new.len()) ==> old[n] != new[n]
}

/// The index of the first `c` in `s`, or the length of `s` when there is none.
pub open spec fn index_of(s: Seq<char>, c: char) -> nat
    decreases s.len(),
{
    if s.len() == 0 {
        0
    } else if s[0] == c {
        0
    } else {
        1 + index_of(s.drop_first(), c)
    }
}

/// `t` without one trailing carriage return.
pub open spec fn strip_cr(t: Seq<char>) -> Seq<char> {
    if t.len() > 0 && t.last() == '\r' {
        t.drop_last()
    } else {
        t
    }
}

/// The lines of `s`: split at each `'\n'`, one `'\r'` before a `'\n'` removed,
/// and no empty line after a final `'\n'` (the lines of `str::lines`).
pub open spec fn lines_of(s: Seq<char>) -> Seq<Seq<char>>
    decreases s.len(),
{
    if s.len() == 0 {
        seq![]
    } else {
        let e = index_of(s, '\n');
        if e >= s.len() {
            seq![s]
        } else {
            seq![strip_cr(s.take(e as int))] + lines_of(s.skip(e as int + 1))
        }
    }
}

/// `index_of(s, c)` is `k` when `s[k]` is the first `c`, or `k` is the length
/// of `s` and no `c` occurs.
proof fn lemma_index_of(s: Seq<char>, c: char, k: int)
    requires
        0 <= k <= s.len(),
        forall|j: int| 0 <= j < k ==> s[j] != c,
        k < s.len() ==> s[k] == c,
    ensures
        index_of(s, c) == k,
    decreases k,
{
    if k > 0 {
        lemma_index_of(s.drop_first(), c, k - 1);
    }
}

/// The index of the first `c` in `chars[from..]`, counted from `from`, or the
/// length of `chars` when there is none.
pub(crate) fn find_char_from(chars: &[char], from: usize, c: char) -> (k: usize)
    requires
        from <= chars@.len(),
    ensures
        from <= k <= chars@.len(),
        k - from == index_of(chars@.skip(from as int), c),
{
    let mut k = from;
    while k < chars.len() && chars[k] != c
        invariant
            from <= k <= chars@.len(),
            forall|j: int| from <= j < k ==> chars@[j] != c,
        decreases chars.len() - k,
    {
        k = k + 1;
    }
    proof {
        lemma_index_of(chars@.skip(from as int), c, k - from);
    }
    k
}

/// The lines of `chars[from..]`, each as its own characters.
pub(crate) fn lines_from(chars: &[char], from: usize) -> (lines: Vec<Vec<char>>)
    requires
        from <= chars@.len(),
    ensures
        lines@.map_values(|l: Vec<char>| l@) == lines_of(chars@.skip(from as int)),
{
    let mut lines: Vec<Vec<char>> = Vec::new();
    let mut pos = from;
    while pos < chars.len()
        invariant
            from <= pos <= chars@.len(),
            lines_of(chars@.skip(from as int)) == lines@.map_values(|l: Vec<char>| l@) + lines_of(
                chars@.skip(pos as int),
            ),
        decreases chars.len() - pos,
    {
        let ghost rest = chars@.skip(pos as int);
        let e = find_char_from(chars, pos, '\n');
        let mut end = e;
        if e < chars.len() && e > pos && chars[e - 1] == '\r' {
            end = e - 1;
        }
        let mut line: Vec<char> = Vec::new();
        let mut i = pos;
        while i < end
            invariant
                pos <= i <= end,
                end <= chars@.len(),
                line@ == chars@.subrange(pos as int, i as int),
            decreases end - i,
        {
            line.push(chars[i]);
            i = i + 1;
        }
        proof {
            if e < chars.len() {
                assert(chars@.skip(e + 1) =~= rest.skip(e - pos + 1));
                assert(strip_cr(rest.take(e - pos)) =~= chars@.subrange(pos as int, end as int));
            } else {
                assert(rest =~= chars@.subrange(pos as int, end as int));
                assert(chars@.skip(chars@.len() as int) =~= Seq::<char>::empty());
            }
        }
        let ghost before = lines@;
        lines.push(line);
        proof {
            assert(lines@.map_values(|l: Vec<char>| l@) =~= before.map_values(|l: Vec<char>| l@).push(line@));
        }
        pos = if e < chars.len() { e + 1 } else { e };
    }
    proof {
        assert(chars@.skip(pos as int) =~= Seq::<char>::empty());
        assert(lines@.map_values(|l: Vec<char>| l@) + Seq::<Seq<char>>::empty() =~= lines@.map_values(|l: Vec<char>| l@));
    }
    lines
}

/// The spans of `Line::raw(content)`: one unstyled span per line of `content`.
pub open spec fn raw_spans(content: Seq<char>) -> Seq<(Seq<char>, Style)> {
    lines_of(content).map_values(|l: Seq<char>| (l, plain_style()))
}

impl Span {
    /// A span of `content` in the style that changes nothing.
    pub fn raw(content: String) -> (s: Span)
        ensures
            s.content == content,
            s.style == plain_style(),
    {
        Span { content, style: Style::new() }
    }

    /// A span of `content` drawn in `style`.
    pub fn styled(content: String, style: Style) -> (s: Span)
        ensures
            s.content == content,
            s.style == style,
    {
        Span { content, style }
    }
}

impl Line {
    /// An unstyled, unaligned line made of the given spans.
    pub fn from_spans(spans: Vec<Span>) -> (l: Line)
        ensures
            l.style == plain_style(),
            l.alignment.is_none(),
            l.spans == spans,
    {
        Line { style: Style::new(), alignment: None, spans }
    }

    /// An unstyled, unaligned line holding one unstyled span per line of
    /// `content` (so the empty string gives a line without spans).
    pub fn raw(content: &str) -> (l: Line)
        ensures
            l.style == plain_style(),
            l.alignment.is_none(),
            line_key(l) == raw_spans(content@),
    {
        let chars = chars_of(content);
        let pieces = lines_from(chars.as_slice(), 0);
        let mut spans: Vec<Span> = Vec::new();
        let mut i: usize = 0;
        while i < pieces.len()
            invariant
                i <= pieces@.len(),
                pieces@.map_values(|l: Vec<char>| l@) == lines_of(chars@.skip(0)),
                spans@.map_values(|s: Span| span_key(s)) =~= pieces@.take(i as int).map_values(
                    |l: Vec<char>| (l@, plain_style()),
                ),
            decreases pieces.len() - i,
        {
            let piece = &pieces[i];
            let text = string_of(piece.as_slice(), 0, piece.len());
            proof {
                assert(piece@.subrange(0, piece@.len() as int) =~= piece@);
            }
            let ghost before = spans@;
            let span = Span::raw(text);
            assert(span_key(span) == (piece@, plain_style()));
            spans.push(span);
            proof {
                assert(pieces@.take(i + 1) =~= pieces@.take(i as int).push(pieces@[i as int]));
                assert(spans@.map_values(|s: Span| span_key(s)) =~= before.map_values(
                    |s: Span| span_key(s),
                ).push(span_key(span)));
                assert(pieces@.take(i + 1).map_values(|l: Vec<char>| (l@, plain_style()))
                    =~= pieces@.take(i as int).map_values(|l: Vec<char>| (l@, plain_style())).push(
                    (piece@, plain_style()),
                ));
            }
            i = i + 1;
        }
        proof {
            assert(chars@.skip(0) =~= chars@);
            assert(pieces@.take(pieces@.len() as int) =~= pieces@);
            let target = pieces@.map_values(|l: Vec<char>| (l@, plain_style()));
            let texts = pieces@.map_values(|l: Vec<char>| l@);
            assert forall|j: int| 0 <= j < pieces@.len() implies #[trigger] target[j] == raw_spans(
                content@,
            )[j] by {
                assert(texts[j] == pieces@[j]@);
            }
            assert(pieces@.map_values(|l: Vec<char>| (l@, plain_style())) =~= raw_spans(content@));
        }
        Line::from_spans(spans)
    }
}

/// Whether two lines are drawn the same: same line style, same alignment,
/// and the same spans in the same styles.
pub fn lines_equal(a: &Line, b: &Line) -> (eq: bool)
    ensures
        eq == (line_view(*a) == line_view(*b)),
{
    if a.style != b.style || a.alignment != b.alignment {
        return false;
    }
    if a.spans.len() != b.spans.len() {
        proof {
            assert(line_key(*a).len() != line_key(*b).len());
        }
        return false;
    }
    let n = a.spans.len();
    let mut i: usize = 0;
    while i < n
        invariant
            n == a.spans.len(),
            n == b.spans.len(),
            i <= n,
            forall|j: int| 0 <= j < i ==> span_key(#[trigger] a.spans@[j]) == span_key(b.spans@[j]),
        decreases n - i,
    {
        let sa = &a.spans[i];
        let sb = &b.spans[i];
        if !(sa.content == sb.content && sa.style == sb.style) {
            proof {
                assert(line_key(*a)[i as int] != line_key(*b)[i as int]);
            }
            return false;
        }
        i = i + 1;
    }
    assert(line_key(*a) =~= line_key(*b));
    true
}

/// The index of the first line at which `old` and `new` are drawn differently
/// (style, alignment or spans), or the length of the shorter one when one is a prefix of the other.
pub fn find_stable_prefix_len(old: &[Line], new: &[Line]) -> (n: usize)
    ensures
        is_stable_prefix(views(old@), views(new@), n as int),
{
    let ghost ok = views(old@);
    let ghost nk = views(new@);
    let mut i: usize = 0;
    while i < old.len() && i < new.len()
        invariant
            i <= old.len(),
            i <= new.len(),
            ok == views(old@),
            nk == views(new@),
            forall|j: int| 0 <= j < i ==> #[trigger] ok[j] == nk[j],
        decreases old.len() - i,
    {
        if !lines_equal(&old[i], &new[i]) {
            return i;
        }
        i = i + 1;
    }
    i
}

/// A render compared with itself is stable throughout.
pub proof fn law_stable_prefix_of_itself(lines: Seq<LineView>, n: int)
    requires
        is_stable_prefix(lines, lines, n),
    ensures
        n == lines.len(),
{
}

/// The stable prefix of two renders does not depend on which one is the older.
pub proof fn law_stable_prefix_symmetric(
    old: Seq<LineView>,
    new: Seq<LineView>,
    n: int,
)
    requires
        is_stable_prefix(old, new, n),
    ensures
        is_stable_prefix(new, old, n),
{
}

/// Two renders have exactly one stable prefix length.
pub proof fn law_stable_prefix_unique(
    old: Seq<LineView>,
    new: Seq<LineView>,
    n: int,
    m: int,
)
    requires
        is_stable_prefix(old, new, n),
        is_stable_prefix(old, new, m),
    ensures
        n == m,
{
    if n < m {
        assert(old[n] == new[n]);
    } else if m < n {
        assert(old[m] == new[m]);
    }
}

} // verus!
