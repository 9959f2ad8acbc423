//! Lightweight approximate rendering of in-progress Markdown text: headings,
//! code fences, inline code and bold, without a full Markdown parse.

use vstd::prelude::*;

use crate::chars::{chars_of, push_char, string_of};
use crate::text::{
    find_char_from, index_of, line_key, line_view, lines_from, lines_of, plain_style, raw_spans,
    span_key, Alignment, Color, Line, LineView, Span, SpanView, Style, BOLD,
};

verus! {

/// Bold text in the default colors.
pub open spec fn bold_style() -> Style {
    Style { add_modifier: BOLD, ..plain_style() }
}

/// Bold text in the given foreground color.
pub open spec fn heading_style(c: Color) -> Style {
    Style { fg: Some(c), add_modifier: BOLD, ..plain_style() }
}

/// Text in the given foreground color.
pub open spec fn fg_style(c: Color) -> Style {
    Style { fg: Some(c), ..plain_style() }
}

/// Inline code: cyan on black.
pub open spec fn code_style() -> Style {
    Style { fg: Some(Color::Cyan), bg: Some(Color::Black), ..plain_style() }
}

/// The pending plain text `cur` as a span, if there is any.
pub open spec fn flush(cur: Seq<char>) -> Seq<SpanView> {
    if cur.len() > 0 {
        seq![(cur, plain_style())]
    } else {
        seq![]
    }
}

/// The index of the first `"**"` in `s`, or the length of `s` when there is none.
pub open spec fn double_star_at(s: Seq<char>) -> nat
    decreases s.len(),
{
    if s.len() < 2 {
        s.len()
    } else if s[0] == '*' && s[1] == '*' {
        0
    } else {
        1 + double_star_at(s.drop_first())
    }
}

/// The spans of the rest `rest` of a line, given the plain text `cur` read
/// before it and not yet emitted:
/// - a backtick opens inline code that runs to the next backtick (or the end
///   of the line) and is shown padded with one space on each side;
/// - `"**"` opens bold text that runs to the next `"**"`; without a closing
///   `"**"` the rest of the line is plain text that keeps the opening `"**"`;
/// - any other character is plain text.
pub open spec fn inline_scan(rest: Seq<char>, cur: Seq<char>) -> Seq<SpanView>
    decreases rest.len(),
{
    if rest.len() == 0 {
        flush(cur)
    } else if rest[0] == '`' {
        let body = rest.drop_first();
        let e = index_of(body, '`');
        let code = seq![' '] + body.take(e as int) + seq![' '];
        if e < body.len() {
            flush(cur) + seq![(code, code_style())] + inline_scan(body.skip(e as int + 1), seq![])
        } else {
            flush(cur) + seq![(code, code_style())]
        }
    } else if rest.len() >= 2 && rest[0] == '*' && rest[1] == '*' {
        let body = rest.skip(2);
        let k = double_star_at(body);
        if k + 2 <= body.len() {
            flush(cur) + seq![(body.take(k as int), bold_style())] + inline_scan(
                body.skip(k as int + 2),
                seq![],
            )
        } else {
            flush(cur) + seq![(seq!['*', '*'] + body, plain_style())]
        }
    } else {
        inline_scan(rest.drop_first(), cur.push(rest[0]))
    }
}

/// The spans of a line of in-progress text: those of `inline_scan`, or one
/// empty unstyled span when there are none.
pub open spec fn inline_spans(text: Seq<char>) -> Seq<SpanView> {
    let s = inline_scan(text, seq![]);
    if s.len() == 0 {
        seq![(seq![], plain_style())]
    } else {
        s
    }
}

/// Whether `s` begins with `p`.
pub open spec fn starts_with(s: Seq<char>, p: Seq<char>) -> bool {
    p.len() <= s.len() && s.take(p.len() as int) == p
}

/// A line of one span.
pub open spec fn single(text: Seq<char>, style: Style) -> LineView {
    (plain_style(), None, seq![(text, style)])
}

/// How one line of in-progress text is shown: an empty line has no spans;
/// `"# "`, `"## "` and `"### "` headings lose their marker and are bold in
/// yellow, cyan and blue; a code fence line is dark gray; any other line is
/// made of its inline spans.
pub open spec fn approx_line(t: Seq<char>) -> LineView {
    if t.len() == 0 {
        (plain_style(), None, seq![])
    } else if starts_with(t, seq!['#', ' ']) {
        single(t.skip(2), heading_style(Color::Yellow))
    } else if starts_with(t, seq!['#', '#', ' ']) {
        single(t.skip(3), heading_style(Color::Cyan))
    } else if starts_with(t, seq!['#', '#', '#', ' ']) {
        single(t.skip(4), heading_style(Color::Blue))
    } else if starts_with(t, seq!['`', '`', '`']) {
        single(t, fg_style(Color::DarkGray))
    } else {
        (plain_style(), None, inline_spans(t))
    }
}

/// How in-progress text is shown: one line per line of the text.
pub open spec fn approx_lines(text: Seq<char>) -> Seq<LineView> {
    lines_of(text).map_values(|t: Seq<char>| approx_line(t))
}

/// Whether a `"**"` starts at index `j` of `s`.
pub open spec fn star_pair_at(s: Seq<char>, j: int) -> bool {
    0 <= j && j + 1 < s.len() && s[j] == '*' && s[j + 1] == '*'
}

/// `double_star_at(s)` is `k` when the first `"**"` of `s` starts at `k`, or
/// `k` is the length of `s` and `s` holds no `"**"`.
pub proof fn lemma_double_star_at(s: Seq<char>, k: int)
    requires
        0 <= k <= s.len(),
        forall|j: int| 0 <= j < k ==> !#[trigger] star_pair_at(s, j),
        k < s.len() ==> star_pair_at(s, k),
    ensures
        double_star_at(s) == k,
    decreases k,
{
    if k > 0 {
        if s.len() >= 2 {
            assert(!star_pair_at(s, 0));
            assert forall|j: int| 0 <= j < k - 1 implies !#[trigger] star_pair_at(s.drop_first(), j) by {
                assert(!star_pair_at(s, j + 1));
            }
            lemma_double_star_at(s.drop_first(), k - 1);
        }
    } else if s.len() >= 2 {
    }
}

/// The index of the first `"**"` in `chars[from..]`, counted from `from`, or
/// the length of `chars` when there is none.
fn find_double_star_from(chars: &[char], from: usize) -> (k: usize)
    requires
        from <= chars@.len(),
    ensures
        from <= k <= chars@.len(),
        k - from == double_star_at(chars@.skip(from as int)),
        k < chars@.len() ==> k + 1 < chars@.len(),
{
    let mut k = from;
    while chars.len() - k > 1 && !(chars[k] == '*' && chars[k + 1] == '*')
        invariant
            from <= k <= chars@.len(),
            forall|j: int| from <= j < k ==> !#[trigger] star_pair_at(chars@, j),
        decreases chars.len() - k,
    {
        k = k + 1;
    }
    if chars.len() - k <= 1 {
        k = chars.len();
    }
    proof {
        let rest = chars@.skip(from as int);
        assert forall|j: int| 0 <= j < k - from implies !#[trigger] star_pair_at(rest, j) by {
            assert(!star_pair_at(chars@, j + from));
        }
        if k < chars@.len() {
            assert(star_pair_at(rest, k - from));
        }
        lemma_double_star_at(rest, k - from);
    }
    k
}

/// Emits the pending plain text, if any, as an unstyled span.
fn flush_into(spans: &mut Vec<Span>, cur: &mut String)
    ensures
        keys(final(spans)@) == keys(old(spans)@) + flush(old(cur)@),
        final(cur)@ == Seq::<char>::empty(),
{
    let ghost before = spans@;
    if !cur.as_str().is_empty() {
        let mut text = String::new();
        std::mem::swap(cur, &mut text);
        let span = Span::raw(text);
        spans.push(span);
        assert(keys(spans@) =~= keys(before) + flush(old(cur)@));
    } else {
        assert(keys(spans@) =~= keys(before) + flush(old(cur)@));
    }
}

/// Keys of a list of spans.
pub open spec fn keys(spans: Seq<Span>) -> Seq<SpanView> {
    spans.map_values(|s: Span| span_key(s))
}

/// What remains to be emitted for `t` from position `pos`, after the spans
/// already in `spans`, with the plain text `cur` pending.
pub open spec fn scan_total(t: Seq<char>, pos: int, spans: Seq<Span>, cur: Seq<char>) -> Seq<SpanView> {
    keys(spans) + inline_scan(t.skip(pos), cur)
}

/// Reads inline code that opens at `t[pos]`.
fn scan_code(t: &[char], pos: usize, spans: &mut Vec<Span>, cur: &mut String) -> (next: usize)
    requires
        pos < t.len(),
        t@[pos as int] == '`',
    ensures
        pos < next <= t@.len(),
        scan_total(t@, next as int, final(spans)@, final(cur)@) == scan_total(
            t@,
            pos as int,
            old(spans)@,
            old(cur)@,
        ),
{
    let ghost rest = t@.skip(pos as int);
    let ghost done = keys(spans@);
    let ghost pending = cur@;
    flush_into(spans, cur);
    let e = find_char_from(t, pos + 1, '`');
    let mut code = String::new();
    push_char(&mut code, ' ');
    let mut i = pos + 1;
    while i < e
        invariant
            pos + 1 <= i <= e,
            e <= t@.len(),
            code@ == seq![' '] + t@.subrange(pos + 1, i as int),
        decreases e - i,
    {
        push_char(&mut code, t[i]);
        i = i + 1;
    }
    push_char(&mut code, ' ');
    let ghost mid = spans@;
    spans.push(
        Span::styled(
            code,
            Style {
                fg: Some(Color::Cyan),
                bg: Some(Color::Black),
                underline_color: None,
                add_modifier: 0,
                sub_modifier: 0,
            },
        ),
    );
    let next = if e < t.len() { e + 1 } else { e };
    proof {
        let body = rest.drop_first();
        assert(body =~= t@.skip(pos + 1));
        assert(body.take(e - pos - 1) =~= t@.subrange(pos + 1, e as int));
        assert(code@ =~= seq![' '] + body.take(index_of(body, '`') as int) + seq![' ']);
        assert(keys(spans@) =~= keys(mid).push((code@, code_style())));
        if e < t.len() {
            assert(body.skip(e - pos - 1 + 1) =~= t@.skip(next as int));
            assert(inline_scan(rest, pending) == flush(pending) + seq![(code@, code_style())]
                + inline_scan(t@.skip(next as int), cur@));
        } else {
            assert(t@.skip(next as int) =~= Seq::<char>::empty());
            assert(inline_scan(rest, pending) == flush(pending) + seq![(code@, code_style())]);
            assert(inline_scan(t@.skip(next as int), cur@) =~= Seq::<SpanView>::empty());
        }
        assert(done + inline_scan(rest, pending) =~= keys(spans@) + inline_scan(
            t@.skip(next as int),
            cur@,
        ));
    }
    next
}

/// Reads text that opens with `"**"` at `t[pos]`.
fn scan_bold(t: &[char], pos: usize, spans: &mut Vec<Span>, cur: &mut String) -> (next: usize)
    requires
        pos + 1 < t.len(),
        t@[pos as int] == '*',
        t@[pos + 1] == '*',
    ensures
        pos < next <= t@.len(),
        scan_total(t@, next as int, final(spans)@, final(cur)@) == scan_total(
            t@,
            pos as int,
            old(spans)@,
            old(cur)@,
        ),
{
    let ghost rest = t@.skip(pos as int);
    let ghost done = keys(spans@);
    let ghost pending = cur@;
    flush_into(spans, cur);
    let k = find_double_star_from(t, pos + 2);
    assert(rest.skip(2) =~= t@.skip(pos + 2));
    if k < t.len() {
        let bold = string_of(t, pos + 2, k);
        let ghost mid = spans@;
        spans.push(
            Span::styled(
                bold,
                Style { fg: None, bg: None, underline_color: None, add_modifier: BOLD, sub_modifier: 0 },
            ),
        );
        proof {
            assert(rest.skip(2).take(k - pos - 2) =~= t@.subrange(pos + 2, k as int));
            assert(rest.skip(2).skip(k - pos - 2 + 2) =~= t@.skip(k + 2));
            assert(keys(spans@) =~= keys(mid).push((bold@, bold_style())));
            assert(inline_scan(rest, pending) == flush(pending) + seq![(bold@, bold_style())]
                + inline_scan(t@.skip(k + 2), cur@));
            assert(done + inline_scan(rest, pending) =~= keys(spans@) + inline_scan(
                t@.skip(k + 2),
                cur@,
            ));
        }
        k + 2
    } else {
        push_char(cur, '*');
        push_char(cur, '*');
        let mut i = pos + 2;
        while i < t.len()
            invariant
                pos + 2 <= i <= t@.len(),
                cur@ == seq!['*', '*'] + t@.subrange(pos + 2, i as int),
            decreases t.len() - i,
        {
            push_char(cur, t[i]);
            i = i + 1;
        }
        proof {
            assert(rest.skip(2) =~= t@.subrange(pos + 2, t@.len() as int));
            assert(t@.skip(t@.len() as int) =~= Seq::<char>::empty());
            assert(seq!['*', '*'] + rest.skip(2) =~= cur@);
            assert(inline_scan(rest, pending) == flush(pending) + seq![(cur@, plain_style())]);
            assert(inline_scan(t@.skip(t@.len() as int), cur@) == flush(cur@));
            assert(done + inline_scan(rest, pending) =~= keys(spans@) + inline_scan(
                t@.skip(t@.len() as int),
                cur@,
            ));
        }
        t.len()
    }
}

/// The spans of one line of in-progress text, given as its characters.
fn inline_spans_of(t: &[char]) -> (spans: Vec<Span>)
    ensures
        keys(spans@) == inline_spans(t@),
{
    let mut spans: Vec<Span> = Vec::new();
    let mut cur = String::new();
    let mut pos: usize = 0;
    assert(t@.skip(0) =~= t@);
    assert(keys(spans@) =~= Seq::<SpanView>::empty());
    while pos < t.len()
        invariant
            pos <= t@.len(),
            inline_scan(t@, seq![]) == scan_total(t@, pos as int, spans@, cur@),
        decreases t.len() - pos,
    {
        let c = t[pos];
        if c == '`' {
            pos = scan_code(t, pos, &mut spans, &mut cur);
        } else if c == '*' && pos + 1 < t.len() && t[pos + 1] == '*' {
            pos = scan_bold(t, pos, &mut spans, &mut cur);
        } else {
            let ghost rest = t@.skip(pos as int);
            push_char(&mut cur, c);
            proof {
                assert(rest.drop_first() =~= t@.skip(pos + 1));
            }
            pos = pos + 1;
        }
    }
    proof {
        assert(t@.skip(pos as int) =~= Seq::<char>::empty());
    }
    let ghost before = keys(spans@);
    flush_into(&mut spans, &mut cur);
    assert(keys(spans@) == inline_scan(t@, seq![]));
    if spans.len() == 0 {
        spans.push(Span::raw(String::new()));
        assert(keys(spans@) =~= seq![(Seq::<char>::empty(), plain_style())]);
    }
    spans
}

/// Whether `t` begins with the characters of `p`.
pub(crate) fn has_prefix(t: &[char], p: &[char]) -> (b: bool)
    ensures
        b == starts_with(t@, p@),
{
    if p.len() > t.len() {
        return false;
    }
    let mut i: usize = 0;
    while i < p.len()
        invariant
            p@.len() <= t@.len(),
            i <= p@.len(),
            forall|j: int| 0 <= j < i ==> t@[j] == p@[j],
        decreases p.len() - i,
    {
        if t[i] != p[i] {
            assert(t@.take(p@.len() as int)[i as int] != p@[i as int]);
            return false;
        }
        i = i + 1;
    }
    assert(t@.take(p@.len() as int) =~= p@);
    true
}

/// A heading line: the text after its marker, bold in the given color.
fn heading_line(t: &[char], marker_len: usize, color: Color) -> (line: Line)
    requires
        marker_len <= t@.len(),
    ensures
        line_view(line) == single(t@.skip(marker_len as int), heading_style(color)),
{
    let text = string_of(t, marker_len, t.len());
    assert(t@.subrange(marker_len as int, t@.len() as int) =~= t@.skip(marker_len as int));
    let mut spans: Vec<Span> = Vec::new();
    spans.push(
        Span::styled(
            text,
            Style {
                fg: Some(color),
                bg: None,
                underline_color: None,
                add_modifier: BOLD,
                sub_modifier: 0,
            },
        ),
    );
    let line = Line::from_spans(spans);
    assert(line_key(line) =~= seq![(t@.skip(marker_len as int), heading_style(color))]);
    line
}

/// How one line of in-progress text is shown.
fn approx_line_of(t: &[char]) -> (line: Line)
    ensures
        line_view(line) == approx_line(t@),
{
    if t.len() == 0 {
        let line = Line::raw("");
        proof {
            reveal_strlit("");
            assert(""@ =~= Seq::<char>::empty());
            assert(raw_spans(""@) =~= Seq::<SpanView>::empty());
        }
        return line;
    }
    let h1: [char; 2] = ['#', ' '];
    let h2: [char; 3] = ['#', '#', ' '];
    let h3: [char; 4] = ['#', '#', '#', ' '];
    let fence: [char; 3] = ['`', '`', '`'];
    assert(h1@ =~= seq!['#', ' ']);
    assert(h2@ =~= seq!['#', '#', ' ']);
    assert(h3@ =~= seq!['#', '#', '#', ' ']);
    assert(fence@ =~= seq!['`', '`', '`']);
    if has_prefix(t, h1.as_slice()) {
        heading_line(t, 2, Color::Yellow)
    } else if has_prefix(t, h2.as_slice()) {
        heading_line(t, 3, Color::Cyan)
    } else if has_prefix(t, h3.as_slice()) {
        heading_line(t, 4, Color::Blue)
    } else if has_prefix(t, fence.as_slice()) {
        let text = string_of(t, 0, t.len());
        assert(t@.subrange(0, t@.len() as int) =~= t@);
        let mut spans: Vec<Span> = Vec::new();
        spans.push(
            Span::styled(
                text,
                Style {
                    fg: Some(Color::DarkGray),
                    bg: None,
                    underline_color: None,
                    add_modifier: 0,
                    sub_modifier: 0,
                },
            ),
        );
        let line = Line::from_spans(spans);
        assert(line_key(line) =~= seq![(t@, fg_style(Color::DarkGray))]);
        line
    } else {
        let spans = inline_spans_of(t);
        Line::from_spans(spans)
    }
}

/// The approximate rendering of `chars[from..]`, one line per line of the text.
pub(crate) fn approx_lines_from(chars: &[char], from: usize) -> (lines: Vec<Line>)
    requires
        from <= chars@.len(),
    ensures
        lines@.map_values(|l: Line| line_view(l)) == approx_lines(chars@.skip(from as int)),
{
    let pieces = lines_from(chars, from);
    let ghost texts = pieces@.map_values(|l: Vec<char>| l@);
    let mut lines: Vec<Line> = Vec::new();
    let mut i: usize = 0;
    while i < pieces.len()
        invariant
            i <= pieces@.len(),
            texts == pieces@.map_values(|l: Vec<char>| l@),
            texts == lines_of(chars@.skip(from as int)),
            lines@.map_values(|l: Line| line_view(l)) =~= texts.take(i as int).map_values(
                |t: Seq<char>| approx_line(t),
            ),
        decreases pieces.len() - i,
    {
        let ghost before = lines@;
        let line = approx_line_of(pieces[i].as_slice());
        lines.push(line);
        proof {
            assert(texts[i as int] == pieces@[i as int]@);
            assert(texts.take(i + 1) =~= texts.take(i as int).push(texts[i as int]));
            assert(lines@.map_values(|l: Line| line_view(l)) =~= before.map_values(
                |l: Line| line_view(l),
            ).push(line_view(line)));
        }
        i = i + 1;
    }
    assert(texts.take(pieces@.len() as int) =~= texts);
    lines
}

/// Renders in-progress text approximately, one line per line of the text:
/// headings (`"# "`, `"## "`, `"### "`) lose their marker and are bold in
/// yellow, cyan and blue, code fences are dark gray, empty lines have no
/// spans, and other lines get their inline code and bold styling.
pub fn render_approximate(text: &str) -> (lines: Vec<Line>)
    ensures
        lines@.map_values(|l: Line| line_view(l)) == approx_lines(text@),
{
    let chars = chars_of(text);
    assert(chars@.skip(0) =~= text@);
    approx_lines_from(chars.as_slice(), 0)
}

/// Parses the inline styling of one line of in-progress text: inline code
/// (cyan on black, padded with a space on each side), bold text between
/// `"**"` pairs, and plain text for everything else.
pub fn parse_inline_approximate(text: &str) -> (spans: Vec<Span>)
    ensures
        keys(spans@) == inline_spans(text@),
{
    let chars = chars_of(text);
    inline_spans_of(chars.as_slice())
}

/// Whether `t` holds no inline markup: no backtick and no `"**"`.
pub open spec fn markup_free(t: Seq<char>) -> bool {
    forall|j: int| 0 <= j < t.len() ==> #[trigger] t[j] != '`' && !star_pair_at(t, j)
}

proof fn lemma_scan_markup_free(rest: Seq<char>, cur: Seq<char>)
    requires
        markup_free(rest),
    ensures
        inline_scan(rest, cur) == flush(cur + rest),
    decreases rest.len(),
{
    if rest.len() == 0 {
        assert(cur + rest =~= cur);
    } else {
        assert(rest[0] != '`' && !star_pair_at(rest, 0));
        let tail = rest.drop_first();
        assert forall|j: int| 0 <= j < tail.len() implies #[trigger] tail[j] != '`' && !star_pair_at(
            tail,
            j,
        ) by {
            assert(rest[j + 1] != '`' && !star_pair_at(rest, j + 1));
        }
        lemma_scan_markup_free(tail, cur.push(rest[0]));
        assert(cur.push(rest[0]) + tail =~= cur + rest);
    }
}

/// A line without markup (no heading or fence marker at its start, no
/// backtick, no `"**"`) is shown as itself, in one unstyled span.
pub proof fn law_plain_line_shown_as_is(t: Seq<char>)
    requires
        t.len() > 0,
        markup_free(t),
        !starts_with(t, seq!['#', ' ']),
        !starts_with(t, seq!['#', '#', ' ']),
        !starts_with(t, seq!['#', '#', '#', ' ']),
    ensures
        approx_line(t) == (plain_style(), None::<Alignment>, seq![(t, plain_style())]),
{
    assert(t[0] != '`');
    assert(!starts_with(t, seq!['`', '`', '`'])) by {
        if starts_with(t, seq!['`', '`', '`']) {
            assert(t.take(3)[0] == '`');
        }
    }
    lemma_scan_markup_free(t, seq![]);
    assert(Seq::<char>::empty() + t =~= t);
}

/// Whether `t` holds no backtick.
pub open spec fn backtick_free(t: Seq<char>) -> bool {
    forall|j: int| 0 <= j < t.len() ==> #[trigger] t[j] != '`'
}

/// The text a span stands for: bold text within `"**"` pairs, any other text as is.
pub open spec fn span_source(s: SpanView) -> Seq<char> {
    if s.1 == bold_style() {
        seq!['*', '*'] + s.0 + seq!['*', '*']
    } else {
        s.0
    }
}

/// The text that a list of spans stands for.
pub open spec fn spans_source(spans: Seq<SpanView>) -> Seq<char>
    decreases spans.len(),
{
    if spans.len() == 0 {
        seq![]
    } else {
        span_source(spans[0]) + spans_source(spans.drop_first())
    }
}

proof fn lemma_spans_source_concat(a: Seq<SpanView>, b: Seq<SpanView>)
    ensures
        spans_source(a + b) == spans_source(a) + spans_source(b),
    decreases a.len(),
{
    if a.len() == 0 {
        assert(a + b =~= b);
        assert(spans_source(a) + spans_source(b) =~= spans_source(b));
    } else {
        assert((a + b).drop_first() =~= a.drop_first() + b);
        lemma_spans_source_concat(a.drop_first(), b);
        assert(spans_source(a + b) =~= spans_source(a) + spans_source(b));
    }
}

proof fn lemma_spans_source_single(s: SpanView)
    ensures
        spans_source(seq![s]) == span_source(s),
{
    let one = seq![s];
    assert(one[0] == s);
    assert(one.drop_first() =~= Seq::<SpanView>::empty());
    assert(spans_source(one.drop_first()) =~= Seq::<char>::empty());
    assert(spans_source(one) == span_source(one[0]) + spans_source(one.drop_first()));
    assert(span_source(s) + Seq::<char>::empty() =~= span_source(s));
}

proof fn lemma_double_star_found(s: Seq<char>)
    requires
        double_star_at(s) + 2 <= s.len(),
    ensures
        star_pair_at(s, double_star_at(s) as int),
    decreases s.len(),
{
    if s.len() >= 2 && !(s[0] == '*' && s[1] == '*') {
        lemma_double_star_found(s.drop_first());
    }
}

/// Whether every span is unstyled or bold.
pub open spec fn plain_or_bold(spans: Seq<SpanView>) -> bool {
    forall|i: int| 0 <= i < spans.len() ==> #[trigger] spans[i].1 == plain_style() || spans[i].1
        == bold_style()
}

proof fn lemma_scan_rebuilds(rest: Seq<char>, cur: Seq<char>)
    requires
        backtick_free(rest),
    ensures
        spans_source(inline_scan(rest, cur)) == cur + rest,
        plain_or_bold(inline_scan(rest, cur)),
    decreases rest.len(),
{
    let out = inline_scan(rest, cur);
    assert(bold_style() != plain_style());
    if cur.len() > 0 {
        lemma_spans_source_single((cur, plain_style()));
    } else {
        assert(flush(cur) =~= Seq::<SpanView>::empty());
    }
    assert(spans_source(flush(cur)) == cur);
    if rest.len() == 0 {
        assert(cur + rest =~= cur);
    } else if rest.len() >= 2 && rest[0] == '*' && rest[1] == '*' {
        let body = rest.skip(2);
        let k = double_star_at(body);
        assert(backtick_free(body)) by {
            assert forall|j: int| 0 <= j < body.len() implies #[trigger] body[j] != '`' by {
                assert(body[j] == rest[j + 2]);
            }
        }
        if k + 2 <= body.len() {
            lemma_double_star_found(body);
            let after = body.skip(k as int + 2);
            assert(backtick_free(after)) by {
                assert forall|j: int| 0 <= j < after.len() implies #[trigger] after[j] != '`' by {
                    assert(after[j] == body[j + k + 2]);
                }
            }
            lemma_scan_rebuilds(after, seq![]);
            let b = (body.take(k as int), bold_style());
            lemma_spans_source_single(b);
            lemma_spans_source_concat(flush(cur), seq![b]);
            lemma_spans_source_concat(flush(cur) + seq![b], inline_scan(after, seq![]));
            assert(seq!['*', '*'] + body.take(k as int) + seq!['*', '*'] + after =~= rest);
            assert(Seq::<char>::empty() + after =~= after);
            assert(cur + (seq!['*', '*'] + body.take(k as int) + seq!['*', '*']) + after =~= cur
                + rest);
            let head = flush(cur) + seq![b];
            let tail = inline_scan(after, seq![]);
            assert forall|i: int| 0 <= i < out.len() implies #[trigger] out[i].1 == plain_style()
                || out[i].1 == bold_style() by {
                if i >= head.len() {
                    assert(out[i] == tail[i - head.len()]);
                }
            }
        } else {
            let p = (seq!['*', '*'] + body, plain_style());
            lemma_spans_source_single(p);
            lemma_spans_source_concat(flush(cur), seq![p]);
            assert(seq!['*', '*'] + body =~= rest);
        }
    } else {
        assert(rest[0] != '`');
        let tail = rest.drop_first();
        assert(backtick_free(tail)) by {
            assert forall|j: int| 0 <= j < tail.len() implies #[trigger] tail[j] != '`' by {
                assert(tail[j] == rest[j + 1]);
            }
        }
        lemma_scan_rebuilds(tail, cur.push(rest[0]));
        assert(cur.push(rest[0]) + tail =~= cur + rest);
    }
}

/// Text without backticks is rebuilt exactly from its inline spans, bold
/// spans written back within `"**"` pairs: no character is lost, added or
/// moved, and every span is unstyled or bold.
pub proof fn law_inline_spans_rebuild_text(text: Seq<char>)
    requires
        backtick_free(text),
    ensures
        spans_source(inline_spans(text)) == text,
        plain_or_bold(inline_spans(text)),
{
    lemma_scan_rebuilds(text, seq![]);
    assert(Seq::<char>::empty() + text =~= text);
    if inline_scan(text, seq![]).len() == 0 {
        lemma_spans_source_single((seq![], plain_style()));
        assert(text =~= Seq::<char>::empty());
    }
}

/// Whether `t` holds neither a backtick nor a `'*'`.
pub open spec fn plain_text(t: Seq<char>) -> bool {
    forall|j: int| 0 <= j < t.len() ==> #[trigger] t[j] != '`' && t[j] != '*'
}

proof fn lemma_scan_plain_prefix(p: Seq<char>, r: Seq<char>, cur: Seq<char>)
    requires
        plain_text(p),
    ensures
        inline_scan(p + r, cur) == inline_scan(r, cur + p),
    decreases p.len(),
{
    if p.len() == 0 {
        assert(p + r =~= r);
        assert(cur + p =~= cur);
    } else {
        let pr = p + r;
        assert(pr[0] == p[0]);
        assert(p[0] != '`' && p[0] != '*');
        let tail = p.drop_first();
        assert forall|j: int| 0 <= j < tail.len() implies #[trigger] tail[j] != '`' && tail[j]
            != '*' by {
            assert(p[j + 1] != '`' && p[j + 1] != '*');
        }
        assert(pr.drop_first() =~= tail + r);
        lemma_scan_plain_prefix(tail, r, cur.push(p[0]));
        assert(cur.push(p[0]) + tail =~= cur + p);
    }
}

proof fn lemma_index_of_after_backtick_free(c: Seq<char>, tail: Seq<char>)
    requires
        backtick_free(c),
        tail.len() > 0,
        tail[0] == '`',
    ensures
        index_of(c + tail, '`') == c.len(),
    decreases c.len(),
{
    if c.len() == 0 {
        assert(c + tail =~= tail);
    } else {
        let ct = c + tail;
        assert(ct[0] == c[0]);
        assert(c[0] != '`');
        let rest = c.drop_first();
        assert forall|j: int| 0 <= j < rest.len() implies #[trigger] rest[j] != '`' by {
            assert(c[j + 1] != '`');
        }
        assert(ct.drop_first() =~= rest + tail);
        lemma_index_of_after_backtick_free(rest, tail);
    }
}

/// Scanning starts afresh after a closed inline-code span: plain text `p`,
/// then the code span of `c` between two backticks, then any text `y`, give
/// the plain span of `p`, the code span of `c` (padded with one space on each
/// side), and then exactly the spans that `y` alone gives. So every closed
/// pair of backticks on a line makes a code span of its own.
pub proof fn law_code_span_restarts_scan(p: Seq<char>, c: Seq<char>, y: Seq<char>)
    requires
        plain_text(p),
        backtick_free(c),
    ensures
        inline_scan(p + seq!['`'] + c + seq!['`'] + y, seq![]) == flush(p) + seq![
            (seq![' '] + c + seq![' '], code_style()),
        ] + inline_scan(y, seq![]),
{
    let rest = seq!['`'] + c + seq!['`'] + y;
    assert(p + seq!['`'] + c + seq!['`'] + y =~= p + rest);
    lemma_scan_plain_prefix(p, rest, seq![]);
    assert(Seq::<char>::empty() + p =~= p);
    let body = rest.drop_first();
    let tail = seq!['`'] + y;
    assert(body =~= c + tail);
    lemma_index_of_after_backtick_free(c, tail);
    assert(body.take(c.len() as int) =~= c);
    assert(body.skip(c.len() as int + 1) =~= y);
}

/// Only a line that begins with three backticks is a code fence, and only
/// `"# "`, `"## "` and `"### "` make a heading: any other non-empty line
/// (one beginning with a single backtick included) gets the inline styling
/// of its text, in an unstyled, unaligned line.
pub proof fn law_other_lines_get_inline_styling(t: Seq<char>)
    requires
        t.len() > 0,
        !(t.len() >= 2 && t[0] == '#' && t[1] == ' '),
        !(t.len() >= 3 && t[0] == '#' && t[1] == '#' && t[2] == ' '),
        !(t.len() >= 4 && t[0] == '#' && t[1] == '#' && t[2] == '#' && t[3] == ' '),
        !(t.len() >= 3 && t[0] == '`' && t[1] == '`' && t[2] == '`'),
    ensures
        approx_line(t) == (plain_style(), None::<Alignment>, inline_spans(t)),
{
    assert(!starts_with(t, seq!['#', ' '])) by {
        if starts_with(t, seq!['#', ' ']) {
            assert(t.take(2)[0] == t[0] && t.take(2)[1] == t[1]);
        }
    }
    assert(!starts_with(t, seq!['#', '#', ' '])) by {
        if starts_with(t, seq!['#', '#', ' ']) {
            assert(t.take(3)[0] == t[0] && t.take(3)[1] == t[1] && t.take(3)[2] == t[2]);
        }
    }
    assert(!starts_with(t, seq!['#', '#', '#', ' '])) by {
        if starts_with(t, seq!['#', '#', '#', ' ']) {
            assert(t.take(4)[0] == t[0] && t.take(4)[1] == t[1] && t.take(4)[2] == t[2]
                && t.take(4)[3] == t[3]);
        }
    }
    assert(!starts_with(t, seq!['`', '`', '`'])) by {
        if starts_with(t, seq!['`', '`', '`']) {
            assert(t.take(3)[0] == t[0] && t.take(3)[1] == t[1] && t.take(3)[2] == t[2]);
        }
    }
}

/// A line beginning with three backticks is a code fence: shown whole, in
/// one dark-gray span.
pub proof fn law_fence_line_is_dark_gray(t: Seq<char>)
    requires
        t.len() >= 3,
        t[0] == '`' && t[1] == '`' && t[2] == '`',
    ensures
        approx_line(t) == (plain_style(), None::<Alignment>, seq![(t, fg_style(Color::DarkGray))]),
{
    assert(t.take(3) =~= seq!['`', '`', '`']);
}

proof fn lemma_double_star_after_star_free(b: Seq<char>, tail: Seq<char>)
    requires
        forall|j: int| 0 <= j < b.len() ==> #[trigger] b[j] != '*',
        tail.len() >= 2,
        tail[0] == '*' && tail[1] == '*',
    ensures
        double_star_at(b + tail) == b.len(),
    decreases b.len(),
{
    if b.len() == 0 {
        assert(b + tail =~= tail);
    } else {
        let bt = b + tail;
        assert(bt[0] == b[0]);
        let rest = b.drop_first();
        assert forall|j: int| 0 <= j < rest.len() implies #[trigger] rest[j] != '*' by {
            assert(b[j + 1] != '*');
        }
        assert(bt.drop_first() =~= rest + tail);
        lemma_double_star_after_star_free(rest, tail);
    }
}

/// Scanning starts afresh after closed bold text too: plain text `p`, then
/// `b` between two `"**"`, then any text `y`, give the plain span of `p`, the
/// bold span of `b`, and then exactly the spans that `y` alone gives.
pub proof fn law_bold_span_restarts_scan(p: Seq<char>, b: Seq<char>, y: Seq<char>)
    requires
        plain_text(p),
        forall|j: int| 0 <= j < b.len() ==> #[trigger] b[j] != '*',
    ensures
        inline_scan(p + seq!['*', '*'] + b + seq!['*', '*'] + y, seq![]) == flush(p) + seq![
            (b, bold_style()),
        ] + inline_scan(y, seq![]),
{
    let rest = seq!['*', '*'] + b + seq!['*', '*'] + y;
    assert(p + seq!['*', '*'] + b + seq!['*', '*'] + y =~= p + rest);
    lemma_scan_plain_prefix(p, rest, seq![]);
    assert(Seq::<char>::empty() + p =~= p);
    let body = rest.skip(2);
    let tail = seq!['*', '*'] + y;
    assert(body =~= b + tail);
    lemma_double_star_after_star_free(b, tail);
    assert(body.take(b.len() as int) =~= b);
    assert(body.skip(b.len() as int + 2) =~= y);
}

} // verus!
