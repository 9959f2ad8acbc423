//! Streaming Markdown rendering for text that arrives token by token.
//!
//! The state machine accumulates tokens, decides when a render is due
//! (debounced full reparse, forced render, or final render), and in
//! dual-phase mode keeps the paragraphs that are complete rendered in full
//! precision while the paragraph in progress is rendered approximately. The
//! full-precision Markdown rendering itself is asked for through a
//! [`RenderJob`] and handed back to [`StreamingRenderer::complete`].

use std::time::{Duration, Instant};
use vstd::prelude::*;
use vstd::string::{StringExecFns, StringSliceAdditionalSpecFns};
use vstd::utf8::{
    encode_scalar, encode_utf8, has_width_1_encoding, has_width_2_encoding, has_width_3_encoding,
};

use crate::approx::{approx_lines, approx_lines_from, has_prefix};
use crate::chars::{chars_of, string_of};
use crate::clock::{duration_nanos, duration_since, elapsed_between, from_millis, instant_now, nanos};
use crate::text::{find_stable_prefix_len, is_stable_prefix, line_view, views, Line, LineView, Span};

verus! {

// ── Paragraph breaks ─────────────────────────────

/// The offset just past the last `"\n\n"` of the bytes `b`, or 0 when there is none.
pub open spec fn last_break_offset(b: Seq<u8>) -> nat
    decreases b.len(),
{
    if b.len() < 2 {
        0
    } else if b[b.len() - 2] == 10 && b[b.len() - 1] == 10 {
        b.len()
    } else {
        last_break_offset(b.drop_last())
    }
}

/// The number of characters of `s` up to and including its last `"\n\n"`, or
/// 0 when there is none: the part of the text made of complete paragraphs.
pub open spec fn paragraph_end(s: Seq<char>) -> nat
    decreases s.len(),
{
    if s.len() < 2 {
        0
    } else if s[s.len() - 2] == '\n' && s[s.len() - 1] == '\n' {
        s.len()
    } else {
        paragraph_end(s.drop_last())
    }
}

/// The byte offset just past the last paragraph break (`"\n\n"`) of `source`,
/// or 0 when there is none: the length in bytes of its complete paragraphs.
pub fn find_last_paragraph_break(source: &str) -> (offset: usize)
    ensures
        offset == last_break_offset(source.spec_bytes()),
        offset == encode_utf8(source@.take(paragraph_end(source@) as int)).len(),
{
    proof {
        law_paragraph_break_offset(source@);
    }
    let bytes = source.as_bytes();
    let mut i = bytes.len();
    assert(bytes@.take(i as int) =~= bytes@);
    while i >= 2 && !(bytes[i - 2] == 10 && bytes[i - 1] == 10)
        invariant
            i <= bytes@.len(),
            last_break_offset(bytes@) == last_break_offset(bytes@.take(i as int)),
        decreases i,
    {
        assert(bytes@.take(i as int).drop_last() =~= bytes@.take(i - 1));
        i = i - 1;
    }
    if i < 2 {
        0
    } else {
        i
    }
}

/// The number of characters of `chars` that make up complete paragraphs.
fn paragraph_end_of(chars: &[char]) -> (n: usize)
    ensures
        n == paragraph_end(chars@),
        n <= chars@.len(),
{
    let mut i = chars.len();
    assert(chars@.take(i as int) =~= chars@);
    while i >= 2 && !(chars[i - 2] == '\n' && chars[i - 1] == '\n')
        invariant
            i <= chars@.len(),
            paragraph_end(chars@) == paragraph_end(chars@.take(i as int)),
        decreases i,
    {
        assert(chars@.take(i as int).drop_last() =~= chars@.take(i - 1));
        i = i - 1;
    }
    if i < 2 {
        0
    } else {
        i
    }
}

// ── Streaming state ──────────────────────────────

/// Which rendering tier produced an update.
#[derive(Debug, Clone, Copy, PartialEq, Eq, Structural)]
#[non_exhaustive]
pub enum RenderPhase {
    /// Full Markdown reparse of the entire buffer.
    FullReparse,
    /// Complete paragraphs in full precision, the paragraph in progress approximate.
    DualPhase,
    /// Final render after the stream ended, always in full precision.
    Final,
}

/// The update that a completed render hands back.
pub struct StreamUpdate<'a> {
    /// All rendered lines (full document).
    pub lines: &'a [Line],
    /// Index of the first line that differs from the previous output; the
    /// lines before it are unchanged. `0` means everything may have changed.
    pub changed_from: usize,
    /// Which rendering tier produced this update.
    pub phase: RenderPhase,
    /// Whether the stream has ended.
    pub finished: bool,
}

/// A full-precision Markdown render that a tick asks for. The caller renders
/// `source` (if any) at `width` with the Markdown renderer and hands the lines
/// back to [`StreamingRenderer::complete`] together with the job.
pub struct RenderJob {
    /// Which rendering tier this job belongs to.
    pub phase: RenderPhase,
    /// The text to render in full precision; `None` when the cached lines of
    /// the complete paragraphs are still current.
    pub source: Option<String>,
    /// The column width to render at.
    pub width: usize,
    /// Whether every line is to be reported as possibly changed.
    pub forced: bool,
    /// In dual-phase mode, the number of characters of the buffer that the
    /// rendered lines cover.
    pub commit_to: usize,
}

/// The plain contents of a render job.
pub struct JobModel {
    pub phase: RenderPhase,
    pub source: Option<Seq<char>>,
    pub width: usize,
    pub forced: bool,
    pub commit_to: nat,
}

/// The plain contents of a render job.
pub open spec fn job_model(j: RenderJob) -> JobModel {
    JobModel {
        phase: j.phase,
        source: match j.source {
            Some(s) => Some(s@),
            None => None,
        },
        width: j.width,
        forced: j.forced,
        commit_to: j.commit_to as nat,
    }
}

/// The state of a stream, as plain values.
pub struct StreamModel {
    /// Render width.
    pub width: usize,
    /// The text accumulated so far.
    pub source: Seq<char>,
    /// Whether there are changes that no render has covered yet.
    pub dirty: bool,
    /// Whether the stream has ended.
    pub finished: bool,
    /// The lines of the latest render.
    pub last_lines: Seq<LineView>,
    /// When the latest debounced or forced render was begun.
    pub last_tick: Option<Instant>,
    /// The least time between two debounced renders.
    pub debounce: Duration,
    /// Whether dual-phase rendering is on.
    pub dual_phase: bool,
    /// How many characters of the text the cached full-precision lines cover.
    pub committed_len: nat,
    /// The cached full-precision lines of the complete paragraphs.
    pub committed_lines: Seq<LineView>,
    /// The text that the cached lines were rendered from.
    pub committed_source: Seq<char>,
    /// The width that the cached lines were rendered at.
    pub committed_width: usize,
}

/// Streaming Markdown renderer for progressive output such as LLM tokens.
pub struct StreamingRenderer {
    width: usize,
    buffer: String,
    dirty: bool,
    finished: bool,
    last_lines: Vec<Line>,
    last_tick: Option<Instant>,
    debounce: Duration,
    dual_phase: bool,
    committed_len: usize,
    committed_lines: Vec<Line>,
    committed_source: Ghost<Seq<char>>,
    committed_width: Ghost<usize>,
}

impl View for StreamingRenderer {
    type V = StreamModel;

    closed spec fn view(&self) -> StreamModel {
        StreamModel {
            width: self.width,
            source: self.buffer@,
            dirty: self.dirty,
            finished: self.finished,
            last_lines: views(self.last_lines@),
            last_tick: self.last_tick,
            debounce: self.debounce,
            dual_phase: self.dual_phase,
            committed_len: self.committed_len as nat,
            committed_lines: views(self.committed_lines@),
            committed_source: self.committed_source@,
            committed_width: self.committed_width@,
        }
    }
}

impl StreamingRenderer {
    /// Every stream keeps the invariant of its model.
    #[verifier::type_invariant]
    spec fn keeps_invariant(self) -> bool {
        stream_invariant(self@)
    }
}

/// Sets the width and the extent of the cache together, so that the stream
/// is never left with one of them updated and not the other.
fn set_cache_extent(
    width: &mut usize,
    committed_len: &mut usize,
    committed_source: &mut Ghost<Seq<char>>,
    committed_width: &mut Ghost<usize>,
    new_width: usize,
    new_len: usize,
    new_source: Ghost<Seq<char>>,
)
    ensures
        *final(width) == new_width,
        *final(committed_len) == new_len,
        *final(committed_source) == new_source,
        final(committed_width)@ == new_width,
    no_unwind
{
    *width = new_width;
    *committed_len = new_len;
    *committed_source = new_source;
    *committed_width = Ghost(new_width);
}

/// The cached complete paragraphs never run past the text.
pub open spec fn well_formed(m: StreamModel) -> bool {
    m.committed_len <= m.source.len()
}

/// The cached lines are those rendered from the text they cover, at the
/// current width.
pub open spec fn cache_current(m: StreamModel) -> bool {
    &&& m.committed_source == m.source.take(m.committed_len as int)
    &&& m.committed_width == m.width
}

/// What holds of every stream: the cache runs neither past the text nor past
/// its complete paragraphs, and it was rendered from the text it covers at
/// the current width.
pub open spec fn stream_invariant(m: StreamModel) -> bool {
    &&& well_formed(m)
    &&& cache_within_paragraphs(m)
    &&& cache_current(m)
}

/// A new stream: empty, clean, not finished, never rendered, full reparse
/// mode, debounce of 150 ms.
pub open spec fn is_fresh(m: StreamModel, width: usize) -> bool {
    &&& m.width == width
    &&& m.source == Seq::<char>::empty()
    &&& !m.dirty
    &&& !m.finished
    &&& m.last_lines == Seq::<LineView>::empty()
    &&& m.last_tick.is_none()
    &&& duration_nanos(m.debounce) == 150_000_000
    &&& !m.dual_phase
    &&& m.committed_len == 0
    &&& m.committed_lines == Seq::<LineView>::empty()
    &&& m.committed_source == Seq::<char>::empty()
    &&& m.committed_width == width
}

/// The stream after `token` arrives: ignored when empty or after the end,
/// otherwise appended and marked dirty.
pub open spec fn pushed(m: StreamModel, token: Seq<char>) -> StreamModel {
    if token.len() == 0 || m.finished {
        m
    } else {
        StreamModel { source: m.source + token, dirty: true, ..m }
    }
}

/// The stream after the render width is set: a new width marks the stream
/// dirty and drops the cached complete paragraphs.
pub open spec fn width_set(m: StreamModel, width: usize) -> StreamModel {
    if m.width != width {
        StreamModel {
            width,
            dirty: true,
            committed_len: 0,
            committed_lines: Seq::<LineView>::empty(),
            committed_source: Seq::<char>::empty(),
            committed_width: width,
            ..m
        }
    } else {
        m
    }
}

/// The stream after a reset: the text, renders and timing are cleared; the
/// width, debounce and mode are kept.
pub open spec fn reset_model(m: StreamModel) -> StreamModel {
    StreamModel {
        source: Seq::<char>::empty(),
        dirty: false,
        finished: false,
        last_lines: Seq::<LineView>::empty(),
        last_tick: None,
        committed_len: 0,
        committed_lines: Seq::<LineView>::empty(),
        committed_source: Seq::<char>::empty(),
        committed_width: m.width,
        ..m
    }
}

impl StreamingRenderer {
    /// A stream that renders at `width` columns, with a 150 ms debounce.
    pub fn new(width: usize) -> (s: StreamingRenderer)
        ensures
            is_fresh(s@, width),
            well_formed(s@),
            cache_current(s@),
            stream_invariant(s@),
    {
        assert(Seq::<char>::empty().take(0) =~= Seq::<char>::empty());
        let s = StreamingRenderer {
            width,
            buffer: String::new(),
            dirty: false,
            finished: false,
            last_lines: Vec::new(),
            last_tick: None,
            debounce: from_millis(150),
            dual_phase: false,
            committed_len: 0,
            committed_lines: Vec::new(),
            committed_source: Ghost(Seq::empty()),
            committed_width: Ghost(width),
        };
        assert(views(s.last_lines@) =~= Seq::<LineView>::empty());
        assert(views(s.committed_lines@) =~= Seq::<LineView>::empty());
        assert(s.buffer@.take(0) =~= Seq::<char>::empty());
        s
    }

    /// Turns dual-phase rendering on or off.
    pub fn with_dual_phase(self, enabled: bool) -> (s: StreamingRenderer)
        ensures
            s@ == (StreamModel { dual_phase: enabled, ..self@ }),
            stream_invariant(s@),
    {
        proof {
            use_type_invariant(&self);
        }
        let mut s = self;
        s.dual_phase = enabled;
        s
    }

    /// Sets the least time between two debounced renders.
    pub fn with_debounce(self, debounce: Duration) -> (s: StreamingRenderer)
        ensures
            s@ == (StreamModel { debounce, ..self@ }),
            stream_invariant(s@),
    {
        proof {
            use_type_invariant(&self);
        }
        let mut s = self;
        s.debounce = debounce;
        s
    }

    /// Sets the render width; a change marks the stream dirty and drops the
    /// cached complete paragraphs.
    pub fn set_width(&mut self, width: usize)
        ensures
            final(self)@ == width_set(old(self)@, width),
            stream_invariant(final(self)@),
    {
        proof {
            use_type_invariant(&*self);
        }
        if self.width != width {
            assert(self.buffer@.take(0) =~= Seq::<char>::empty());
            set_cache_extent(
                &mut self.width,
                &mut self.committed_len,
                &mut self.committed_source,
                &mut self.committed_width,
                width,
                0,
                Ghost(Seq::empty()),
            );
            self.dirty = true;
            self.committed_lines = Vec::new();
            assert(views(self.committed_lines@) =~= Seq::<LineView>::empty());
        }
    }

    /// Appends a token (or chunk of tokens) to the text. Empty tokens, and
    /// tokens that arrive after the stream ended, are ignored.
    pub fn push(&mut self, token: &str)
        ensures
            final(self)@ == pushed(old(self)@, token@),
            stream_invariant(final(self)@),
    {
        proof {
            use_type_invariant(&*self);
        }
        if token.is_empty() || self.finished {
            return;
        }
        // The text is taken out while the token is appended; the cache is
        // marked empty meanwhile so that it never runs past the text.
        let width = self.width;
        let covered = self.committed_len;
        let ghost covered_source = self.committed_source@;
        let ghost before = self.buffer@;
        assert(before.take(0) =~= Seq::<char>::empty());
        set_cache_extent(
            &mut self.width,
            &mut self.committed_len,
            &mut self.committed_source,
            &mut self.committed_width,
            width,
            0,
            Ghost(Seq::empty()),
        );
        let mut text = String::new();
        assert(Seq::<char>::empty().take(0) =~= Seq::<char>::empty());
        std::mem::swap(&mut text, &mut self.buffer);
        text.append(token);
        assert(text@.take(0) =~= Seq::<char>::empty());
        self.buffer = text;
        proof {
            lemma_paragraph_end_append(before, token@);
            assert(self.buffer@.take(covered as int) =~= before.take(covered as int));
        }
        set_cache_extent(
            &mut self.width,
            &mut self.committed_len,
            &mut self.committed_source,
            &mut self.committed_width,
            width,
            covered,
            Ghost(covered_source),
        );
        self.dirty = true;
    }

    /// The text accumulated so far.
    pub fn source(&self) -> (s: &str)
        ensures
            s@ == self@.source,
    {
        self.buffer.as_str()
    }

    /// Whether there are changes that no render has covered yet.
    pub fn is_dirty(&self) -> (b: bool)
        ensures
            b == self@.dirty,
    {
        self.dirty
    }

    /// Whether the stream has ended.
    pub fn is_finished(&self) -> (b: bool)
        ensures
            b == self@.finished,
    {
        self.finished
    }

    /// The number of bytes accumulated so far.
    pub fn len(&self) -> (n: usize)
        ensures
            n == vstd::utf8::encode_utf8(self@.source).len(),
    {
        self.buffer.as_str().as_bytes().len()
    }

    /// Whether no text has been accumulated.
    pub fn is_empty(&self) -> (b: bool)
        ensures
            b == (self@.source.len() == 0),
    {
        self.buffer.as_str().is_empty()
    }

    /// Clears the text, renders and timing for a new stream; the width,
    /// debounce and mode are kept.
    pub fn reset(&mut self)
        ensures
            final(self)@ == reset_model(old(self)@),
            stream_invariant(final(self)@),
    {
        proof {
            use_type_invariant(&*self);
        }
        let width = self.width;
        assert(self.buffer@.take(0) =~= Seq::<char>::empty());
        set_cache_extent(
            &mut self.width,
            &mut self.committed_len,
            &mut self.committed_source,
            &mut self.committed_width,
            width,
            0,
            Ghost(Seq::empty()),
        );
        assert(Seq::<char>::empty().take(0) =~= Seq::<char>::empty());
        self.buffer = String::new();
        self.dirty = false;
        self.finished = false;
        self.last_lines = Vec::new();
        self.last_tick = None;
        self.committed_lines = Vec::new();
        assert(views(self.last_lines@) =~= Seq::<LineView>::empty());
        assert(views(self.committed_lines@) =~= Seq::<LineView>::empty());
    }
}

/// The render that the stream `m` asks for: in dual-phase mode, the complete
/// paragraphs when they reach past the cached ones (and nothing otherwise);
/// else the whole text.
pub open spec fn planned(m: StreamModel, forced: bool) -> JobModel {
    if m.dual_phase {
        let b = paragraph_end(m.source);
        if b > m.committed_len {
            JobModel {
                phase: RenderPhase::DualPhase,
                source: Some(m.source.take(b as int)),
                width: m.width,
                forced,
                commit_to: b,
            }
        } else {
            JobModel {
                phase: RenderPhase::DualPhase,
                source: None,
                width: m.width,
                forced,
                commit_to: m.committed_len,
            }
        }
    } else {
        JobModel {
            phase: RenderPhase::FullReparse,
            source: Some(m.source),
            width: m.width,
            forced,
            commit_to: m.committed_len,
        }
    }
}

/// Whether a tick leaves the stream alone: the stream has ended, nothing
/// changed since the last render, or the last render began less than the
/// debounce time ago.
pub open spec fn waits(m: StreamModel, elapsed: Option<u128>) -> bool {
    ||| m.finished
    ||| !m.dirty
    ||| (m.last_tick is Some && elapsed is Some && elapsed->0 < duration_nanos(m.debounce))
}

/// The stream once a render has begun at `now`: nothing is pending any more.
pub open spec fn begun(m: StreamModel, now: Instant) -> StreamModel {
    StreamModel { dirty: false, last_tick: Some(now), ..m }
}

/// The stream once it has ended: finished, no cached paragraphs. Whether
/// changes are pending is left as it was.
pub open spec fn finishing(m: StreamModel) -> StreamModel {
    StreamModel {
        finished: true,
        committed_len: 0,
        committed_lines: Seq::<LineView>::empty(),
        committed_source: Seq::<char>::empty(),
        committed_width: m.width,
        ..m
    }
}

/// The final render: the whole text, in full precision.
pub open spec fn final_job(m: StreamModel) -> JobModel {
    JobModel {
        phase: RenderPhase::Final,
        source: Some(m.source),
        width: m.width,
        forced: false,
        commit_to: 0,
    }
}

/// Whether the lines rendered for job `j` still fit the stream `m`: the job
/// rendered text, that text is still the beginning of the text of `m`, and
/// it was rendered at the current width.
pub open spec fn job_current(m: StreamModel, j: JobModel) -> bool {
    &&& j.source is Some
    &&& j.commit_to <= m.source.len()
    &&& j.commit_to <= paragraph_end(m.source)
    &&& j.source->0 == m.source.take(j.commit_to as int)
    &&& j.width == m.width
}

/// The stream once the lines `rendered` for job `j` are in. In dual-phase
/// mode the rendered lines become the cached complete paragraphs when they
/// still fit the stream (a job overtaken by a reset or a width change is not
/// cached), and the output is the cached lines followed by the approximate
/// rendering of the rest of the text; otherwise the output is the rendered
/// lines.
pub open spec fn completed(m: StreamModel, j: JobModel, rendered: Seq<LineView>) -> StreamModel {
    if j.phase == RenderPhase::DualPhase {
        let take_new = job_current(m, j);
        let cl = if take_new { j.commit_to } else { m.committed_len };
        let clines = if take_new { rendered } else { m.committed_lines };
        StreamModel {
            committed_len: cl,
            committed_lines: clines,
            committed_source: if take_new { j.source->0 } else { m.committed_source },
            committed_width: if take_new { j.width } else { m.committed_width },
            last_lines: clines + approx_lines(m.source.skip(cl as int)),
            ..m
        }
    } else {
        StreamModel { last_lines: rendered, ..m }
    }
}

/// A copy of a line.
fn copy_line(l: &Line) -> (c: Line)
    ensures
        line_view(c) == line_view(*l),
{
    let mut spans: Vec<Span> = Vec::new();
    let mut i: usize = 0;
    while i < l.spans.len()
        invariant
            i <= l.spans@.len(),
            spans@.map_values(|s: Span| crate::text::span_key(s)) =~= l.spans@.take(
                i as int,
            ).map_values(|s: Span| crate::text::span_key(s)),
        decreases l.spans.len() - i,
    {
        let ghost before = spans@;
        let sp = &l.spans[i];
        let copy = Span { content: sp.content.clone(), style: sp.style };
        spans.push(copy);
        proof {
            assert(l.spans@.take(i + 1) =~= l.spans@.take(i as int).push(l.spans@[i as int]));
            assert(spans@.map_values(|s: Span| crate::text::span_key(s)) =~= before.map_values(
                |s: Span| crate::text::span_key(s),
            ).push(crate::text::span_key(copy)));
        }
        i = i + 1;
    }
    assert(l.spans@.take(l.spans@.len() as int) =~= l.spans@);
    Line { style: l.style, alignment: l.alignment, spans }
}

/// A copy of a list of lines.
fn copy_lines(v: &Vec<Line>) -> (c: Vec<Line>)
    ensures
        views(c@) == views(v@),
{
    let mut c: Vec<Line> = Vec::new();
    let mut i: usize = 0;
    while i < v.len()
        invariant
            i <= v@.len(),
            views(c@) =~= views(v@.take(i as int)),
        decreases v.len() - i,
    {
        let ghost before = c@;
        let line = copy_line(&v[i]);
        c.push(line);
        proof {
            assert(v@.take(i + 1) =~= v@.take(i as int).push(v@[i as int]));
            assert(views(c@) =~= views(before).push(line_view(line)));
        }
        i = i + 1;
    }
    assert(v@.take(v@.len() as int) =~= v@);
    c
}

impl StreamingRenderer {
    /// The render job for the current state.
    fn plan(&self, forced: bool) -> (j: RenderJob)
        ensures
            job_model(j) == planned(self@, forced),
    {
        if self.dual_phase {
            let chars = chars_of(self.buffer.as_str());
            let b = paragraph_end_of(chars.as_slice());
            if b > self.committed_len {
                let prefix = string_of(chars.as_slice(), 0, b);
                assert(chars@.subrange(0, b as int) =~= self.buffer@.take(b as int));
                RenderJob {
                    phase: RenderPhase::DualPhase,
                    source: Some(prefix),
                    width: self.width,
                    forced,
                    commit_to: b,
                }
            } else {
                RenderJob {
                    phase: RenderPhase::DualPhase,
                    source: None,
                    width: self.width,
                    forced,
                    commit_to: self.committed_len,
                }
            }
        } else {
            RenderJob {
                phase: RenderPhase::FullReparse,
                source: Some(self.buffer.clone()),
                width: self.width,
                forced,
                commit_to: self.committed_len,
            }
        }
    }

    /// Decides a tick at the moment `now`, `elapsed` being the time in
    /// nanoseconds since the last render began (as measured at `now`). A render
    /// is due when the stream has not ended, is dirty and, if it was rendered
    /// before, at least the debounce time has passed; the returned job says
    /// what to render.
    pub fn tick_at(&mut self, now: Instant, elapsed: Option<u128>) -> (job: Option<RenderJob>)
        ensures
            waits(old(self)@, elapsed) ==> job is None && final(self)@ == old(self)@,
            stream_invariant(final(self)@),
            !waits(old(self)@, elapsed) ==> job is Some && job_model(job->0) == planned(
                old(self)@,
                false,
            ) && final(self)@ == begun(old(self)@, now),
    {
        proof {
            use_type_invariant(&*self);
        }
        if self.finished || !self.dirty {
            return None;
        }
        if self.last_tick.is_some() {
            if let Some(e) = elapsed {
                if e < nanos(&self.debounce) {
                    return None;
                }
            }
        }
        self.last_tick = Some(now);
        self.dirty = false;
        Some(self.plan(false))
    }

    /// Processes a tick from the event loop. Nothing happens once the stream
    /// has ended, when there are no changes since the last render, or when the
    /// last render began less than the debounce time ago; otherwise a render
    /// begins now and the job says what to render.
    pub fn tick(&mut self) -> (job: Option<RenderJob>)
        ensures
            old(self)@.finished || !old(self)@.dirty ==> job is None && final(self)@ == old(self)@,
            stream_invariant(final(self)@),
            job is None ==> final(self)@ == old(self)@,
            job is None ==> old(self)@.finished || !old(self)@.dirty || (old(self)@.last_tick is Some
                && duration_nanos(old(self)@.debounce) > 0),
            job is Some ==> job_model(job->0) == planned(old(self)@, false)
                && final(self)@.last_tick is Some && final(self)@ == begun(
                old(self)@,
                final(self)@.last_tick->0,
            ),
            job is Some && old(self)@.last_tick is Some ==> duration_nanos(
                elapsed_between(final(self)@.last_tick->0, old(self)@.last_tick->0),
            ) >= duration_nanos(old(self)@.debounce),
            job is None && !old(self)@.finished && old(self)@.dirty ==> old(
                self,
            )@.last_tick is Some && exists|now: Instant|
                duration_nanos(#[trigger] elapsed_between(now, old(self)@.last_tick->0))
                    < duration_nanos(old(self)@.debounce),
    {
        proof {
            use_type_invariant(&*self);
        }
        if self.finished || !self.dirty {
            return None;
        }
        let now = instant_now();
        let elapsed = match &self.last_tick {
            Some(last) => Some(nanos(&duration_since(&now, last))),
            None => None,
        };
        let job = self.tick_at(now, elapsed);
        proof {
            if old(self)@.last_tick is Some {
                assert(elapsed == Some(
                    duration_nanos(elapsed_between(now, old(self)@.last_tick->0)),
                ));
            }
        }
        job
    }

    /// Begins a render now, whatever the debounce; the update will report
    /// every line as possibly changed.
    pub fn force_tick(&mut self) -> (job: RenderJob)
        ensures
            job_model(job) == planned(old(self)@, true),
            final(self)@.last_tick is Some,
            final(self)@ == begun(old(self)@, final(self)@.last_tick->0),
            stream_invariant(final(self)@),
    {
        proof {
            use_type_invariant(&*self);
        }
        self.dirty = false;
        self.last_tick = Some(instant_now());
        self.plan(true)
    }

    /// Ends the stream and asks for the final full-precision render of the
    /// whole text. Afterwards `push` and `tick` do nothing.
    pub fn finish(&mut self) -> (job: RenderJob)
        ensures
            final(self)@ == finishing(old(self)@),
            stream_invariant(final(self)@),
            job_model(job) == final_job(old(self)@),
    {
        proof {
            use_type_invariant(&*self);
        }
        self.finished = true;
        let width = self.width;
        assert(self.buffer@.take(0) =~= Seq::<char>::empty());
        set_cache_extent(
            &mut self.width,
            &mut self.committed_len,
            &mut self.committed_source,
            &mut self.committed_width,
            width,
            0,
            Ghost(Seq::empty()),
        );
        self.committed_lines = Vec::new();
        assert(views(self.committed_lines@) =~= Seq::<LineView>::empty());
        RenderJob {
            phase: RenderPhase::Final,
            source: Some(self.buffer.clone()),
            width: self.width,
            forced: false,
            commit_to: 0,
        }
    }

    /// Takes in the lines rendered for `job` and returns the update: all
    /// lines, the first line that is drawn differently from the previous
    /// output (0 for a forced render), the phase, and whether the stream has
    /// ended. In dual-phase mode the rendered lines are cached only while
    /// they still fit the stream: their text still begins the buffer and the
    /// width has not changed since the job was made.
    pub fn complete(&mut self, job: RenderJob, rendered: Vec<Line>) -> (update: StreamUpdate<'_>)
        ensures
            final(self)@ == completed(old(self)@, job_model(job), views(rendered@)),
            stream_invariant(final(self)@),
            views(update.lines@) == final(self)@.last_lines,
            job.forced ==> update.changed_from == 0,
            !job.forced ==> is_stable_prefix(
                old(self)@.last_lines,
                final(self)@.last_lines,
                update.changed_from as int,
            ),
            update.phase == job.phase,
            update.finished == final(self)@.finished,
    {
        proof {
            use_type_invariant(&*self);
        }
        let mut old_lines: Vec<Line> = Vec::new();
        std::mem::swap(&mut old_lines, &mut self.last_lines);
        if job.phase == RenderPhase::DualPhase {
            let chars = chars_of(self.buffer.as_str());
            let current = match &job.source {
                Some(src) => {
                    let src_chars = chars_of(src.as_str());
                    src_chars.len() == job.commit_to && job.width == self.width
                        && job.commit_to <= paragraph_end_of(chars.as_slice()) && has_prefix(
                        chars.as_slice(),
                        src_chars.as_slice(),
                    )
                },
                None => false,
            };
            if current {
                let ghost src = job.source->0@;
                self.committed_lines = rendered;
                let width = self.width;
                set_cache_extent(
                    &mut self.width,
                    &mut self.committed_len,
                    &mut self.committed_source,
                    &mut self.committed_width,
                    width,
                    job.commit_to,
                    Ghost(src),
                );
            }
            let mut combined = copy_lines(&self.committed_lines);
            let mut tail = approx_lines_from(chars.as_slice(), self.committed_len);
            let ghost head = combined@;
            let ghost tail_lines = tail@;
            combined.append(&mut tail);
            assert(views(combined@) =~= views(head) + views(tail_lines));
            self.last_lines = combined;
        } else {
            self.last_lines = rendered;
        }
        let changed_from = if job.forced {
            0
        } else {
            find_stable_prefix_len(old_lines.as_slice(), self.last_lines.as_slice())
        };
        let finished = self.finished;
        StreamUpdate { lines: self.last_lines.as_slice(), changed_from, phase: job.phase, finished }
    }
}

// ── Laws ─────────────────────────────────────────

proof fn lemma_paragraph_end_bound(s: Seq<char>)
    ensures
        paragraph_end(s) <= s.len(),
    decreases s.len(),
{
    if s.len() >= 2 {
        lemma_paragraph_end_bound(s.drop_last());
    }
}

/// Pushing `a` and then `b` leaves the stream as pushing `a + b` at once:
/// how the text is split into tokens does not matter.
pub proof fn law_push_concatenates(m: StreamModel, a: Seq<char>, b: Seq<char>)
    ensures
        pushed(pushed(m, a), b) == pushed(m, a + b),
{
    if a.len() == 0 {
        assert(a + b =~= b);
    }
    if b.len() == 0 {
        assert(a + b =~= a);
    }
    if a.len() > 0 && b.len() > 0 && !m.finished {
        assert(m.source + a + b =~= m.source + (a + b));
    }
}

/// Once the stream has ended, pushing text changes nothing and a tick does not
/// render, whatever happened in between (a width change, a forced render, a
/// completed render): every operation but `reset` keeps the stream ended.
pub proof fn law_finished_stream_is_inert(
    m: StreamModel,
    token: Seq<char>,
    elapsed: Option<u128>,
    width: usize,
    now: Instant,
    j: JobModel,
    rendered: Seq<LineView>,
)
    requires
        m.finished,
    ensures
        pushed(m, token) == m,
        waits(m, elapsed),
        finishing(m).finished,
        width_set(m, width).finished,
        begun(m, now).finished,
        completed(m, j, rendered).finished,
{
}

/// A reset stream is empty, clean and not finished.
pub proof fn law_reset_clears(m: StreamModel)
    ensures
        reset_model(m).source.len() == 0,
        !reset_model(m).dirty,
        !reset_model(m).finished,
        reset_model(m).last_lines.len() == 0,
{
}

/// In dual-phase mode the output is the cached full-precision lines of the
/// complete paragraphs followed by the approximate rendering of the rest of
/// the text; the cached part never shrinks while the text grows, and when it
/// moves it ends at the last paragraph break.
pub proof fn law_dual_phase_output(m: StreamModel, forced: bool, rendered: Seq<LineView>)
    requires
        well_formed(m),
        m.dual_phase,
    ensures
        ({
            let c = completed(m, planned(m, forced), rendered);
            &&& c.last_lines == c.committed_lines + approx_lines(m.source.skip(c.committed_len as int))
            &&& c.committed_len >= m.committed_len
            &&& c.committed_len == m.committed_len || c.committed_len == paragraph_end(m.source)
        }),
{
    lemma_paragraph_end_bound(m.source);
}

proof fn lemma_paragraph_end_append(s: Seq<char>, t: Seq<char>)
    ensures
        paragraph_end(s + t) >= paragraph_end(s),
    decreases t.len(),
{
    lemma_paragraph_end_bound(s);
    if t.len() > 0 {
        let st = s + t;
        assert(st.drop_last() =~= s + t.drop_last());
        lemma_paragraph_end_append(s, t.drop_last());
    } else {
        assert(s + t =~= s);
    }
}

/// The cached complete paragraphs lie within the complete paragraphs of the text.
pub open spec fn cache_within_paragraphs(m: StreamModel) -> bool {
    m.committed_len <= paragraph_end(m.source)
}

/// In dual-phase mode, a render job asked for by the stream leaves the cache
/// holding exactly the complete paragraphs of the text, rendered from that
/// text at the current width: when the job rendered anything, it rendered
/// `source.take(committed_len)` at the stream's width and those rendered
/// lines are the cache; otherwise the cache already covered them. The output
/// is the cache followed by the approximate rendering of the rest.
pub proof fn law_dual_phase_cache(m: StreamModel, forced: bool, rendered: Seq<LineView>)
    requires
        stream_invariant(m),
        m.dual_phase,
    ensures
        ({
            let j = planned(m, forced);
            let c = completed(m, j, rendered);
            &&& c.committed_len == paragraph_end(m.source)
            &&& c.source == m.source
            &&& j.source is Some ==> j.source == Some(m.source.take(c.committed_len as int))
                && j.width == m.width && c.committed_lines == rendered
            &&& c.committed_source == m.source.take(c.committed_len as int)
            &&& c.committed_width == m.width
            &&& j.source is None ==> c.committed_len == m.committed_len && c.committed_lines
                == m.committed_lines
            &&& c.last_lines == c.committed_lines + approx_lines(m.source.skip(c.committed_len as int))
            &&& cache_within_paragraphs(c)
        }),
{
    lemma_paragraph_end_bound(m.source);
}

/// The stream invariant holds of every stream: a new stream starts with it
/// (see `StreamingRenderer::new`), and every operation keeps it, a completion
/// with any job included. So the cache never runs past the text or its
/// complete paragraphs, and the cached lines are always those rendered from
/// the text they cover, at the current width. A completed job whose text or
/// width no longer fits the stream (one overtaken by a reset or a width
/// change) is not cached.
pub proof fn law_stream_invariant_preserved(
    m: StreamModel,
    token: Seq<char>,
    width: usize,
    now: Instant,
    enabled: bool,
    debounce: Duration,
    j: JobModel,
    rendered: Seq<LineView>,
)
    requires
        stream_invariant(m),
    ensures
        stream_invariant(pushed(m, token)),
        stream_invariant(width_set(m, width)),
        stream_invariant(reset_model(m)),
        stream_invariant(begun(m, now)),
        stream_invariant(finishing(m)),
        stream_invariant(completed(m, j, rendered)),
        stream_invariant(StreamModel { dual_phase: enabled, ..m }),
        stream_invariant(StreamModel { debounce, ..m }),
        !job_current(m, j) ==> completed(m, j, rendered).committed_len == m.committed_len
            && completed(m, j, rendered).committed_lines == m.committed_lines,
{
    assert(m.source.take(0) =~= Seq::<char>::empty());
    assert(Seq::<char>::empty().take(0) =~= Seq::<char>::empty());
    if token.len() > 0 && !m.finished {
        lemma_paragraph_end_append(m.source, token);
        assert((m.source + token).take(m.committed_len as int) =~= m.source.take(
            m.committed_len as int,
        ));
    }
}

/// A dual-phase job stays good while text keeps arriving: completing it after
/// more tokens were pushed still caches the complete paragraphs it rendered,
/// and the output is those lines followed by the approximate rendering of the
/// rest of the (longer) text. After a width change the job is not cached and
/// the cache is empty.
pub proof fn law_dual_phase_job_outlives_pushes(
    m: StreamModel,
    forced: bool,
    token: Seq<char>,
    width: usize,
    rendered: Seq<LineView>,
)
    requires
        stream_invariant(m),
        m.dual_phase,
    ensures
        ({
            let j = planned(m, forced);
            let later = pushed(m, token);
            let c = completed(later, j, rendered);
            &&& c.committed_len == paragraph_end(m.source)
            &&& cache_current(c)
            &&& j.source is Some ==> c.committed_lines == rendered
            &&& c.last_lines == c.committed_lines + approx_lines(
                later.source.skip(c.committed_len as int),
            )
        }),
        m.width != width ==> ({
            let c = completed(width_set(m, width), planned(m, forced), rendered);
            &&& c.committed_len == 0
            &&& c.committed_lines == Seq::<LineView>::empty()
        }),
{
    lemma_paragraph_end_bound(m.source);
    let b = paragraph_end(m.source);
    if token.len() > 0 && !m.finished {
        lemma_paragraph_end_append(m.source, token);
        assert((m.source + token).take(b as int) =~= m.source.take(b as int));
        assert((m.source + token).take(m.committed_len as int) =~= m.source.take(
            m.committed_len as int,
        ));
    }
}

/// Text that arrives leaves the cache and the text it was rendered from alone,
/// and the cache stays within the complete paragraphs; every other operation
/// either keeps the cache or empties it.
pub proof fn law_cache_survives_growth(
    m: StreamModel,
    token: Seq<char>,
    width: usize,
    now: Instant,
)
    requires
        well_formed(m),
        cache_within_paragraphs(m),
    ensures
        pushed(m, token).committed_len == m.committed_len,
        pushed(m, token).committed_lines == m.committed_lines,
        pushed(m, token).source.take(m.committed_len as int) == m.source.take(
            m.committed_len as int,
        ),
        cache_within_paragraphs(pushed(m, token)),
        cache_within_paragraphs(width_set(m, width)),
        cache_within_paragraphs(reset_model(m)),
        cache_within_paragraphs(begun(m, now)),
        cache_within_paragraphs(finishing(m)),
{
    if token.len() > 0 && !m.finished {
        lemma_paragraph_end_append(m.source, token);
        assert((m.source + token).take(m.committed_len as int) =~= m.source.take(
            m.committed_len as int,
        ));
    }
}

/// A second `finish` asks for the same final render as the first (the same
/// text at the same width) and leaves the stream as it was; given the same
/// rendered lines, the output is unchanged and every line is stable.
pub proof fn law_finish_twice(m: StreamModel, rendered: Seq<LineView>)
    ensures
        ({
            let first = completed(finishing(m), final_job(m), rendered);
            let again = finishing(first);
            &&& again == first
            &&& final_job(first) == final_job(m)
            &&& completed(again, final_job(first), rendered) == first
            &&& is_stable_prefix(first.last_lines, first.last_lines, first.last_lines.len() as int)
        }),
{
}

/// Outside dual-phase mode, the output of a render is exactly the rendered lines.
pub proof fn law_full_reparse_output(m: StreamModel, forced: bool, rendered: Seq<LineView>)
    requires
        !m.dual_phase,
    ensures
        completed(m, planned(m, forced), rendered).last_lines == rendered,
        completed(m, final_job(m), rendered).last_lines == rendered,
{
}

proof fn lemma_encode_concat(a: Seq<char>, b: Seq<char>)
    ensures
        encode_utf8(a + b) == encode_utf8(a) + encode_utf8(b),
    decreases a.len(),
{
    if a.len() == 0 {
        assert(a + b =~= b);
        assert(encode_utf8(a) + encode_utf8(b) =~= encode_utf8(b));
    } else {
        assert((a + b).drop_first() =~= a.drop_first() + b);
        lemma_encode_concat(a.drop_first(), b);
        assert(encode_utf8(a + b) =~= encode_utf8(a) + encode_utf8(b));
    }
}

proof fn lemma_encode_last(s: Seq<char>)
    requires
        s.len() > 0,
    ensures
        encode_utf8(s) == encode_utf8(s.drop_last()) + encode_scalar(s.last() as u32),
{
    lemma_encode_concat(s.drop_last(), seq![s.last()]);
    assert(s.drop_last() + seq![s.last()] =~= s);
    let one = seq![s.last()];
    assert(one[0] == s.last());
    assert(one.drop_first() =~= Seq::<char>::empty());
    assert(encode_utf8(one.drop_first()) =~= Seq::<u8>::empty());
    assert(encode_utf8(one) == encode_scalar(s.last() as u32) + encode_utf8(one.drop_first()));
    assert(encode_utf8(one) =~= encode_scalar(s.last() as u32));
}

/// The UTF-8 encoding of a character holds the byte 10 only for `'\n'`,
/// which is that one byte.
proof fn lemma_scalar_newline_byte(c: char)
    ensures
        c == '\n' ==> encode_scalar(c as u32) == seq![10u8],
        c != '\n' ==> forall|i: int|
            0 <= i < encode_scalar(c as u32).len() ==> #[trigger] encode_scalar(c as u32)[i] != 10,
        encode_scalar(c as u32).len() > 0,
{
    vstd::utf8::char_is_scalar(c);
    let v = c as u32;
    if has_width_1_encoding(v) {
        assert(v <= 0x7F ==> (v & 0x7F) as u8 == v) by (bit_vector);
        if c == '\n' {
            assert(encode_scalar(v) =~= seq![10u8]);
        }
    } else if has_width_2_encoding(v) {
        assert(0xC0u8 | ((v >> 6) & 0x1F) as u8 != 10) by (bit_vector);
        assert(0x80u8 | (v & 0x3F) as u8 != 10) by (bit_vector);
    } else if has_width_3_encoding(v) {
        assert(0xE0u8 | ((v >> 12) & 0x0F) as u8 != 10) by (bit_vector);
        assert(0x80u8 | ((v >> 6) & 0x3F) as u8 != 10) by (bit_vector);
        assert(0x80u8 | (v & 0x3F) as u8 != 10) by (bit_vector);
    } else {
        assert(0xF0u8 | ((v >> 18) & 0x7) as u8 != 10) by (bit_vector);
        assert(0x80u8 | ((v >> 12) & 0x3F) as u8 != 10) by (bit_vector);
        assert(0x80u8 | ((v >> 6) & 0x3F) as u8 != 10) by (bit_vector);
        assert(0x80u8 | (v & 0x3F) as u8 != 10) by (bit_vector);
    }
}

/// Bytes without a newline after `x` do not move its last paragraph break.
proof fn lemma_break_offset_no_newline(x: Seq<u8>, y: Seq<u8>)
    requires
        forall|i: int| 0 <= i < y.len() ==> #[trigger] y[i] != 10,
    ensures
        last_break_offset(x + y) == last_break_offset(x),
    decreases y.len(),
{
    if y.len() > 0 {
        let xy = x + y;
        assert(xy[xy.len() - 1] == y[y.len() - 1]);
        assert(xy.drop_last() =~= x + y.drop_last());
        lemma_break_offset_no_newline(x, y.drop_last());
    } else {
        assert(x + y =~= x);
    }
}

/// The byte offset of the last paragraph break of a text's UTF-8 encoding is
/// the encoded length of its complete paragraphs.
pub proof fn law_paragraph_break_offset(s: Seq<char>)
    ensures
        last_break_offset(encode_utf8(s)) == encode_utf8(s.take(paragraph_end(s) as int)).len(),
    decreases s.len(),
{
    if s.len() == 0 {
        assert(s.take(0) =~= s);
    } else {
        let p = s.drop_last();
        let c = s.last();
        lemma_encode_last(s);
        lemma_scalar_newline_byte(c);
        let b = encode_utf8(p);
        let e = encode_scalar(c as u32);
        if s.len() >= 2 && s[s.len() - 2] == '\n' && c == '\n' {
            lemma_encode_last(p);
            lemma_scalar_newline_byte(p.last());
            assert(s.take(s.len() as int) =~= s);
            let bs = encode_utf8(s);
            assert(bs[bs.len() - 1] == 10);
            assert(bs[bs.len() - 2] == 10);
        } else {
            law_paragraph_break_offset(p);
            lemma_paragraph_end_bound(p);
            if s.len() >= 2 {
                assert(paragraph_end(s) == paragraph_end(p));
            } else {
                assert(p.len() == 0);
                assert(paragraph_end(p) == 0);
            }
            assert(s.take(paragraph_end(p) as int) =~= p.take(paragraph_end(p) as int));
            if c == '\n' {
                // The byte before the final newline is not a newline.
                if p.len() > 0 {
                    lemma_encode_last(p);
                    lemma_scalar_newline_byte(p.last());
                    let pe = encode_scalar(p.last() as u32);
                    assert(b[b.len() - 1] == pe[pe.len() - 1]);
                    assert(b[b.len() - 1] != 10);
                }
                let be = b + e;
                assert(be.drop_last() =~= b);
            } else {
                lemma_break_offset_no_newline(b, e);
            }
        }
    }
}

} // verus!
