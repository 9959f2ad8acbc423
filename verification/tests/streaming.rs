use std::time::Duration;

use leaf_core::approx::render_approximate;
use leaf_core::streaming::{find_last_paragraph_break, RenderJob, RenderPhase, StreamingRenderer};
use leaf_core::text::{find_stable_prefix_len, Line};

/// Stands in for the Markdown renderer, which lives outside the library.
fn render_job(job: &RenderJob) -> Vec<Line> {
    match &job.source {
        Some(source) => render_approximate(source),
        None => Vec::new(),
    }
}

#[test]
fn test_push_and_tick() {
    let mut stream = StreamingRenderer::new(80).with_debounce(Duration::ZERO);

    stream.push("# Hello\n\nworld");
    let job = stream.tick().expect("should render");
    let lines = render_job(&job);
    let update = stream.complete(job, lines);

    assert!(!update.lines.is_empty());
    assert_eq!(update.phase, RenderPhase::FullReparse);
    assert!(!update.finished);
}

#[test]
fn test_debounce_skips_rapid_ticks() {
    let mut stream = StreamingRenderer::new(80).with_debounce(Duration::from_secs(10));

    stream.push("# Hello");
    let first = stream.tick();
    assert!(first.is_some());
    let job = first.unwrap();
    let lines = render_job(&job);
    stream.complete(job, lines);

    stream.push(" world");
    let second = stream.tick();
    assert!(second.is_none(), "should be debounced");
}

#[test]
fn test_force_tick_ignores_debounce() {
    let mut stream = StreamingRenderer::new(80).with_debounce(Duration::from_secs(10));

    stream.push("# Hello");
    if let Some(job) = stream.tick() {
        let lines = render_job(&job);
        stream.complete(job, lines);
    }
    stream.push(" world");

    let job = stream.force_tick();
    let lines = render_job(&job);
    let update = stream.complete(job, lines);
    assert!(!update.lines.is_empty());
}

#[test]
fn test_finish_produces_final() {
    let mut stream = StreamingRenderer::new(80).with_debounce(Duration::ZERO);

    stream.push("# Title\n\nParagraph");
    let job = stream.finish();
    let lines = render_job(&job);
    let update = stream.complete(job, lines);

    assert_eq!(update.phase, RenderPhase::Final);
    assert!(update.finished);
    assert!(!update.lines.is_empty());
}

#[test]
fn test_dual_phase_rendering() {
    let mut stream = StreamingRenderer::new(80)
        .with_dual_phase(true)
        .with_debounce(Duration::ZERO);

    stream.push("# Complete paragraph\n\nThis is done.\n\nPartial tex");
    let job = stream.tick().expect("should render");
    let lines = render_job(&job);
    let update = stream.complete(job, lines);

    assert_eq!(update.phase, RenderPhase::DualPhase);
    assert!(!update.lines.is_empty());
}

#[test]
fn test_reset_clears_state() {
    let mut stream = StreamingRenderer::new(80).with_debounce(Duration::ZERO);

    stream.push("# Hello");
    if let Some(job) = stream.tick() {
        let lines = render_job(&job);
        stream.complete(job, lines);
    }
    stream.reset();

    assert!(stream.is_empty());
    assert!(!stream.is_dirty());
    assert!(!stream.is_finished());
}

#[test]
fn test_no_push_after_finish() {
    let mut stream = StreamingRenderer::new(80).with_debounce(Duration::ZERO);

    stream.push("hello");
    let job = stream.finish();
    let lines = render_job(&job);
    stream.complete(job, lines);
    let len_before = stream.len();

    stream.push("more");
    assert_eq!(stream.len(), len_before, "push after finish is no-op");
}

#[test]
fn test_stable_prefix_detection() {
    let line_a = vec![Line::raw("hello"), Line::raw("world"), Line::raw("changed")];
    let line_b = vec![Line::raw("hello"), Line::raw("world"), Line::raw("different")];
    assert_eq!(find_stable_prefix_len(&line_a, &line_b), 2);
}

#[test]
fn test_approximate_rendering() {
    let lines = render_approximate("# Heading\n\n**bold** and `code`");
    assert!(lines.len() >= 2);
}

#[test]
fn test_paragraph_break_detection() {
    assert_eq!(find_last_paragraph_break("a\n\nb\n\nc"), 6);
    assert_eq!(find_last_paragraph_break("no break"), 0);
    assert_eq!(find_last_paragraph_break("a\n\n"), 3);
}

#[test]
fn dual_phase_commits_complete_paragraphs() {
    let mut stream = StreamingRenderer::new(40)
        .with_dual_phase(true)
        .with_debounce(Duration::ZERO);
    stream.push("# Done\n\nrest **b");
    let job = stream.tick().expect("dirty");
    assert_eq!(job.source.as_deref(), Some("# Done\n\n"));
    assert_eq!(job.commit_to, 8);
    assert_eq!(job.width, 40);
    let lines = render_job(&job);
    let update = stream.complete(job, lines);
    let texts: Vec<String> = update
        .lines
        .iter()
        .map(|l| l.spans.iter().map(|s| s.content.as_str()).collect::<String>())
        .collect();
    assert_eq!(texts, vec!["Done".to_string(), String::new(), "rest **b".to_string()]);

    stream.push("old**\n\nnext");
    let job = stream.tick().expect("dirty");
    assert_eq!(job.source.as_deref(), Some("# Done\n\nrest **bold**\n\n"));
    let lines = render_job(&job);
    let update = stream.complete(job, lines);
    assert_eq!(update.changed_from, 2);
    assert_eq!(update.phase, RenderPhase::DualPhase);
}

#[test]
fn dual_phase_reuses_cached_paragraphs() {
    let mut stream = StreamingRenderer::new(80)
        .with_dual_phase(true)
        .with_debounce(Duration::ZERO);
    stream.push("a\n\nb");
    let job = stream.tick().unwrap();
    let lines = render_job(&job);
    stream.complete(job, lines);
    stream.push("c");
    let job = stream.tick().unwrap();
    assert!(job.source.is_none());
    let update = stream.complete(job, Vec::new());
    assert_eq!(update.lines.len(), 3);
    assert_eq!(update.changed_from, 2);
}

#[test]
fn changed_from_marks_first_different_line() {
    let mut stream = StreamingRenderer::new(80).with_debounce(Duration::ZERO);
    stream.push("one\ntwo\nthree");
    let job = stream.tick().unwrap();
    let lines = render_job(&job);
    assert_eq!(stream.complete(job, lines).changed_from, 0);
    stream.push("!");
    let job = stream.tick().unwrap();
    let lines = render_job(&job);
    let update = stream.complete(job, lines);
    assert_eq!(update.changed_from, 2);
    assert_eq!(update.lines.len(), 3);
}

#[test]
fn forced_render_reports_everything_changed() {
    let mut stream = StreamingRenderer::new(80);
    stream.push("x");
    let job = stream.force_tick();
    assert!(job.forced);
    let lines = render_job(&job);
    assert_eq!(stream.complete(job, lines).changed_from, 0);
    assert!(!stream.is_dirty());
}

#[test]
fn clean_stream_does_not_tick() {
    let mut stream = StreamingRenderer::new(80).with_debounce(Duration::ZERO);
    assert!(stream.tick().is_none());
    stream.push("");
    assert!(!stream.is_dirty());
    assert!(stream.tick().is_none());
}

#[test]
fn width_change_marks_dirty() {
    let mut stream = StreamingRenderer::new(80).with_debounce(Duration::ZERO);
    stream.set_width(80);
    assert!(!stream.is_dirty());
    stream.set_width(100);
    assert!(stream.is_dirty());
    let job = stream.tick().unwrap();
    assert_eq!(job.width, 100);
}

#[test]
fn finished_stream_ignores_tokens_and_ticks() {
    let mut stream = StreamingRenderer::new(80).with_debounce(Duration::ZERO);
    stream.push("text");
    let job = stream.finish();
    assert_eq!(job.phase, RenderPhase::Final);
    assert_eq!(job.source.as_deref(), Some("text"));
    stream.push("more");
    assert_eq!(stream.source(), "text");
    assert!(stream.tick().is_none());
    assert!(stream.is_finished());
}

#[test]
fn push_accumulates_source_and_bytes() {
    let mut stream = StreamingRenderer::new(80);
    stream.push("hé");
    stream.push("llo");
    assert_eq!(stream.source(), "héllo");
    assert_eq!(stream.len(), 6);
    assert!(stream.is_dirty());
    assert!(!stream.is_empty());
}

#[test]
fn paragraph_break_offsets_count_bytes() {
    assert_eq!(find_last_paragraph_break("é\n\nx"), 4);
    assert_eq!(find_last_paragraph_break(""), 0);
    assert_eq!(find_last_paragraph_break("\n\n\n"), 3);
}

#[test]
fn tick_at_applies_the_debounce() {
    let mut stream = StreamingRenderer::new(80).with_debounce(Duration::from_nanos(100));
    stream.push("a");
    let now = std::time::Instant::now();
    let job = stream.tick_at(now, None).expect("first render is not debounced");
    let lines = render_job(&job);
    stream.complete(job, lines);
    stream.push("b");
    assert!(stream.tick_at(now, Some(99)).is_none());
    assert!(stream.is_dirty());
    assert!(stream.tick_at(now, Some(100)).is_some());
    assert!(!stream.is_dirty());
}

#[test]
fn default_debounce_is_150_ms() {
    let mut stream = StreamingRenderer::new(80);
    stream.push("a");
    let now = std::time::Instant::now();
    let job = stream.tick_at(now, None).unwrap();
    let lines = render_job(&job);
    stream.complete(job, lines);
    stream.push("b");
    assert!(stream.tick_at(now, Some(149_999_999)).is_none());
    assert!(stream.tick_at(now, Some(150_000_000)).is_some());
}

#[test]
fn tick_is_a_no_op_after_finish_even_after_width_change() {
    let mut stream = StreamingRenderer::new(80).with_debounce(Duration::ZERO);
    stream.push("text");
    let job = stream.finish();
    let lines = render_job(&job);
    stream.complete(job, lines);
    stream.set_width(40);
    assert!(stream.tick().is_none());
    assert!(stream.is_finished());
}

#[test]
fn forced_render_after_finish_reports_finished() {
    let mut stream = StreamingRenderer::new(80);
    stream.push("text");
    let job = stream.finish();
    let lines = render_job(&job);
    stream.complete(job, lines);
    let job = stream.force_tick();
    let lines = render_job(&job);
    let update = stream.complete(job, lines);
    assert!(update.finished);
    assert_eq!(update.phase, RenderPhase::FullReparse);
}

#[test]
fn finish_leaves_pending_changes_pending() {
    let mut stream = StreamingRenderer::new(80);
    stream.push("text");
    assert!(stream.is_dirty());
    let job = stream.finish();
    assert!(stream.is_dirty());
    let lines = render_job(&job);
    let update = stream.complete(job, lines);
    assert!(update.finished);
    assert!(stream.is_dirty());
    assert!(stream.tick().is_none());
}

#[test]
fn dual_phase_job_overtaken_by_width_change_is_not_cached() {
    let mut stream = StreamingRenderer::new(80)
        .with_dual_phase(true)
        .with_debounce(Duration::ZERO);
    stream.push("para\n\nmore");
    let job = stream.force_tick();
    assert_eq!(job.width, 80);
    assert_eq!(job.source.as_deref(), Some("para\n\n"));
    stream.set_width(40);
    let lines = render_job(&job);
    let update = stream.complete(job, lines);
    assert_eq!(update.lines.len(), render_approximate("para\n\nmore").len());
    let next = stream.tick().expect("the width change is pending");
    assert_eq!(next.width, 40);
    assert_eq!(next.source.as_deref(), Some("para\n\n"));
    assert_eq!(next.commit_to, 6);
}

#[test]
fn dual_phase_job_overtaken_by_reset_is_not_cached() {
    let mut stream = StreamingRenderer::new(80).with_dual_phase(true);
    stream.push("old\n\nx");
    let job = stream.force_tick();
    assert_eq!(job.source.as_deref(), Some("old\n\n"));
    stream.reset();
    stream.push("ab\n\nlonger tail");
    let lines = render_job(&job);
    stream.complete(job, lines);
    let next = stream.force_tick();
    assert_eq!(next.source.as_deref(), Some("ab\n\n"));
    assert_eq!(next.commit_to, 4);
}

#[test]
fn dual_phase_job_survives_later_tokens() {
    let mut stream = StreamingRenderer::new(80).with_dual_phase(true);
    stream.push("# Title\n\nbody");
    let job = stream.force_tick();
    assert_eq!(job.source.as_deref(), Some("# Title\n\n"));
    stream.push(" continues");
    let lines = render_job(&job);
    let cached = lines.len();
    let update = stream.complete(job, lines);
    assert_eq!(
        update.lines.len(),
        cached + render_approximate("body continues").len()
    );
    let next = stream.force_tick();
    assert_eq!(next.source, None);
    assert_eq!(next.commit_to, 9);
}

#[test]
fn job_ending_inside_a_paragraph_is_not_cached() {
    let mut stream = StreamingRenderer::new(80).with_dual_phase(true);
    stream.push("ab\n\ncd");
    let job = RenderJob {
        phase: RenderPhase::DualPhase,
        source: Some("ab\n\nc".to_string()),
        width: 80,
        forced: false,
        commit_to: 5,
    };
    let lines = render_job(&job);
    stream.complete(job, lines);
    let next = stream.force_tick();
    assert_eq!(next.source.as_deref(), Some("ab\n\n"));
    assert_eq!(next.commit_to, 4);
}
