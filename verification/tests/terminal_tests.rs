use clever_logs::classify::EmphasisStyle;
use clever_logs::terminal::{render_plan, TermColor, TermOp};

#[derive(Debug, PartialEq, Eq, Clone, Copy)]
struct Attrs {
    foreground: Option<TermColor>,
    bold: bool,
}

const DEFAULT: Attrs = Attrs { foreground: None, bold: false };

/// Interprets a plan the way an interpreter must: attribute operations
/// change state, writes may fail after `fail_after` writes, and the final
/// reset runs whatever happened before.
fn run_plan(ops: &[TermOp], start: Attrs, fail_after: usize) -> (Attrs, Vec<String>) {
    let mut attrs = start;
    let mut written = Vec::new();
    let mut failed = false;
    for op in ops {
        if failed {
            // After a failure the interpreter skips ahead, but still runs
            // every reset, as the library's restoration contract demands.
            if let TermOp::Reset = op {
                attrs = DEFAULT;
            }
            continue;
        }
        match op {
            TermOp::SetForeground { color } => attrs.foreground = Some(*color),
            TermOp::SetBold => attrs.bold = true,
            TermOp::WriteLine { text } => {
                if written.len() >= fail_after {
                    failed = true;
                } else {
                    written.push(text.clone());
                }
            }
            TermOp::Reset => attrs = DEFAULT,
        }
    }
    (attrs, written)
}

#[test]
fn success_plan_sets_green_bold_then_writes_then_resets() {
    let ops = render_plan("T1: ok".to_string(), EmphasisStyle::Success);
    assert_eq!(
        ops,
        vec![
            TermOp::SetForeground { color: TermColor::Green },
            TermOp::SetBold,
            TermOp::WriteLine { text: "T1: ok".to_string() },
            TermOp::Reset,
        ]
    );
}

#[test]
fn plain_plan_writes_without_styling() {
    let ops = render_plan("line".to_string(), EmphasisStyle::Plain);
    assert_eq!(
        ops,
        vec![TermOp::WriteLine { text: "line".to_string() }, TermOp::Reset]
    );
}

#[test]
fn failure_and_build_styles_pick_their_colors() {
    let failure = render_plan("x".to_string(), EmphasisStyle::Failure);
    assert_eq!(failure[0], TermOp::SetForeground { color: TermColor::Red });
    let build = render_plan("x".to_string(), EmphasisStyle::BuildSuccess);
    assert_eq!(build[0], TermOp::SetForeground { color: TermColor::Blue });
}

#[test]
fn every_plan_ends_with_reset() {
    for style in [
        EmphasisStyle::Plain,
        EmphasisStyle::Success,
        EmphasisStyle::Failure,
        EmphasisStyle::BuildSuccess,
    ] {
        let ops = render_plan("t".to_string(), style);
        assert_eq!(ops.last(), Some(&TermOp::Reset));
    }
}

#[test]
fn styling_never_leaks_into_the_next_write() {
    let styled = render_plan("styled".to_string(), EmphasisStyle::Failure);
    let (attrs, written) = run_plan(&styled, DEFAULT, usize::MAX);
    assert_eq!(written, vec!["styled"]);
    assert_eq!(attrs, DEFAULT);

    // The next plain write starts from the default attributes.
    let plain = render_plan("plain".to_string(), EmphasisStyle::Plain);
    let (attrs, written) = run_plan(&plain, attrs, usize::MAX);
    assert_eq!(written, vec!["plain"]);
    assert_eq!(attrs, DEFAULT);
}

#[test]
fn restoration_happens_even_when_the_styled_write_fails() {
    let styled = render_plan("styled".to_string(), EmphasisStyle::Success);
    let (attrs, written) = run_plan(&styled, DEFAULT, 0);
    assert_eq!(written, Vec::<String>::new());
    assert_eq!(attrs, DEFAULT);
}
