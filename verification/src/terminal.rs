//! Scoped terminal styling: a render plan for one output line.
//!
//! A styled write is modeled as a short plan of terminal operations whose
//! last operation always restores the default attributes.  An interpreter
//! must run the final reset on every exit path, including after a failed
//! write; the lemmas below show that doing so always leaves the terminal
//! in its default state.

use vstd::prelude::*;

use crate::classify::EmphasisStyle;

verus! {

/// A foreground color used by the emphasis styles.
#[derive(Debug, PartialEq, Eq, Structural, Clone, Copy)]
pub enum TermColor {
    Green,
    Red,
    Blue,
}

/// One terminal operation of a render plan.
#[derive(Debug, PartialEq, Eq)]
pub enum TermOp {
    SetForeground { color: TermColor },
    SetBold,
    WriteLine { text: String },
    Reset,
}

/// Mathematical model of a terminal operation.
pub enum TermOpModel {
    SetForeground { color: TermColor },
    SetBold,
    WriteLine { text: Seq<char> },
    Reset,
}

impl View for TermOp {
    type V = TermOpModel;

    open spec fn view(&self) -> TermOpModel {
        match self {
            TermOp::SetForeground { color } => TermOpModel::SetForeground { color: *color },
            TermOp::SetBold => TermOpModel::SetBold,
            TermOp::WriteLine { text } => TermOpModel::WriteLine { text: text@ },
            TermOp::Reset => TermOpModel::Reset,
        }
    }
}

/// The terminal's attribute state: the foreground color and boldness in
/// effect.
pub struct TermAttrs {
    pub foreground: Option<TermColor>,
    pub bold: bool,
}

/// The default attribute state: no color, no boldness.
pub open spec fn default_attrs() -> TermAttrs {
    TermAttrs { foreground: Option::None, bold: false }
}

/// The attribute state after one operation.  A write leaves the
/// attributes alone; a reset restores the default unconditionally.
pub open spec fn apply_op(a: TermAttrs, op: TermOpModel) -> TermAttrs {
    match op {
        TermOpModel::SetForeground { color } => TermAttrs {
            foreground: Option::Some(color),
            bold: a.bold,
        },
        TermOpModel::SetBold => TermAttrs { foreground: a.foreground, bold: true },
        TermOpModel::WriteLine { text: _ } => a,
        TermOpModel::Reset => default_attrs(),
    }
}

/// The attribute state after a sequence of operations.
pub open spec fn apply_ops(a: TermAttrs, ops: Seq<TermOpModel>) -> TermAttrs
    decreases ops.len(),
{
    if ops.len() == 0 {
        a
    } else {
        apply_ops(apply_op(a, ops[0]), ops.drop_first())
    }
}

/// The styling operations of an emphasis: color and boldness, or nothing.
pub open spec fn spec_style_ops(style: EmphasisStyle) -> Seq<TermOpModel> {
    match style {
        EmphasisStyle::Plain => Seq::<TermOpModel>::empty(),
        EmphasisStyle::Success => seq![
            TermOpModel::SetForeground { color: TermColor::Green },
            TermOpModel::SetBold,
        ],
        EmphasisStyle::Failure => seq![
            TermOpModel::SetForeground { color: TermColor::Red },
            TermOpModel::SetBold,
        ],
        EmphasisStyle::BuildSuccess => seq![
            TermOpModel::SetForeground { color: TermColor::Blue },
            TermOpModel::SetBold,
        ],
    }
}

/// The plan of one output line: apply the style, write the line, restore
/// the default attributes.
pub open spec fn spec_render_plan(text: Seq<char>, style: EmphasisStyle) -> Seq<TermOpModel> {
    spec_style_ops(style) + seq![TermOpModel::WriteLine { text }] + seq![TermOpModel::Reset]
}

/// Builds the render plan of one output line, as [`spec_render_plan`]
/// describes.
pub fn render_plan(text: String, style: EmphasisStyle) -> (ops: Vec<TermOp>)
    ensures
        ops@.map_values(|op: TermOp| op@) == spec_render_plan(text@, style),
{
    let ghost t = text@;
    let mut ops: Vec<TermOp> = Vec::new();
    match style {
        EmphasisStyle::Plain => {},
        EmphasisStyle::Success => {
            ops.push(TermOp::SetForeground { color: TermColor::Green });
            ops.push(TermOp::SetBold);
        },
        EmphasisStyle::Failure => {
            ops.push(TermOp::SetForeground { color: TermColor::Red });
            ops.push(TermOp::SetBold);
        },
        EmphasisStyle::BuildSuccess => {
            ops.push(TermOp::SetForeground { color: TermColor::Blue });
            ops.push(TermOp::SetBold);
        },
    }
    ops.push(TermOp::WriteLine { text });
    ops.push(TermOp::Reset);
    proof {
        assert(ops@.map_values(|op: TermOp| op@) =~= spec_render_plan(t, style));
    }
    ops
}

/// The attribute state after one more operation at the end.
proof fn lemma_apply_ops_snoc(a: TermAttrs, ops: Seq<TermOpModel>, op: TermOpModel)
    ensures
        apply_ops(a, ops.push(op)) == apply_op(apply_ops(a, ops), op),
    decreases ops.len(),
{
    if ops.len() == 0 {
        assert(ops.push(op)[0] == op);
        assert(ops.push(op).drop_first() =~= Seq::<TermOpModel>::empty());
        assert(apply_ops(a, ops.push(op)) == apply_ops(
            apply_op(a, op),
            Seq::<TermOpModel>::empty(),
        ));
        assert(apply_ops(apply_op(a, op), Seq::<TermOpModel>::empty()) == apply_op(a, op));
        assert(apply_ops(a, ops) == a);
    } else {
        lemma_apply_ops_snoc(apply_op(a, ops[0]), ops.drop_first(), op);
        assert(ops.push(op)[0] == ops[0]);
        assert(ops.push(op).drop_first() =~= ops.drop_first().push(op));
        assert(apply_ops(a, ops.push(op)) == apply_ops(
            apply_op(a, ops[0]),
            ops.drop_first().push(op),
        ));
        assert(apply_ops(a, ops) == apply_ops(apply_op(a, ops[0]), ops.drop_first()));
    }
}

/// Terminal restoration, whatever ran before: after any sequence of
/// operations — all of a plan, or the part that ran before a failure —
/// running one reset leaves the default attributes, from any starting
/// state.
pub proof fn lemma_reset_restores(a: TermAttrs, ops: Seq<TermOpModel>)
    ensures
        apply_ops(a, ops.push(TermOpModel::Reset)) == default_attrs(),
{
    lemma_apply_ops_snoc(a, ops, TermOpModel::Reset);
}

/// Every render plan ends with the reset operation.
pub proof fn lemma_plan_ends_with_reset(text: Seq<char>, style: EmphasisStyle)
    ensures
        spec_render_plan(text, style).len() > 0,
        spec_render_plan(text, style).last() == TermOpModel::Reset,
{
}

/// Terminal restoration: running a whole render plan leaves the default
/// attributes, from any starting state — no styling leaks to the next
/// write.
pub proof fn lemma_plan_restores(a: TermAttrs, text: Seq<char>, style: EmphasisStyle)
    ensures
        apply_ops(a, spec_render_plan(text, style)) == default_attrs(),
{
    let prefix = spec_style_ops(style) + seq![TermOpModel::WriteLine { text }];
    assert(spec_render_plan(text, style) =~= prefix.push(TermOpModel::Reset));
    lemma_reset_restores(a, prefix);
}

} // verus!
