//! The command model: the closed set of plot intents and their payloads.

use vstd::prelude::*;

verus! {

/// One recorded plot intent.
///
/// Coordinates and axis bounds are IEEE 754 single-precision bit patterns;
/// the core never interprets them numerically. For `PlotXY`, `x` and `y` are
/// zipped pairwise when rendered: if the lengths differ, only the overlapping
/// prefix is drawn (no equal-length invariant is enforced at this layer).
#[derive(Debug, Clone, PartialEq)]
pub enum PlotCommand {
    Title(String),
    PlotXY { x: Vec<u32>, y: Vec<u32>, label: String },
    Xlim { left: u32, right: u32 },
    Ylim { bottom: u32, top: u32 },
}

/// The mathematical value of a [`PlotCommand`]: the same variants over
/// `Seq` instead of `Vec` and `String`.
pub enum CmdView {
    Title { text: Seq<char> },
    PlotXY { x: Seq<u32>, y: Seq<u32>, label: Seq<char> },
    Xlim { left: u32, right: u32 },
    Ylim { bottom: u32, top: u32 },
}

impl View for PlotCommand {
    type V = CmdView;

    open spec fn view(&self) -> CmdView {
        match self {
            PlotCommand::Title(text) => CmdView::Title { text: text@ },
            PlotCommand::PlotXY { x, y, label } => CmdView::PlotXY {
                x: x@,
                y: y@,
                label: label@,
            },
            PlotCommand::Xlim { left, right } => CmdView::Xlim { left: *left, right: *right },
            PlotCommand::Ylim { bottom, top } => CmdView::Ylim { bottom: *bottom, top: *top },
        }
    }
}

/// The values of a sequence of commands, in order.
pub open spec fn views_of(cmds: Seq<PlotCommand>) -> Seq<CmdView> {
    cmds.map_values(|c: PlotCommand| c@)
}

} // verus!
