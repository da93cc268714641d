//! Tests for the plot interpreter: the render plan a command sequence folds
//! into, chart-state carry-forward, zip tolerance, and fatal bounds.

use pyplotter::command::PlotCommand;
use pyplotter::interpreter::{op_fatal, render_plan, ChartState, DrawOp};

fn title(text: &str) -> PlotCommand {
    PlotCommand::Title(text.to_string())
}

fn xlim(left: f32, right: f32) -> PlotCommand {
    PlotCommand::Xlim { left: left.to_bits(), right: right.to_bits() }
}

fn ylim(bottom: f32, top: f32) -> PlotCommand {
    PlotCommand::Ylim { bottom: bottom.to_bits(), top: top.to_bits() }
}

fn plot_xy(x: &[f32], y: &[f32], label: &str) -> PlotCommand {
    PlotCommand::PlotXY {
        x: x.iter().map(|v| v.to_bits()).collect(),
        y: y.iter().map(|v| v.to_bits()).collect(),
        label: label.to_string(),
    }
}

fn chart(
    title: &str,
    left: f32,
    right: f32,
    bottom: f32,
    top: f32,
    points: &[(f32, f32)],
    label: &str,
) -> DrawOp {
    DrawOp::Chart {
        title: title.to_string(),
        left: left.to_bits(),
        right: right.to_bits(),
        bottom: bottom.to_bits(),
        top: top.to_bits(),
        points: points.iter().map(|(a, b)| (a.to_bits(), b.to_bits())).collect(),
        label: label.to_string(),
    }
}

#[test]
fn empty_commands_still_fill_and_present() {
    let plan = render_plan(&vec![]);
    assert_eq!(plan, vec![DrawOp::Fill, DrawOp::Present]);
}

#[test]
fn empty_plan_has_no_fatal_op() {
    let plan = render_plan(&vec![]);
    assert!(plan.iter().all(|op| !op_fatal(op)));
}

#[test]
fn chart_state_carries_forward() {
    let cmds = vec![
        title("A"),
        xlim(0.0, 10.0),
        plot_xy(&[1.0, 2.0], &[3.0, 4.0], "s1"),
        xlim(0.0, 5.0),
        plot_xy(&[1.0, 2.0], &[3.0, 4.0], "s2"),
    ];
    let plan = render_plan(&cmds);
    assert_eq!(
        plan,
        vec![
            DrawOp::Fill,
            chart("A", 0.0, 10.0, -1.0, 1.0, &[(1.0, 3.0), (2.0, 4.0)], "s1"),
            chart("A", 0.0, 5.0, -1.0, 1.0, &[(1.0, 3.0), (2.0, 4.0)], "s2"),
            DrawOp::Present,
        ]
    );
}

#[test]
fn defaults_apply_when_nothing_was_set() {
    let plan = render_plan(&vec![plot_xy(&[0.5], &[0.25], "s")]);
    assert_eq!(
        plan,
        vec![
            DrawOp::Fill,
            chart("", -1.0, 1.0, -1.0, 1.0, &[(0.5, 0.25)], "s"),
            DrawOp::Present,
        ]
    );
}

#[test]
fn later_limits_replace_earlier_ones() {
    let cmds = vec![
        ylim(-3.0, 3.0),
        ylim(-2.0, 7.0),
        title("old"),
        title("new"),
        plot_xy(&[1.0], &[1.0], "s"),
    ];
    let plan = render_plan(&cmds);
    assert_eq!(plan[1], chart("new", -1.0, 1.0, -2.0, 7.0, &[(1.0, 1.0)], "s"));
}

#[test]
fn mismatched_lengths_zip_the_overlapping_prefix() {
    let plan = render_plan(&vec![plot_xy(&[1.0, 2.0, 3.0], &[4.0, 5.0], "s")]);
    match &plan[1] {
        DrawOp::Chart { points, .. } => {
            assert_eq!(points.len(), 2);
            assert_eq!(
                points,
                &vec![(1.0f32.to_bits(), 4.0f32.to_bits()), (2.0f32.to_bits(), 5.0f32.to_bits())]
            );
        }
        other => panic!("expected a chart, got {:?}", other),
    }
}

#[test]
fn empty_series_draws_a_chart_frame_with_no_points() {
    let plan = render_plan(&vec![plot_xy(&[], &[], "empty")]);
    assert_eq!(
        plan,
        vec![DrawOp::Fill, chart("", -1.0, 1.0, -1.0, 1.0, &[], "empty"), DrawOp::Present]
    );
}

#[test]
fn degenerate_xlim_makes_the_chart_fatal() {
    let plan = render_plan(&vec![xlim(5.0, 5.0), plot_xy(&[1.0, 2.0], &[3.0, 4.0], "s")]);
    assert!(!op_fatal(&plan[0]));
    assert!(op_fatal(&plan[1]));
    assert!(!op_fatal(&plan[2]));
}

#[test]
fn degenerate_ylim_makes_the_chart_fatal() {
    let plan = render_plan(&vec![ylim(2.0, 2.0), plot_xy(&[1.0], &[1.0], "s")]);
    assert!(op_fatal(&plan[1]));
}

#[test]
fn signed_zero_bounds_are_degenerate() {
    let plan = render_plan(&vec![xlim(-0.0, 0.0), plot_xy(&[1.0], &[1.0], "s")]);
    assert!(op_fatal(&plan[1]));
}

#[test]
fn proper_bounds_are_not_fatal() {
    let plan = render_plan(&vec![xlim(0.0, 10.0), ylim(-1.0, 4.0), plot_xy(&[1.0], &[1.0], "s")]);
    assert!(plan.iter().all(|op| !op_fatal(op)));
}

#[test]
fn initial_chart_state_has_the_documented_defaults() {
    let state = ChartState::init();
    assert_eq!(state.title, "");
    assert_eq!(f32::from_bits(state.left), -1.0);
    assert_eq!(f32::from_bits(state.right), 1.0);
    assert_eq!(f32::from_bits(state.bottom), -1.0);
    assert_eq!(f32::from_bits(state.top), 1.0);
}
