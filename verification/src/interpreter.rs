//! The plot interpreter: folds an ordered command sequence into chart state
//! and a plan of drawing operations.
//!
//! The plan is the complete, ordered list of calls a drawing surface must
//! receive: one `Fill` first, one `Chart` for every `PlotXY` command (built
//! from the title and axis bounds in effect at that point), and one `Present`
//! last. A rendering driver executes the plan against a concrete backend,
//! checking each operation with [`op_fatal`] first, and stops at the first
//! fatal operation or backend failure.

use vstd::prelude::*;

use crate::command::{views_of, CmdView, PlotCommand};

verus! {

/// IEEE 754 bit pattern of the 32-bit float -1.0, the default lower bound.
pub const NEG_ONE_BITS: u32 = 0xBF80_0000;

/// IEEE 754 bit pattern of the 32-bit float 1.0, the default upper bound.
pub const ONE_BITS: u32 = 0x3F80_0000;

/// The interpreter-local chart state: the title and axis bounds currently in
/// effect. Bounds are 32-bit float bit patterns.
pub struct ChartState {
    pub title: String,
    pub left: u32,
    pub right: u32,
    pub bottom: u32,
    pub top: u32,
}

/// The mathematical value of a [`ChartState`].
pub struct ChartStateView {
    pub title: Seq<char>,
    pub left: u32,
    pub right: u32,
    pub bottom: u32,
    pub top: u32,
}

impl View for ChartState {
    type V = ChartStateView;

    open spec fn view(&self) -> ChartStateView {
        ChartStateView {
            title: self.title@,
            left: self.left,
            right: self.right,
            bottom: self.bottom,
            top: self.top,
        }
    }
}

/// The chart state at the start of a replay: empty title, both axes from
/// -1.0 to 1.0.
pub open spec fn init_state() -> ChartStateView {
    ChartStateView {
        title: Seq::empty(),
        left: NEG_ONE_BITS,
        right: ONE_BITS,
        bottom: NEG_ONE_BITS,
        top: ONE_BITS,
    }
}

/// How one command updates the chart state: `Title`, `Xlim` and `Ylim`
/// replace their part of the state; `PlotXY` reads it and changes nothing.
pub open spec fn step_state(s: ChartStateView, c: CmdView) -> ChartStateView {
    match c {
        CmdView::Title { text } => ChartStateView { title: text, ..s },
        CmdView::Xlim { left, right } => ChartStateView { left: left, right: right, ..s },
        CmdView::Ylim { bottom, top } => ChartStateView { bottom: bottom, top: top, ..s },
        CmdView::PlotXY { .. } => s,
    }
}

/// The chart state after replaying a whole command sequence from `s`.
pub open spec fn fold_state(s: ChartStateView, cmds: Seq<CmdView>) -> ChartStateView
    decreases cmds.len(),
{
    if cmds.len() == 0 {
        s
    } else {
        fold_state(step_state(s, cmds[0]), cmds.drop_first())
    }
}

/// One drawing operation of a render plan.
#[derive(Debug, Clone, PartialEq)]
pub enum DrawOp {
    /// Fill the whole surface with the background color.
    Fill,
    /// Build a Cartesian chart region with the given title and bounds, draw
    /// its axis mesh, and draw `points` as one connected line series carrying
    /// `label`. Bounds and coordinates are 32-bit float bit patterns.
    Chart {
        title: String,
        left: u32,
        right: u32,
        bottom: u32,
        top: u32,
        points: Vec<(u32, u32)>,
        label: String,
    },
    /// Present the surface, making the artifact externally visible.
    Present,
}

/// The mathematical value of a [`DrawOp`].
pub enum DrawOpView {
    Fill,
    Chart {
        title: Seq<char>,
        left: u32,
        right: u32,
        bottom: u32,
        top: u32,
        points: Seq<(u32, u32)>,
        label: Seq<char>,
    },
    Present,
}

impl View for DrawOp {
    type V = DrawOpView;

    open spec fn view(&self) -> DrawOpView {
        match self {
            DrawOp::Fill => DrawOpView::Fill,
            DrawOp::Chart { title, left, right, bottom, top, points, label } => (DrawOpView::Chart {
                title: title@,
                left: *left,
                right: *right,
                bottom: *bottom,
                top: *top,
                points: points@,
                label: label@,
            }),
            DrawOp::Present => DrawOpView::Present,
        }
    }
}

/// The values of a sequence of drawing operations, in order.
pub open spec fn op_views_of(ops: Seq<DrawOp>) -> Seq<DrawOpView> {
    ops.map_values(|o: DrawOp| o@)
}

/// Zip two coordinate sequences pairwise; a length mismatch keeps only the
/// overlapping prefix.
pub open spec fn zip_prefix(x: Seq<u32>, y: Seq<u32>) -> Seq<(u32, u32)> {
    Seq::new(if x.len() <= y.len() { x.len() } else { y.len() }, |i: int| (x[i], y[i]))
}

/// The chart drawn for one `PlotXY` under chart state `s`.
pub open spec fn chart_op(s: ChartStateView, x: Seq<u32>, y: Seq<u32>, label: Seq<char>) -> DrawOpView {
    DrawOpView::Chart {
        title: s.title,
        left: s.left,
        right: s.right,
        bottom: s.bottom,
        top: s.top,
        points: zip_prefix(x, y),
        label: label,
    }
}

/// The charts one command contributes under chart state `s`: one for a
/// `PlotXY`, none for the state-setting commands.
pub open spec fn charts_of_one(s: ChartStateView, c: CmdView) -> Seq<DrawOpView> {
    match c {
        CmdView::PlotXY { x, y, label } => seq![chart_op(s, x, y, label)],
        _ => Seq::empty(),
    }
}

/// The charts a command sequence contributes when replayed from state `s`,
/// strictly in command order; each `PlotXY` uses the state as of its point.
pub open spec fn charts_from(s: ChartStateView, cmds: Seq<CmdView>) -> Seq<DrawOpView>
    decreases cmds.len(),
{
    if cmds.len() == 0 {
        Seq::empty()
    } else {
        charts_of_one(s, cmds[0]) + charts_from(step_state(s, cmds[0]), cmds.drop_first())
    }
}

/// The full render plan of a command sequence: fill once, the charts in
/// order, present once.
pub open spec fn plan_of(cmds: Seq<CmdView>) -> Seq<DrawOpView> {
    seq![DrawOpView::Fill] + charts_from(init_state(), cmds) + seq![DrawOpView::Present]
}

/// Bit pattern of the 32-bit float +0.0.
pub const POS_ZERO_BITS: u32 = 0x0000_0000;

/// Bit pattern of the 32-bit float -0.0.
pub const NEG_ZERO_BITS: u32 = 0x8000_0000;

/// Whether the bit pattern `a` is a 32-bit float zero (of either sign).
pub open spec fn is_zero_f32(a: u32) -> bool {
    a == POS_ZERO_BITS || a == NEG_ZERO_BITS
}

/// Whether two 32-bit floats, given as bit patterns, are the same number.
///
/// The recorder only ever stores finite values (the scripting boundary
/// rejects non-finite input before a command is built), and two finite
/// floats are equal exactly when their bit patterns are identical or both
/// are zeros.
pub open spec fn same_finite_f32(a: u32, b: u32) -> bool {
    a == b || (is_zero_f32(a) && is_zero_f32(b))
}

/// Whether an axis configuration is degenerate: the x range or the y range
/// collapses to a single value (`left == right` or `bottom == top`).
pub open spec fn bounds_degenerate(left: u32, right: u32, bottom: u32, top: u32) -> bool {
    same_finite_f32(left, right) || same_finite_f32(bottom, top)
}

/// Whether a drawing operation is fatal to the render call: a chart region
/// with a degenerate axis range cannot be built, and a rendering driver must
/// report failure and abort instead of executing it. `Fill` and `Present`
/// are never fatal.
pub open spec fn op_is_fatal(o: DrawOpView) -> bool {
    match o {
        DrawOpView::Chart { left, right, bottom, top, .. } => bounds_degenerate(
            left,
            right,
            bottom,
            top,
        ),
        _ => false,
    }
}

impl ChartState {
    /// The chart state at the start of a replay.
    pub fn init() -> (r: ChartState)
        ensures
            r@ == init_state(),
    {
        ChartState {
            title: String::new(),
            left: NEG_ONE_BITS,
            right: ONE_BITS,
            bottom: NEG_ONE_BITS,
            top: ONE_BITS,
        }
    }
}

/// Zip `x` and `y` into point pairs, keeping only the overlapping prefix
/// when the lengths differ.
pub fn zip_points(x: &Vec<u32>, y: &Vec<u32>) -> (r: Vec<(u32, u32)>)
    ensures
        r@ == zip_prefix(x@, y@),
{
    let n: usize = if x.len() <= y.len() {
        x.len()
    } else {
        y.len()
    };
    let mut r: Vec<(u32, u32)> = Vec::new();
    let mut i: usize = 0;
    while i < n
        invariant
            i <= n,
            n <= x@.len(),
            n <= y@.len(),
            n == zip_prefix(x@, y@).len(),
            r@ == zip_prefix(x@, y@).take(i as int),
        decreases n - i,
    {
        r.push((x[i], y[i]));
        proof {
            assert(r@ =~= zip_prefix(x@, y@).take(i as int + 1));
        }
        i += 1;
    }
    proof {
        assert(zip_prefix(x@, y@).take(n as int) =~= zip_prefix(x@, y@));
    }
    r
}

/// Replay one command: update the chart state and return the chart to draw,
/// if the command is a `PlotXY`.
pub fn apply_command(state: &mut ChartState, cmd: &PlotCommand) -> (op: Option<DrawOp>)
    ensures
        final(state)@ == step_state(old(state)@, cmd@),
        (match cmd@ {
            CmdView::PlotXY { x, y, label } => op matches Some(o) && o@ == chart_op(
                old(state)@,
                x,
                y,
                label,
            ),
            _ => op is None,
        }),
{
    match cmd {
        PlotCommand::Title(text) => {
            state.title = text.clone();
            None
        }
        PlotCommand::Xlim { left, right } => {
            state.left = *left;
            state.right = *right;
            None
        }
        PlotCommand::Ylim { bottom, top } => {
            state.bottom = *bottom;
            state.top = *top;
            None
        }
        PlotCommand::PlotXY { x, y, label } => {
            let points = zip_points(x, y);
            Some(DrawOp::Chart {
                title: state.title.clone(),
                left: state.left,
                right: state.right,
                bottom: state.bottom,
                top: state.top,
                points: points,
                label: label.clone(),
            })
        }
    }
}

/// Replaying a sequence and then one more command folds the state one step
/// further.
proof fn lemma_fold_state_snoc(s: ChartStateView, cmds: Seq<CmdView>, c: CmdView)
    ensures
        fold_state(s, cmds.push(c)) == step_state(fold_state(s, cmds), c),
    decreases cmds.len(),
{
    if cmds.len() == 0 {
        assert(cmds.push(c)[0] == c);
        assert(cmds.push(c).drop_first() =~= Seq::<CmdView>::empty());
        assert(fold_state(step_state(s, c), Seq::<CmdView>::empty()) == step_state(s, c));
        assert(fold_state(s, cmds) == s);
    } else {
        assert(cmds.push(c)[0] == cmds[0]);
        assert(cmds.push(c).drop_first() =~= cmds.drop_first().push(c));
        lemma_fold_state_snoc(step_state(s, cmds[0]), cmds.drop_first(), c);
        assert(fold_state(s, cmds.push(c)) == fold_state(
            step_state(s, cmds[0]),
            cmds.drop_first().push(c),
        ));
        assert(fold_state(s, cmds) == fold_state(step_state(s, cmds[0]), cmds.drop_first()));
    }
}

/// Appending one command to a replay adds exactly that command's charts,
/// built under the state the earlier commands left behind.
proof fn lemma_charts_from_snoc(s: ChartStateView, cmds: Seq<CmdView>, c: CmdView)
    ensures
        charts_from(s, cmds.push(c)) == charts_from(s, cmds) + charts_of_one(
            fold_state(s, cmds),
            c,
        ),
    decreases cmds.len(),
{
    if cmds.len() == 0 {
        assert(cmds.push(c)[0] == c);
        assert(cmds.push(c).drop_first() =~= Seq::<CmdView>::empty());
        assert(charts_from(step_state(s, c), Seq::<CmdView>::empty()) == Seq::<
            DrawOpView,
        >::empty());
        assert(charts_from(s, cmds) == Seq::<DrawOpView>::empty());
        assert(fold_state(s, cmds) == s);
        assert(charts_from(s, cmds.push(c)) =~= charts_from(s, cmds) + charts_of_one(
            fold_state(s, cmds),
            c,
        ));
    } else {
        assert(cmds.push(c)[0] == cmds[0]);
        assert(cmds.push(c).drop_first() =~= cmds.drop_first().push(c));
        lemma_charts_from_snoc(step_state(s, cmds[0]), cmds.drop_first(), c);
        assert(charts_from(s, cmds.push(c)) == charts_of_one(s, cmds[0]) + charts_from(
            step_state(s, cmds[0]),
            cmds.drop_first().push(c),
        ));
        assert(charts_from(s, cmds) == charts_of_one(s, cmds[0]) + charts_from(
            step_state(s, cmds[0]),
            cmds.drop_first(),
        ));
        assert(fold_state(s, cmds) == fold_state(step_state(s, cmds[0]), cmds.drop_first()));
        assert(charts_from(s, cmds.push(c)) =~= charts_from(s, cmds) + charts_of_one(
            fold_state(s, cmds),
            c,
        ));
    }
}

/// Fold a drained command sequence into the complete, ordered render plan:
/// fill the surface once, draw one chart per `PlotXY` command under the
/// title and bounds in effect at its point, and present once.
pub fn render_plan(commands: &Vec<PlotCommand>) -> (plan: Vec<DrawOp>)
    ensures
        op_views_of(plan@) == plan_of(views_of(commands@)),
{
    let mut plan: Vec<DrawOp> = Vec::new();
    plan.push(DrawOp::Fill);
    let mut state = ChartState::init();
    proof {
        assert(views_of(commands@).take(0) =~= Seq::<CmdView>::empty());
        assert(op_views_of(plan@) =~= seq![DrawOpView::Fill] + charts_from(
            init_state(),
            views_of(commands@).take(0),
        ));
    }
    let mut i: usize = 0;
    while i < commands.len()
        invariant
            i <= commands@.len(),
            state@ == fold_state(init_state(), views_of(commands@).take(i as int)),
            op_views_of(plan@) == seq![DrawOpView::Fill] + charts_from(
                init_state(),
                views_of(commands@).take(i as int),
            ),
        decreases commands@.len() - i,
    {
        let ghost pre_ops = op_views_of(plan@);
        let ghost pre_cmds = views_of(commands@).take(i as int);
        let cmd = &commands[i];
        let op = apply_command(&mut state, cmd);
        match op {
            Some(o) => {
                plan.push(o);
                proof {
                    assert(op_views_of(plan@) =~= pre_ops.push(plan@.last()@));
                }
            }
            None => {}
        }
        proof {
            assert(views_of(commands@).take(i as int + 1) =~= pre_cmds.push(cmd@));
            lemma_fold_state_snoc(init_state(), pre_cmds, cmd@);
            lemma_charts_from_snoc(init_state(), pre_cmds, cmd@);
            assert(op_views_of(plan@) =~= seq![DrawOpView::Fill] + charts_from(
                init_state(),
                views_of(commands@).take(i as int + 1),
            ));
        }
        i += 1;
    }
    let ghost body_ops = op_views_of(plan@);
    plan.push(DrawOp::Present);
    proof {
        assert(op_views_of(plan@) =~= body_ops.push(DrawOpView::Present));
        assert(views_of(commands@).take(commands@.len() as int) =~= views_of(commands@));
        assert(op_views_of(plan@) =~= plan_of(views_of(commands@)));
    }
    plan
}

/// Whether two 32-bit floats, given as bit patterns, are the same number
/// (assuming both are finite, as every recorded value is).
pub fn same_f32_bits(a: u32, b: u32) -> (r: bool)
    ensures
        r == same_finite_f32(a, b),
{
    a == b || ((a == POS_ZERO_BITS || a == NEG_ZERO_BITS) && (b == POS_ZERO_BITS || b
        == NEG_ZERO_BITS))
}

/// Decide whether a drawing operation is fatal: the chart it would build has
/// a degenerate axis range. A rendering driver checks each operation of a
/// plan in order and reports failure at the first fatal one, executing
/// nothing after it.
pub fn op_fatal(op: &DrawOp) -> (r: bool)
    ensures
        r == op_is_fatal(op@),
{
    match op {
        DrawOp::Chart { left, right, bottom, top, .. } => {
            same_f32_bits(*left, *right) || same_f32_bits(*bottom, *top)
        }
        DrawOp::Fill => false,
        DrawOp::Present => false,
    }
}

/// Splitting a replay anywhere splits its charts: the second part continues
/// from the state the first part left behind.
proof fn lemma_charts_from_concat(s: ChartStateView, a: Seq<CmdView>, b: Seq<CmdView>)
    ensures
        charts_from(s, a + b) == charts_from(s, a) + charts_from(fold_state(s, a), b),
    decreases a.len(),
{
    if a.len() == 0 {
        assert(a + b =~= b);
        assert(fold_state(s, a) == s);
        assert(charts_from(s, a) + charts_from(s, b) =~= charts_from(s, b));
    } else {
        assert((a + b)[0] == a[0]);
        assert((a + b).drop_first() =~= a.drop_first() + b);
        lemma_charts_from_concat(step_state(s, a[0]), a.drop_first(), b);
        assert(fold_state(s, a) == fold_state(step_state(s, a[0]), a.drop_first()));
        assert(charts_from(s, a + b) == charts_of_one(s, a[0]) + charts_from(
            step_state(s, a[0]),
            a.drop_first() + b,
        ));
        assert(charts_from(s, a) == charts_of_one(s, a[0]) + charts_from(
            step_state(s, a[0]),
            a.drop_first(),
        ));
        assert(charts_from(s, a + b) =~= charts_from(s, a) + charts_from(fold_state(s, a), b));
    }
}

/// A `PlotXY` processed while the axis bounds in effect are degenerate puts
/// a fatal operation into the render plan: such a render is reported as a
/// failure by the driver, never drawn as a silently broken chart.
pub proof fn lemma_degenerate_bounds_are_fatal(cmds: Seq<CmdView>, i: int)
    requires
        0 <= i < cmds.len(),
        cmds[i] is PlotXY,
        bounds_degenerate(
            fold_state(init_state(), cmds.take(i)).left,
            fold_state(init_state(), cmds.take(i)).right,
            fold_state(init_state(), cmds.take(i)).bottom,
            fold_state(init_state(), cmds.take(i)).top,
        ),
    ensures
        exists|j: int| 0 <= j < plan_of(cmds).len() && op_is_fatal(plan_of(cmds)[j]),
{
    let c = cmds[i];
    let s = fold_state(init_state(), cmds.take(i));
    assert(charts_of_one(s, c).len() == 1 && op_is_fatal(charts_of_one(s, c)[0])) by {
        match c {
            CmdView::PlotXY { x, y, label } => {
                assert(charts_of_one(s, c) == seq![chart_op(s, x, y, label)]);
            }
            _ => {
                assert(false);
            }
        }
    }
    assert(cmds.take(i + 1) =~= cmds.take(i).push(c));
    lemma_charts_from_snoc(init_state(), cmds.take(i), c);
    assert(cmds.take(i + 1) + cmds.skip(i + 1) =~= cmds);
    lemma_charts_from_concat(init_state(), cmds.take(i + 1), cmds.skip(i + 1));
    let before = charts_from(init_state(), cmds.take(i));
    assert(charts_from(init_state(), cmds) == (before + charts_of_one(s, c)) + charts_from(
        fold_state(init_state(), cmds.take(i + 1)),
        cmds.skip(i + 1),
    ));
    let j = 1 + before.len() as int;
    assert(plan_of(cmds)[j] == charts_of_one(s, c)[0]);
    assert(0 <= j < plan_of(cmds).len() && op_is_fatal(plan_of(cmds)[j]));
}

/// An empty command sequence still fills and presents: its render plan is
/// exactly the fill followed by the present, with no chart between them.
pub proof fn lemma_empty_plan()
    ensures
        plan_of(Seq::<CmdView>::empty()) == seq![DrawOpView::Fill, DrawOpView::Present],
{
    assert(plan_of(Seq::<CmdView>::empty()) =~= seq![DrawOpView::Fill, DrawOpView::Present]);
}

/// A length mismatch between `x` and `y` is tolerated: exactly the
/// overlapping prefix is drawn, pairing each `x` value with the `y` value at
/// the same position.
pub proof fn lemma_zip_prefix_tolerates_mismatch(x: Seq<u32>, y: Seq<u32>)
    ensures
        zip_prefix(x, y).len() == if x.len() <= y.len() {
            x.len()
        } else {
            y.len()
        },
        forall|i: int| 0 <= i < zip_prefix(x, y).len() ==> zip_prefix(x, y)[i] == (x[i], y[i]),
{
}

} // verus!
