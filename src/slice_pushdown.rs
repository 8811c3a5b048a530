use vstd::prelude::*;

use crate::arena::{Arena, Node};
use crate::expr::{
    any_has_column, can_pushdown_slice_past_projections, exprs_allow_slice, exprs_wf, handles_in,
    AExpr,
};
use crate::plan::{
    extends, frame_sliced, has_slice_field, ir_inputs, ir_slice, node_ok, plan_wf,
    projection_exprs, same_shape, FileScan, FunctionIR, IdxSize, State, IR,
};

verus! {

/// The optimizer pass that moves row windows (slices) towards the sources.
/// `streaming` selects the legacy streaming engine, `new_streaming` the new
/// one; each allows or forbids some of the moves.
pub struct SlicePushDown {
    pub streaming: bool,
    pub new_streaming: bool,
    scratch: Vec<Node>,
}

/// The two engine flags, which decide the moves that are allowed.
#[derive(Clone, Copy, PartialEq, Eq, Structural, Debug)]
pub struct Mode {
    pub streaming: bool,
    pub new_streaming: bool,
}

impl SlicePushDown {
    pub closed spec fn mode(&self) -> Mode {
        Mode { streaming: self.streaming, new_streaming: self.new_streaming }
    }
}

/// What happens to the inputs of a rebuilt node.
#[derive(Clone, Copy, PartialEq, Eq, Structural, Debug)]
pub enum ChildPlan {
    /// They stay as they are.
    Untouched,
    /// Each is rewritten with the given pending window.
    Visit(Option<State>),
}

/// What a node becomes, below any explicit slice placed above it.
#[derive(Clone, Copy, Debug)]
pub enum Core {
    /// The node stays as it is.
    Keep,
    /// The same operator, with its own window set to `slice` where that is
    /// `Some`, and its inputs handled as `children` says.
    Rebuild { slice: Option<(i64, u64)>, children: ChildPlan },
    /// The node is an explicit slice that disappears: its input is rewritten
    /// with the given window in its place.
    Into(Node, State),
    /// An in-memory frame, cut down to the window.
    SliceFrame(State),
}

/// The decision taken at one node: the explicit slice to place above it,
/// if any, and what the node itself becomes.
#[derive(Clone, Copy, Debug)]
pub struct Step {
    pub wrap: Option<State>,
    pub core: Core,
}

pub open spec fn window_pair(s: State) -> (i64, u64) {
    (s.offset, s.len as u64)
}

/// The window becomes the node's own.
pub open spec fn fused(s: State, children: ChildPlan) -> Step {
    Step { wrap: None, core: Core::Rebuild { slice: Some(window_pair(s)), children } }
}

/// The window stays above the node, whose inputs restart with none.
pub open spec fn blocked(st: Option<State>) -> Step {
    Step { wrap: st, core: Core::Rebuild { slice: None, children: ChildPlan::Visit(None) } }
}

/// The window moves on to every input.
pub open spec fn passed(st: Option<State>) -> Step {
    Step { wrap: None, core: Core::Rebuild { slice: None, children: ChildPlan::Visit(st) } }
}

/// The window stays above the node, which is left as it is.
pub open spec fn finished(s: State) -> Step {
    Step { wrap: Some(s), core: Core::Keep }
}

/// An explicit slice `(offset, len)` met under the pending window `prev`:
/// with equal offsets the shorter length wins, else the inner window does.
pub open spec fn merged(prev: State, offset: i64, len: IdxSize) -> State {
    if prev.offset == offset {
        State { offset, len: if len < prev.len { len } else { prev.len } }
    } else {
        State { offset, len }
    }
}

/// A slice may pass a selection when every output expression allows it and
/// at least one reads a column.
pub open spec fn select_allows(ex: Seq<AExpr>, exprs: Seq<Node>) -> bool {
    exprs_allow_slice(ex, exprs) && any_has_column(ex, exprs)
}

/// A slice may pass a column-adding projection when every new expression
/// allows it and either one of them reads a column or an input column
/// survives into the output.
pub open spec fn hstack_allows(ex: Seq<AExpr>, exprs: Seq<Node>, schema_len: usize) -> bool {
    exprs_allow_slice(ex, exprs) && (any_has_column(ex, exprs) || schema_len > exprs.len())
}

pub open spec fn scan_step(scan_type: FileScan, s: State, cfg: Mode) -> Step {
    match scan_type {
        FileScan::Csv => if cfg.new_streaming {
            fused(s, ChildPlan::Untouched)
        } else if s.offset >= 0 {
            Step {
                wrap: Some(s),
                core: Core::Rebuild {
                    slice: Some((0i64, (s.offset + s.len) as u64)),
                    children: ChildPlan::Untouched,
                },
            }
        } else {
            finished(s)
        },
        FileScan::Parquet => fused(s, ChildPlan::Untouched),
        FileScan::Ipc => if cfg.new_streaming || s.offset == 0 {
            fused(s, ChildPlan::Untouched)
        } else {
            finished(s)
        },
        FileScan::Anonymous => if s.offset == 0 {
            fused(s, ChildPlan::Untouched)
        } else {
            finished(s)
        },
    }
}

/// The rule for node `lp` under the pending window `st`.
pub open spec fn step(lp: IR, st: Option<State>, cfg: Mode, ex: Seq<AExpr>) -> Step {
    match st {
        None => match lp {
            IR::Slice { input, offset, len } => Step {
                wrap: None,
                core: Core::Into(input, State { offset, len }),
            },
            IR::PythonScan { .. } | IR::Scan { .. } | IR::Union { .. } | IR::Sink { .. }
            | IR::Invalid => Step { wrap: None, core: Core::Keep },
            _ => passed(None),
        },
        Some(s) => match lp {
            IR::PythonScan { predicate, .. } => if predicate is None && s.offset == 0 {
                fused(s, ChildPlan::Untouched)
            } else {
                finished(s)
            },
            IR::Scan { scan_type, predicate, .. } => if predicate is None {
                scan_step(scan_type, s, cfg)
            } else {
                finished(s)
            },
            IR::DataFrameScan { .. } => Step { wrap: None, core: Core::SliceFrame(s) },
            IR::Union { .. } => Step {
                wrap: if cfg.streaming {
                    Some(s)
                } else {
                    None
                },
                core: Core::Rebuild {
                    slice: Some(window_pair(s)),
                    children: if s.offset == 0 {
                        ChildPlan::Visit(Some(s))
                    } else {
                        ChildPlan::Untouched
                    },
                },
            },
            IR::Join { cross, .. } => if !cfg.streaming && !cross {
                fused(s, ChildPlan::Visit(None))
            } else {
                blocked(Some(s))
            },
            IR::GroupBy { .. } | IR::Distinct { .. } | IR::Sort { .. } => fused(
                s,
                ChildPlan::Visit(None),
            ),
            IR::Slice { input, offset, len } => Step {
                wrap: Some(s),
                core: Core::Into(input, merged(s, offset, len)),
            },
            IR::Filter { .. } | IR::Cache { .. } => blocked(Some(s)),
            IR::MapFunction { function, .. } => match function {
                FunctionIR::Opaque { predicate_pd } => if predicate_pd {
                    passed(Some(s))
                } else {
                    blocked(Some(s))
                },
                _ => blocked(Some(s)),
            },
            IR::SimpleProjection { .. } | IR::HConcat { .. } => passed(Some(s)),
            IR::Select { exprs, .. } => if select_allows(ex, exprs@) {
                passed(Some(s))
            } else {
                blocked(Some(s))
            },
            IR::HStack { exprs, schema_len, .. } => if hstack_allows(ex, exprs@, schema_len) {
                passed(Some(s))
            } else {
                blocked(Some(s))
            },
            IR::Sink { .. } | IR::Invalid => finished(s),
        },
    }
}

/// The node under an explicit slice that `step` placed at `h`, else `h`.
pub open spec fn core_handle(a: Seq<IR>, wrap: Option<State>, h: Node) -> Node {
    match wrap {
        Some(_) => match a[h as int] {
            IR::Slice { input, .. } => input,
            _ => h,
        },
        None => h,
    }
}

/// `h` is the rewrite, in arena `a`, of the subtree at `c` under the
/// pending window `st`: the node is handled as `step` decides and every
/// input that it visits is itself rewritten in this sense.
pub open spec fn pushed(
    a: Seq<IR>,
    c: Node,
    st: Option<State>,
    cfg: Mode,
    ex: Seq<AExpr>,
    h: Node,
) -> bool
    decreases c,
{
    &&& c < a.len()
    &&& h < a.len()
    &&& {
        let lp = a[c as int];
        let d = step(lp, st, cfg, ex);
        let hc = core_handle(a, d.wrap, h);
        &&& (d.wrap matches Some(w) ==> a[h as int] == IR::Slice {
            input: hc,
            offset: w.offset,
            len: w.len,
        })
        &&& hc < a.len()
        &&& match d.core {
            Core::Keep => hc == c,
            Core::Rebuild { slice, children } => if slice is None && ir_inputs(lp).len() == 0 {
                hc == c
            } else {
                &&& same_shape(lp, a[hc as int])
                &&& ir_slice(a[hc as int]) == match slice {
                    Some(p) => Some(p),
                    None => ir_slice(lp),
                }
                &&& match children {
                    ChildPlan::Untouched => ir_inputs(a[hc as int]) == ir_inputs(lp),
                    ChildPlan::Visit(cs) => forall|j: int|
                        0 <= j < ir_inputs(lp).len() ==> {
                            let k = #[trigger] ir_inputs(lp)[j];
                            k < c && pushed(a, k, cs, cfg, ex, ir_inputs(a[hc as int])[j])
                        },
                }
            },
            Core::Into(n, s2) => n < c && pushed(a, n, Some(s2), cfg, ex, hc),
            Core::SliceFrame(s) => match (lp, a[hc as int]) {
                (IR::DataFrameScan { df: d1 }, IR::DataFrameScan { df: d2 }) => frame_sliced(
                    d1,
                    d2,
                    s,
                ),
                _ => false,
            },
        }
    }
}

/// A rewrite stays a rewrite when nodes are appended to the arena.
pub proof fn lemma_pushed_extends(
    a: Seq<IR>,
    b: Seq<IR>,
    c: Node,
    st: Option<State>,
    cfg: Mode,
    ex: Seq<AExpr>,
    h: Node,
)
    requires
        pushed(a, c, st, cfg, ex, h),
        extends(a, b),
    ensures
        pushed(b, c, st, cfg, ex, h),
    decreases c,
{
    assert forall|k: Node, st2: Option<State>, h2: Node|
        k < c && #[trigger] pushed(a, k, st2, cfg, ex, h2) implies pushed(
        b,
        k,
        st2,
        cfg,
        ex,
        h2,
    ) by {
        lemma_pushed_extends(a, b, k, st2, cfg, ex, h2);
    }
    let d = step(a[c as int], st, cfg, ex);
    assert(b[c as int] == a[c as int]);
    assert(b[h as int] == a[h as int]);
    let hc = core_handle(a, d.wrap, h);
    assert(core_handle(b, d.wrap, h) == hc);
    assert(b[hc as int] == a[hc as int]);
    let lp = a[c as int];
    match d.core {
        Core::Rebuild { slice, children } => {
            if !(slice is None && ir_inputs(lp).len() == 0) {
                if let ChildPlan::Visit(cs) = children {
                    assert forall|j: int| 0 <= j < ir_inputs(lp).len() implies {
                        let k = #[trigger] ir_inputs(lp)[j];
                        k < c && pushed(b, k, cs, cfg, ex, ir_inputs(b[hc as int])[j])
                    } by {
                        let k = ir_inputs(lp)[j];
                        assert(pushed(a, k, cs, cfg, ex, ir_inputs(a[hc as int])[j]));
                    }
                }
            }
        },
        Core::Into(n, s2) => {
            assert(pushed(a, n, Some(s2), cfg, ex, hc));
        },
        _ => {},
    }
}

fn copy_nodes(v: &Vec<Node>) -> (r: Vec<Node>)
    ensures
        r@ == v@,
{
    let mut r: Vec<Node> = Vec::new();
    let mut i: usize = 0;
    while i < v.len()
        invariant
            i <= v@.len(),
            r@ == v@.subrange(0, i as int),
        decreases v@.len() - i,
    {
        r.push(v[i]);
        i = i + 1;
        assert(r@ =~= v@.subrange(0, i as int));
    }
    assert(v@.subrange(0, i as int) =~= v@);
    r
}

fn one_node(x: Node) -> (r: Vec<Node>)
    ensures
        r@ == seq![x],
{
    let mut r: Vec<Node> = Vec::new();
    r.push(x);
    assert(r@ =~= seq![x]);
    r
}

/// The input handles of `lp`, in order.
fn inputs_of(lp: &IR) -> (r: Vec<Node>)
    ensures
        r@ == ir_inputs(*lp),
{
    match lp {
        IR::Union { inputs, .. } => copy_nodes(inputs),
        IR::HConcat { inputs } => copy_nodes(inputs),
        IR::Select { input, .. } => one_node(*input),
        IR::HStack { input, .. } => one_node(*input),
        IR::SimpleProjection { input, .. } => one_node(*input),
        IR::Filter { input, .. } => one_node(*input),
        IR::Sort { input, .. } => one_node(*input),
        IR::GroupBy { input, .. } => one_node(*input),
        IR::Distinct { input, .. } => one_node(*input),
        IR::Join { input_left, input_right, .. } => {
            let mut r = one_node(*input_left);
            r.push(*input_right);
            assert(r@ =~= seq![*input_left, *input_right]);
            r
        },
        IR::Cache { input, .. } => one_node(*input),
        IR::MapFunction { input, .. } => one_node(*input),
        IR::Slice { input, .. } => one_node(*input),
        IR::Sink { input } => one_node(*input),
        _ => Vec::new(),
    }
}

fn pick(slice: Option<(i64, u64)>, own: Option<(i64, u64)>) -> (r: Option<(i64, u64)>)
    ensures
        r == match slice {
            Some(p) => Some(p),
            None => own,
        },
{
    match slice {
        Some(p) => Some(p),
        None => own,
    }
}

/// `lp` with `inputs` as its inputs and, where `slice` is `Some`, that as
/// its own window.
fn rebuild_node(lp: &IR, inputs: Vec<Node>, slice: Option<(i64, u64)>) -> (r: IR)
    requires
        ir_inputs(*lp).len() == inputs@.len(),
        !(lp is DataFrameScan),
        slice is Some ==> has_slice_field(*lp),
        lp is PythonScan ==> (slice matches Some(p) ==> p.0 == 0),
    ensures
        same_shape(*lp, r),
        ir_inputs(r) == inputs@,
        ir_slice(r) == match slice {
            Some(p) => Some(p),
            None => ir_slice(*lp),
        },
        projection_exprs(r) == projection_exprs(*lp),
{
    let first: Node = if inputs.len() > 0 {
        inputs[0]
    } else {
        0
    };
    let r = match lp {
        IR::PythonScan { predicate, n_rows } => IR::PythonScan {
            predicate: *predicate,
            n_rows: match slice {
                Some(p) => Some(p.1),
                None => *n_rows,
            },
        },
        IR::Scan { scan_type, predicate, slice: own } => IR::Scan {
            scan_type: *scan_type,
            predicate: *predicate,
            slice: pick(slice, *own),
        },
        IR::DataFrameScan { .. } => IR::Invalid,
        IR::Union { slice: own, .. } => IR::Union { inputs, slice: pick(slice, *own) },
        IR::HConcat { .. } => IR::HConcat { inputs },
        IR::Select { exprs, .. } => IR::Select { input: first, exprs: copy_nodes(exprs) },
        IR::HStack { exprs, schema_len, .. } => IR::HStack {
            input: first,
            exprs: copy_nodes(exprs),
            schema_len: *schema_len,
        },
        IR::SimpleProjection { n_columns, .. } => IR::SimpleProjection {
            input: first,
            n_columns: *n_columns,
        },
        IR::Filter { predicate, .. } => IR::Filter { input: first, predicate: *predicate },
        IR::Sort { by_column, slice: own, .. } => IR::Sort {
            input: first,
            by_column: copy_nodes(by_column),
            slice: pick(slice, *own),
        },
        IR::GroupBy { keys, aggs, slice: own, .. } => IR::GroupBy {
            input: first,
            keys: copy_nodes(keys),
            aggs: copy_nodes(aggs),
            slice: pick(slice, *own),
        },
        IR::Distinct { slice: own, .. } => IR::Distinct { input: first, slice: pick(slice, *own) },
        IR::Join { left_on, right_on, cross, slice: own, .. } => IR::Join {
            input_left: first,
            input_right: inputs[1],
            left_on: copy_nodes(left_on),
            right_on: copy_nodes(right_on),
            cross: *cross,
            slice: pick(slice, *own),
        },
        IR::Cache { id, .. } => IR::Cache { input: first, id: *id },
        IR::MapFunction { function, .. } => IR::MapFunction { input: first, function: *function },
        IR::Slice { offset, len, .. } => IR::Slice { input: first, offset: *offset, len: *len },
        IR::Sink { .. } => IR::Sink { input: first },
        IR::Invalid => IR::Invalid,
    };
    assert(ir_inputs(r) =~= inputs@);
    r
}

/// Appends `node`, which only refers to existing nodes and expressions.
fn add_node(lp_arena: &mut Arena<IR>, node: IR, n_exprs: Ghost<nat>) -> (h: Node)
    requires
        plan_wf(old(lp_arena)@, n_exprs@),
        node_ok(node, old(lp_arena)@.len() as int, n_exprs@),
    ensures
        h == old(lp_arena)@.len(),
        final(lp_arena)@ == old(lp_arena)@.push(node),
        plan_wf(final(lp_arena)@, n_exprs@),
        extends(old(lp_arena)@, final(lp_arena)@),
{
    let h = lp_arena.add(node);
    assert forall|i: int| 0 <= i < lp_arena@.len() implies node_ok(
        #[trigger] lp_arena@[i],
        i,
        n_exprs@,
    ) by {
        if i < h {
            assert(lp_arena@[i] == old(lp_arena)@[i]);
        }
    }
    h
}

fn merge(prev: State, offset: i64, len: IdxSize) -> (r: State)
    ensures
        r == merged(prev, offset, len),
{
    if prev.offset == offset {
        State { offset, len: if len < prev.len { len } else { prev.len } }
    } else {
        State { offset, len }
    }
}

fn fuse(s: State, children: ChildPlan) -> (r: Step)
    ensures
        r == fused(s, children),
{
    Step {
        wrap: None,
        core: Core::Rebuild { slice: Some((s.offset, s.len as u64)), children },
    }
}

fn block(st: Option<State>) -> (r: Step)
    ensures
        r == blocked(st),
{
    Step { wrap: st, core: Core::Rebuild { slice: None, children: ChildPlan::Visit(None) } }
}

fn pass(st: Option<State>) -> (r: Step)
    ensures
        r == passed(st),
{
    Step { wrap: None, core: Core::Rebuild { slice: None, children: ChildPlan::Visit(st) } }
}

fn finish(s: State) -> (r: Step)
    ensures
        r == finished(s),
{
    Step { wrap: Some(s), core: Core::Keep }
}

impl SlicePushDown {
    pub fn new(streaming: bool, new_streaming: bool) -> (r: Self)
        ensures
            r.mode() == (Mode { streaming, new_streaming }),
    {
        SlicePushDown { streaming, new_streaming, scratch: Vec::new() }
    }

    /// The shared scratch space, cleared.
    pub fn empty_nodes_scratch_mut(&mut self) -> (r: &mut Vec<Node>)
        ensures
            r@.len() == 0,
            final(self).mode() == old(self).mode(),
    {
        self.scratch.clear();
        &mut self.scratch
    }

    fn decide_scan(&self, scan_type: FileScan, s: State) -> (r: Step)
        ensures
            r == scan_step(scan_type, s, self.mode()),
    {
        match scan_type {
            FileScan::Csv => if self.new_streaming {
                fuse(s, ChildPlan::Untouched)
            } else if s.offset >= 0 {
                Step {
                    wrap: Some(s),
                    core: Core::Rebuild {
                        slice: Some((0, s.offset as u64 + s.len as u64)),
                        children: ChildPlan::Untouched,
                    },
                }
            } else {
                finish(s)
            },
            FileScan::Parquet => fuse(s, ChildPlan::Untouched),
            FileScan::Ipc => if self.new_streaming || s.offset == 0 {
                fuse(s, ChildPlan::Untouched)
            } else {
                finish(s)
            },
            FileScan::Anonymous => if s.offset == 0 {
                fuse(s, ChildPlan::Untouched)
            } else {
                finish(s)
            },
        }
    }

    /// Applies the rule for `lp` under the pending window `st`.
    fn decide(&mut self, lp: &IR, st: Option<State>, expr_arena: &Arena<AExpr>) -> (r: Step)
        requires
            exprs_wf(expr_arena@),
            handles_in(projection_exprs(*lp), expr_arena@.len()),
        ensures
            r == step(*lp, st, old(self).mode(), expr_arena@),
            final(self).mode() == old(self).mode(),
    {
        match st {
            None => match lp {
                IR::Slice { input, offset, len } => Step {
                    wrap: None,
                    core: Core::Into(*input, State { offset: *offset, len: *len }),
                },
                IR::PythonScan { .. } | IR::Scan { .. } | IR::Union { .. } | IR::Sink { .. }
                | IR::Invalid => Step { wrap: None, core: Core::Keep },
                _ => pass(None),
            },
            Some(s) => match lp {
                IR::PythonScan { predicate, .. } => if predicate.is_none() && s.offset == 0 {
                    fuse(s, ChildPlan::Untouched)
                } else {
                    finish(s)
                },
                IR::Scan { scan_type, predicate, .. } => if predicate.is_none() {
                    self.decide_scan(*scan_type, s)
                } else {
                    finish(s)
                },
                IR::DataFrameScan { .. } => Step { wrap: None, core: Core::SliceFrame(s) },
                IR::Union { .. } => Step {
                    wrap: if self.streaming {
                        Some(s)
                    } else {
                        None
                    },
                    core: Core::Rebuild {
                        slice: Some((s.offset, s.len as u64)),
                        children: if s.offset == 0 {
                            ChildPlan::Visit(Some(s))
                        } else {
                            ChildPlan::Untouched
                        },
                    },
                },
                IR::Join { cross, .. } => if !self.streaming && !*cross {
                    fuse(s, ChildPlan::Visit(None))
                } else {
                    block(Some(s))
                },
                IR::GroupBy { .. } | IR::Distinct { .. } | IR::Sort { .. } => fuse(
                    s,
                    ChildPlan::Visit(None),
                ),
                IR::Slice { input, offset, len } => Step {
                    wrap: Some(s),
                    core: Core::Into(*input, merge(s, *offset, *len)),
                },
                IR::Filter { .. } | IR::Cache { .. } => block(Some(s)),
                IR::MapFunction { function, .. } => match function {
                    FunctionIR::Opaque { predicate_pd } => if *predicate_pd {
                        pass(Some(s))
                    } else {
                        block(Some(s))
                    },
                    _ => block(Some(s)),
                },
                IR::SimpleProjection { .. } | IR::HConcat { .. } => pass(Some(s)),
                IR::Select { exprs, .. } => {
                    let (_, allowed_with_column) = can_pushdown_slice_past_projections(
                        exprs,
                        expr_arena,
                        self.empty_nodes_scratch_mut(),
                    );
                    if allowed_with_column {
                        pass(Some(s))
                    } else {
                        block(Some(s))
                    }
                },
                IR::HStack { exprs, schema_len, .. } => {
                    let (allowed, allowed_with_column) = can_pushdown_slice_past_projections(
                        exprs,
                        expr_arena,
                        self.empty_nodes_scratch_mut(),
                    );
                    if allowed_with_column || (*schema_len > exprs.len() && allowed) {
                        pass(Some(s))
                    } else {
                        block(Some(s))
                    }
                },
                IR::Sink { .. } | IR::Invalid => finish(s),
            },
        }
    }
}

impl SlicePushDown {
    /// Rewrites every input in `ins` under the pending window `cs`, in
    /// order, and returns the new handles.
    fn visit_all(
        &mut self,
        ins: &Vec<Node>,
        cs: Option<State>,
        parent: Ghost<Node>,
        lp_arena: &mut Arena<IR>,
        expr_arena: &Arena<AExpr>,
    ) -> (r: Vec<Node>)
        requires
            plan_wf(old(lp_arena)@, expr_arena@.len()),
            exprs_wf(expr_arena@),
            parent@ <= old(lp_arena)@.len(),
            forall|j: int| 0 <= j < ins@.len() ==> #[trigger] ins@[j] < parent@,
        ensures
            final(self).mode() == old(self).mode(),
            plan_wf(final(lp_arena)@, expr_arena@.len()),
            extends(old(lp_arena)@, final(lp_arena)@),
            r@.len() == ins@.len(),
            forall|j: int|
                0 <= j < ins@.len() ==> pushed(
                    final(lp_arena)@,
                    #[trigger] ins@[j],
                    cs,
                    old(self).mode(),
                    expr_arena@,
                    r@[j],
                ),
        decreases parent@, 0usize,
    {
        let ghost a0 = lp_arena@;
        let ghost m = self.mode();
        let mut out: Vec<Node> = Vec::new();
        let mut i: usize = 0;
        while i < ins.len()
            invariant
                self.mode() == m,
                m == old(self).mode(),
                plan_wf(lp_arena@, expr_arena@.len()),
                exprs_wf(expr_arena@),
                extends(a0, lp_arena@),
                parent@ <= a0.len(),
                forall|j: int| 0 <= j < ins@.len() ==> #[trigger] ins@[j] < parent@,
                i <= ins@.len(),
                out@.len() == i,
                forall|j: int|
                    0 <= j < i ==> pushed(
                        lp_arena@,
                        #[trigger] ins@[j],
                        cs,
                        self.mode(),
                        expr_arena@,
                        out@[j],
                    ),
            decreases ins@.len() - i,
        {
            let ghost before = lp_arena@;
            let h = self.pushdown(ins[i], cs, lp_arena, expr_arena);
            assert forall|j: int| 0 <= j < i implies pushed(
                lp_arena@,
                #[trigger] ins@[j],
                cs,
                self.mode(),
                expr_arena@,
                out@[j],
            ) by {
                lemma_pushed_extends(before, lp_arena@, ins@[j], cs, self.mode(), expr_arena@, out@[j]);
            }
            out.push(h);
            i = i + 1;
        }
        out
    }

    /// Builds the node at `c` anew: its own window set to `slice` where that
    /// is `Some`, and its inputs handled as `children` says.
    fn rebuild(
        &mut self,
        c: Node,
        slice: Option<(i64, u64)>,
        children: ChildPlan,
        lp_arena: &mut Arena<IR>,
        expr_arena: &Arena<AExpr>,
    ) -> (hc: Node)
        requires
            plan_wf(old(lp_arena)@, expr_arena@.len()),
            exprs_wf(expr_arena@),
            c < old(lp_arena)@.len(),
            old(lp_arena)@[c as int] is DataFrameScan ==> slice is None,
            slice is Some ==> has_slice_field(old(lp_arena)@[c as int]),
            old(lp_arena)@[c as int] is PythonScan ==> (slice matches Some(p) ==> p.0 == 0),
        ensures
            final(self).mode() == old(self).mode(),
            plan_wf(final(lp_arena)@, expr_arena@.len()),
            extends(old(lp_arena)@, final(lp_arena)@),
            hc < final(lp_arena)@.len(),
            ({
                let a = final(lp_arena)@;
                let lp = old(lp_arena)@[c as int];
                if slice is None && ir_inputs(lp).len() == 0 {
                    hc == c
                } else {
                    &&& same_shape(lp, a[hc as int])
                    &&& ir_slice(a[hc as int]) == match slice {
                        Some(p) => Some(p),
                        None => ir_slice(lp),
                    }
                    &&& match children {
                        ChildPlan::Untouched => ir_inputs(a[hc as int]) == ir_inputs(lp),
                        ChildPlan::Visit(cs) => forall|j: int|
                            0 <= j < ir_inputs(lp).len() ==> {
                                let k = #[trigger] ir_inputs(lp)[j];
                                k < c && pushed(a, k, cs, old(self).mode(), expr_arena@, ir_inputs(a[hc as int])[j])
                            },
                    }
                }
            }),
        decreases c, 1usize,
    {
        let ghost a0 = lp_arena@;
        let ghost lp = a0[c as int];
        let ins = inputs_of(lp_arena.get(c));
        assert(node_ok(lp, c as int, expr_arena@.len()));
        if slice.is_none() && ins.len() == 0 {
            return c;
        }
        let new_ins = match children {
            ChildPlan::Untouched => ins,
            ChildPlan::Visit(cs) => self.visit_all(&ins, cs, Ghost(c), lp_arena, expr_arena),
        };
        assert(lp_arena@[c as int] == lp);
        let node = rebuild_node(lp_arena.get(c), new_ins, slice);
        assert(node_ok(node, lp_arena@.len() as int, expr_arena@.len())) by {
            assert forall|j: int| 0 <= j < ir_inputs(node).len() implies (#[trigger] ir_inputs(
                node,
            )[j] as int) < lp_arena@.len() by {
                if let ChildPlan::Visit(cs) = children {
                    assert(pushed(lp_arena@, ins@[j], cs, self.mode(), expr_arena@, new_ins@[j]));
                } else {
                    assert(ins@[j] < c);
                }
            }
        }
        let ghost mid = lp_arena@;
        let hc = add_node(lp_arena, node, Ghost(expr_arena@.len()));
        if let ChildPlan::Visit(cs) = children {
            assert forall|j: int| 0 <= j < ir_inputs(lp).len() implies {
                let k = #[trigger] ir_inputs(lp)[j];
                k < c && pushed(lp_arena@, k, cs, self.mode(), expr_arena@, ir_inputs(lp_arena@[hc as int])[j])
            } by {
                lemma_pushed_extends(mid, lp_arena@, ins@[j], cs, self.mode(), expr_arena@, new_ins@[j]);
            }
        }
        hc
    }

    /// Rewrites the subtree at `c` under the pending window `st` and returns
    /// the handle of the result; the arena only grows.
    fn pushdown(
        &mut self,
        c: Node,
        st: Option<State>,
        lp_arena: &mut Arena<IR>,
        expr_arena: &Arena<AExpr>,
    ) -> (h: Node)
        requires
            plan_wf(old(lp_arena)@, expr_arena@.len()),
            exprs_wf(expr_arena@),
            c < old(lp_arena)@.len(),
        ensures
            final(self).mode() == old(self).mode(),
            plan_wf(final(lp_arena)@, expr_arena@.len()),
            extends(old(lp_arena)@, final(lp_arena)@),
            pushed(final(lp_arena)@, c, st, old(self).mode(), expr_arena@, h),
        decreases c, 2usize,
    {
        let ghost a0 = lp_arena@;
        let ghost lp = a0[c as int];
        assert(node_ok(lp, c as int, expr_arena@.len()));
        let d = self.decide(lp_arena.get(c), st, expr_arena);
        let hc = match d.core {
            Core::Keep => c,
            Core::Rebuild { slice, children } => self.rebuild(
                c,
                slice,
                children,
                lp_arena,
                expr_arena,
            ),
            Core::Into(n, s2) => {
                assert(ir_inputs(lp)[0] == n);
                self.pushdown(n, Some(s2), lp_arena, expr_arena)
            },
            Core::SliceFrame(s) => {
                let node = match lp_arena.get(c) {
                    IR::DataFrameScan { df } => IR::DataFrameScan { df: df.slice(s.offset, s.len) },
                    _ => IR::Invalid,
                };
                add_node(lp_arena, node, Ghost(expr_arena@.len()))
            },
        };
        let ghost mid = lp_arena@;
        assert(hc < mid.len()) by {
            if let Core::Into(n, s2) = d.core {
                assert(pushed(mid, n, Some(s2), self.mode(), expr_arena@, hc));
            }
        }
        match d.wrap {
            Some(w) => {
                let h = add_node(
                    lp_arena,
                    IR::Slice { input: hc, offset: w.offset, len: w.len },
                    Ghost(expr_arena@.len()),
                );
                let ghost a = lp_arena@;
                assert(a[c as int] == lp);
                assert(a[hc as int] == mid[hc as int]);
                assert(core_handle(a, d.wrap, h) == hc);
                proof {
                    match d.core {
                        Core::Rebuild { slice, children } => {
                            if let ChildPlan::Visit(cs) = children {
                                if !(slice is None && ir_inputs(lp).len() == 0) {
                                    assert forall|j: int| 0 <= j < ir_inputs(lp).len() implies {
                                        let k = #[trigger] ir_inputs(lp)[j];
                                        k < c && pushed(a, k, cs, self.mode(), expr_arena@, ir_inputs(a[hc as int])[j])
                                    } by {
                                        let k = ir_inputs(lp)[j];
                                        lemma_pushed_extends(
                                            mid,
                                            a,
                                            k,
                                            cs,
                                            self.mode(),
                                            expr_arena@,
                                            ir_inputs(mid[hc as int])[j],
                                        );
                                    }
                                }
                            }
                        },
                        Core::Into(n, s2) => {
                            lemma_pushed_extends(mid, a, n, Some(s2), self.mode(), expr_arena@, hc);
                        },
                        _ => {},
                    }
                }
                h
            },
            None => hc,
        }
    }

    /// Runs the pass on the plan rooted at `logical_plan` and returns the
    /// root of the rewritten plan. Nodes are only appended: the input plan
    /// stays in the arena unchanged.
    pub fn optimize(
        &mut self,
        logical_plan: Node,
        lp_arena: &mut Arena<IR>,
        expr_arena: &Arena<AExpr>,
    ) -> (r: Node)
        requires
            plan_wf(old(lp_arena)@, expr_arena@.len()),
            exprs_wf(expr_arena@),
            logical_plan < old(lp_arena)@.len(),
        ensures
            final(self).mode() == old(self).mode(),
            plan_wf(final(lp_arena)@, expr_arena@.len()),
            extends(old(lp_arena)@, final(lp_arena)@),
            pushed(final(lp_arena)@, logical_plan, None, old(self).mode(), expr_arena@, r),
    {
        self.pushdown(logical_plan, None, lp_arena, expr_arena)
    }
}

} // verus!
