use vstd::prelude::*;

use crate::arena::Node;
use crate::expr::{handles_in, AExpr};

verus! {

/// Row count type of slices.
pub type IdxSize = u32;

/// A window over the rows a subtree produces: `len` rows from `offset`; a
/// negative offset counts from the end.
#[derive(Clone, Copy, PartialEq, Eq, Structural, Debug)]
pub struct State {
    pub offset: i64,
    pub len: IdxSize,
}

#[derive(Clone, Copy, PartialEq, Eq, Structural, Debug)]
pub enum FileScan {
    Csv,
    Parquet,
    Ipc,
    /// A format that only supports reading a prefix.
    Anonymous,
}

#[derive(Clone, Copy, PartialEq, Eq, Structural, Debug)]
pub enum FunctionIR {
    Explode,
    Unpivot,
    /// Any other map function; `predicate_pd` tells whether it lets a
    /// predicate pass.
    Opaque { predicate_pd: bool },
}

/// Rows held in memory, column by column.
pub struct DataFrame {
    pub columns: Vec<Vec<i64>>,
}

/// A node of a logical plan; its inputs are handles into the plan arena and
/// its expressions handles into the expression arena. A `slice` field is
/// the operator's own `(offset, length)` window.
#[allow(inconsistent_fields)]
pub enum IR {
    PythonScan { predicate: Option<Node>, n_rows: Option<u64> },
    Scan { scan_type: FileScan, predicate: Option<Node>, slice: Option<(i64, u64)> },
    DataFrameScan { df: DataFrame },
    Union { inputs: Vec<Node>, slice: Option<(i64, u64)> },
    HConcat { inputs: Vec<Node> },
    Select { input: Node, exprs: Vec<Node> },
    HStack { input: Node, exprs: Vec<Node>, schema_len: usize },
    SimpleProjection { input: Node, n_columns: usize },
    Filter { input: Node, predicate: Node },
    Sort { input: Node, by_column: Vec<Node>, slice: Option<(i64, u64)> },
    GroupBy { input: Node, keys: Vec<Node>, aggs: Vec<Node>, slice: Option<(i64, u64)> },
    Distinct { input: Node, slice: Option<(i64, u64)> },
    Join {
        input_left: Node,
        input_right: Node,
        left_on: Vec<Node>,
        right_on: Vec<Node>,
        cross: bool,
        slice: Option<(i64, u64)>,
    },
    Cache { input: Node, id: u64 },
    MapFunction { input: Node, function: FunctionIR },
    Slice { input: Node, offset: i64, len: IdxSize },
    Sink { input: Node },
    Invalid,
}

/// The input handles of a node, in order.
pub open spec fn ir_inputs(ir: IR) -> Seq<Node> {
    match ir {
        IR::Union { inputs, .. } => inputs@,
        IR::HConcat { inputs } => inputs@,
        IR::Select { input, .. } => seq![input],
        IR::HStack { input, .. } => seq![input],
        IR::SimpleProjection { input, .. } => seq![input],
        IR::Filter { input, .. } => seq![input],
        IR::Sort { input, .. } => seq![input],
        IR::GroupBy { input, .. } => seq![input],
        IR::Distinct { input, .. } => seq![input],
        IR::Join { input_left, input_right, .. } => seq![input_left, input_right],
        IR::Cache { input, .. } => seq![input],
        IR::MapFunction { input, .. } => seq![input],
        IR::Slice { input, .. } => seq![input],
        IR::Sink { input } => seq![input],
        _ => Seq::empty(),
    }
}

/// The operator's own window, where it has one.
pub open spec fn ir_slice(ir: IR) -> Option<(i64, u64)> {
    match ir {
        IR::PythonScan { n_rows, .. } => match n_rows {
            Some(n) => Some((0i64, n)),
            None => None,
        },
        IR::Scan { slice, .. } => slice,
        IR::Union { slice, .. } => slice,
        IR::Sort { slice, .. } => slice,
        IR::GroupBy { slice, .. } => slice,
        IR::Distinct { slice, .. } => slice,
        IR::Join { slice, .. } => slice,
        _ => None,
    }
}

pub open spec fn has_slice_field(ir: IR) -> bool {
    ||| ir is PythonScan
    ||| ir is Scan
    ||| ir is Union
    ||| ir is Sort
    ||| ir is GroupBy
    ||| ir is Distinct
    ||| ir is Join
}

/// `x` and `y` are the same operator with the same arguments, apart from
/// their input handles (equally many) and their own window.
pub open spec fn same_shape(x: IR, y: IR) -> bool {
    &&& ir_inputs(x).len() == ir_inputs(y).len()
    &&& match (x, y) {
        (IR::PythonScan { predicate: p1, .. }, IR::PythonScan { predicate: p2, .. }) => p1 == p2,
        (
            IR::Scan { scan_type: t1, predicate: p1, .. },
            IR::Scan { scan_type: t2, predicate: p2, .. },
        ) => t1 == t2 && p1 == p2,
        (IR::DataFrameScan { df: d1 }, IR::DataFrameScan { df: d2 }) => frame_view(d1)
            == frame_view(d2),
        (IR::Union { .. }, IR::Union { .. }) => true,
        (IR::HConcat { .. }, IR::HConcat { .. }) => true,
        (IR::Select { exprs: e1, .. }, IR::Select { exprs: e2, .. }) => e1@ == e2@,
        (
            IR::HStack { exprs: e1, schema_len: s1, .. },
            IR::HStack { exprs: e2, schema_len: s2, .. },
        ) => e1@ == e2@ && s1 == s2,
        (
            IR::SimpleProjection { n_columns: n1, .. },
            IR::SimpleProjection { n_columns: n2, .. },
        ) => n1 == n2,
        (IR::Filter { predicate: p1, .. }, IR::Filter { predicate: p2, .. }) => p1 == p2,
        (IR::Sort { by_column: b1, .. }, IR::Sort { by_column: b2, .. }) => b1@ == b2@,
        (
            IR::GroupBy { keys: k1, aggs: a1, .. },
            IR::GroupBy { keys: k2, aggs: a2, .. },
        ) => k1@ == k2@ && a1@ == a2@,
        (IR::Distinct { .. }, IR::Distinct { .. }) => true,
        (
            IR::Join { left_on: l1, right_on: r1, cross: c1, .. },
            IR::Join { left_on: l2, right_on: r2, cross: c2, .. },
        ) => l1@ == l2@ && r1@ == r2@ && c1 == c2,
        (IR::Cache { id: i1, .. }, IR::Cache { id: i2, .. }) => i1 == i2,
        (IR::MapFunction { function: f1, .. }, IR::MapFunction { function: f2, .. }) => f1 == f2,
        (IR::Slice { offset: o1, len: l1, .. }, IR::Slice { offset: o2, len: l2, .. }) => o1 == o2
            && l1 == l2,
        (IR::Sink { .. }, IR::Sink { .. }) => true,
        (IR::Invalid, IR::Invalid) => true,
        _ => false,
    }
}

pub open spec fn frame_view(df: DataFrame) -> Seq<Seq<i64>> {
    Seq::new(df.columns@.len(), |j: int| df.columns@[j]@)
}

/// The expression handles that slice pushdown reads.
pub open spec fn projection_exprs(ir: IR) -> Seq<Node> {
    match ir {
        IR::Select { exprs, .. } => exprs@,
        IR::HStack { exprs, .. } => exprs@,
        _ => Seq::empty(),
    }
}

/// A node stored under handle `i` only refers to earlier plan nodes and to
/// existing expressions.
pub open spec fn node_ok(ir: IR, i: int, n_exprs: nat) -> bool {
    &&& forall|j: int| 0 <= j < ir_inputs(ir).len() ==> (#[trigger] ir_inputs(ir)[j] as int) < i
    &&& handles_in(projection_exprs(ir), n_exprs)
}

pub open spec fn plan_wf(a: Seq<IR>, n_exprs: nat) -> bool {
    forall|i: int| 0 <= i < a.len() ==> node_ok(#[trigger] a[i], i, n_exprs)
}

/// `b` extends `a`: it keeps every node of `a` under the same handle.
pub open spec fn extends(a: Seq<IR>, b: Seq<IR>) -> bool {
    a.len() <= b.len() && forall|i: int| 0 <= i < a.len() ==> #[trigger] b[i] == a[i]
}

/// Start and end of the rows that window `(offset, len)` keeps out of `n`.
pub open spec fn window(offset: int, len: int, n: int) -> (int, int) {
    let start = if offset < 0 { offset + n } else { offset };
    let stop = start + len;
    let s = if start < 0 { 0 } else if start > n { n } else { start };
    let e = if stop < 0 { 0 } else if stop > n { n } else { stop };
    (s, e)
}

pub open spec fn slice_seq(v: Seq<i64>, s: State) -> Seq<i64> {
    let w = window(s.offset as int, s.len as int, v.len() as int);
    v.subrange(w.0, w.1)
}

/// `d2` holds the rows of `d1` that window `s` keeps, in every column.
pub open spec fn frame_sliced(d1: DataFrame, d2: DataFrame, s: State) -> bool {
    &&& d2.columns@.len() == d1.columns@.len()
    &&& forall|j: int|
        0 <= j < d1.columns@.len() ==> #[trigger] d2.columns@[j]@ == slice_seq(d1.columns@[j]@, s)
}

/// Bounds of window `(offset, len)` over `n` rows, as `window` gives them.
pub fn window_bounds(offset: i64, len: IdxSize, n: usize) -> (r: (usize, usize))
    ensures
        r.0 as int == window(offset as int, len as int, n as int).0,
        r.1 as int == window(offset as int, len as int, n as int).1,
        r.0 <= r.1 <= n,
{
    let nn = n as i128;
    let start: i128 = if offset < 0 {
        offset as i128 + nn
    } else {
        offset as i128
    };
    let stop: i128 = start + len as i128;
    let s: i128 = if start < 0 {
        0
    } else if start > nn {
        nn
    } else {
        start
    };
    let e: i128 = if stop < 0 {
        0
    } else if stop > nn {
        nn
    } else {
        stop
    };
    (s as usize, e as usize)
}

impl DataFrame {
    /// The rows that window `(offset, len)` keeps, in every column.
    pub fn slice(&self, offset: i64, len: IdxSize) -> (r: DataFrame)
        ensures
            frame_sliced(*self, r, State { offset, len }),
    {
        let st = Ghost(State { offset, len });
        let mut columns: Vec<Vec<i64>> = Vec::new();
        let mut j: usize = 0;
        while j < self.columns.len()
            invariant
                j <= self.columns@.len(),
                st@ == (State { offset, len }),
                columns@.len() == j,
                forall|k: int|
                    0 <= k < j ==> #[trigger] columns@[k]@ == slice_seq(self.columns@[k]@, st@),
            decreases self.columns@.len() - j,
        {
            let col = &self.columns[j];
            let (b, e) = window_bounds(offset, len, col.len());
            assert(slice_seq(col@, st@) == col@.subrange(b as int, e as int));
            let mut out: Vec<i64> = Vec::new();
            let mut i: usize = b;
            while i < e
                invariant
                    b <= i <= e,
                    e <= col@.len(),
                    out@ == col@.subrange(b as int, i as int),
                    slice_seq(col@, st@) == col@.subrange(b as int, e as int),
                decreases e - i,
            {
                out.push(col[i]);
                i = i + 1;
                assert(out@ =~= col@.subrange(b as int, i as int));
            }
            assert(out@ == slice_seq(col@, st@));
            columns.push(out);
            j = j + 1;
        }
        DataFrame { columns }
    }
}

} // verus!
