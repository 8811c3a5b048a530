use slice_pushdown_plan::arena::{Arena, Node};
use slice_pushdown_plan::expr::{can_pushdown_slice_past_projections, AExpr, LiteralValue};
use slice_pushdown_plan::plan::{DataFrame, FileScan, FunctionIR, IR};
use slice_pushdown_plan::slice_pushdown::SlicePushDown;

fn parquet(arena: &mut Arena<IR>) -> Node {
    arena.add(IR::Scan { scan_type: FileScan::Parquet, predicate: None, slice: None })
}

fn frame(arena: &mut Arena<IR>, values: Vec<i64>) -> Node {
    arena.add(IR::DataFrameScan { df: DataFrame { columns: vec![values] } })
}

fn slice(arena: &mut Arena<IR>, input: Node, offset: i64, len: u32) -> Node {
    arena.add(IR::Slice { input, offset, len })
}

fn run(streaming: bool, new_streaming: bool, root: Node, lp: &mut Arena<IR>, ex: &Arena<AExpr>) -> Node {
    let mut pass = SlicePushDown::new(streaming, new_streaming);
    pass.optimize(root, lp, ex)
}

fn scan_slice(lp: &Arena<IR>, h: Node) -> Option<(i64, u64)> {
    match lp.get(h) {
        IR::Scan { slice, .. } => *slice,
        _ => panic!("expected a scan"),
    }
}

fn frame_values(lp: &Arena<IR>, h: Node) -> Vec<i64> {
    match lp.get(h) {
        IR::DataFrameScan { df } => df.columns[0].clone(),
        _ => panic!("expected a frame"),
    }
}

fn single_input(lp: &Arena<IR>, h: Node) -> Node {
    match lp.get(h) {
        IR::Select { input, .. }
        | IR::HStack { input, .. }
        | IR::Filter { input, .. }
        | IR::Distinct { input, .. }
        | IR::Sort { input, .. }
        | IR::GroupBy { input, .. }
        | IR::MapFunction { input, .. } => *input,
        _ => panic!("expected a single-input node"),
    }
}

fn explicit_slice(lp: &Arena<IR>, h: Node) -> (Node, i64, u32) {
    match lp.get(h) {
        IR::Slice { input, offset, len } => (*input, *offset, *len),
        _ => panic!("expected an explicit slice"),
    }
}

#[test]
fn select_of_column_takes_slice_below() {
    let mut ex: Arena<AExpr> = Arena::new();
    let a = ex.add(AExpr::Column("a".to_string()));
    let mut lp: Arena<IR> = Arena::new();
    let df = frame(&mut lp, vec![10, 11, 12, 13]);
    let sel = lp.add(IR::Select { input: df, exprs: vec![a] });
    let root = slice(&mut lp, sel, 0, 2);
    let h = run(false, false, root, &mut lp, &ex);
    assert!(matches!(lp.get(h), IR::Select { .. }));
    let below = single_input(&lp, h);
    assert_eq!(frame_values(&lp, below), vec![10, 11]);
}

#[test]
fn select_of_array_literal_blocks_slice() {
    let mut ex: Arena<AExpr> = Arena::new();
    let lit = ex.add(AExpr::Literal(LiteralValue::Series(vec![1, 2, 3])));
    let c = ex.add(AExpr::Alias(lit, "c".to_string()));
    let mut lp: Arena<IR> = Arena::new();
    let df = frame(&mut lp, vec![10, 11, 12, 13]);
    let sel = lp.add(IR::Select { input: df, exprs: vec![c] });
    let root = slice(&mut lp, sel, 0, 0);
    let h = run(false, false, root, &mut lp, &ex);
    let (inner, offset, len) = explicit_slice(&lp, h);
    assert_eq!((offset, len), (0, 0));
    assert!(matches!(lp.get(inner), IR::Select { .. }));
    let below = single_input(&lp, inner);
    assert_eq!(below, df);
    assert_eq!(frame_values(&lp, below), vec![10, 11, 12, 13]);
}

#[test]
fn projection_oracle_results() {
    let mut ex: Arena<AExpr> = Arena::new();
    let a = ex.add(AExpr::Column("a".to_string()));
    let lit = ex.add(AExpr::Literal(LiteralValue::Series(vec![1, 2, 3])));
    let scalar = ex.add(AExpr::Literal(LiteralValue::Scalar(7)));
    let sum = ex.add(AExpr::Function { inputs: vec![a], elementwise: false });
    let plus = ex.add(AExpr::Function { inputs: vec![a, lit], elementwise: true });
    let nested = ex.add(AExpr::Function { inputs: vec![plus, scalar], elementwise: true });
    let blocked_deep = ex.add(AExpr::Function { inputs: vec![scalar, sum], elementwise: true });
    let mut scratch = vec![99];
    let mut check = |exprs: Vec<Node>| can_pushdown_slice_past_projections(&exprs, &ex, &mut scratch);
    assert_eq!(check(vec![a]), (true, true));
    assert_eq!(check(vec![lit]), (false, false));
    assert_eq!(check(vec![scalar]), (true, false));
    assert_eq!(check(vec![a, sum]), (false, false));
    assert_eq!(check(vec![plus]), (true, true));
    assert_eq!(check(vec![nested, scalar]), (true, true));
    assert_eq!(check(vec![blocked_deep]), (false, false));
    assert_eq!(check(vec![]), (true, false));
}

#[test]
fn union_at_offset_zero_pushes_into_inputs() {
    let ex: Arena<AExpr> = Arena::new();
    let mut lp: Arena<IR> = Arena::new();
    let x = parquet(&mut lp);
    let y = parquet(&mut lp);
    let u = lp.add(IR::Union { inputs: vec![x, y], slice: None });
    let root = slice(&mut lp, u, 0, 4);
    let h = run(false, false, root, &mut lp, &ex);
    match lp.get(h) {
        IR::Union { inputs, slice } => {
            assert_eq!(*slice, Some((0, 4)));
            assert_eq!(inputs.len(), 2);
            assert_eq!(scan_slice(&lp, inputs[0]), Some((0, 4)));
            assert_eq!(scan_slice(&lp, inputs[1]), Some((0, 4)));
        },
        _ => panic!("expected a union"),
    }
}

#[test]
fn union_at_nonzero_offset_keeps_inputs() {
    let ex: Arena<AExpr> = Arena::new();
    let mut lp: Arena<IR> = Arena::new();
    let x = parquet(&mut lp);
    let y = parquet(&mut lp);
    let u = lp.add(IR::Union { inputs: vec![x, y], slice: None });
    let root = slice(&mut lp, u, 5, 4);
    let h = run(false, false, root, &mut lp, &ex);
    match lp.get(h) {
        IR::Union { inputs, slice } => {
            assert_eq!(*slice, Some((5, 4)));
            assert_eq!(*inputs, vec![x, y]);
            assert_eq!(scan_slice(&lp, x), None);
        },
        _ => panic!("expected a union"),
    }
}

#[test]
fn union_under_legacy_streaming_keeps_explicit_slice() {
    let ex: Arena<AExpr> = Arena::new();
    let mut lp: Arena<IR> = Arena::new();
    let x = parquet(&mut lp);
    let u = lp.add(IR::Union { inputs: vec![x], slice: None });
    let root = slice(&mut lp, u, 0, 3);
    let h = run(true, false, root, &mut lp, &ex);
    let (inner, offset, len) = explicit_slice(&lp, h);
    assert_eq!((offset, len), (0, 3));
    assert!(matches!(lp.get(inner), IR::Union { slice: Some((0, 3)), .. }));
}

#[test]
fn hconcat_pushes_window_into_every_input() {
    let ex: Arena<AExpr> = Arena::new();
    let mut lp: Arena<IR> = Arena::new();
    let x = frame(&mut lp, vec![1, 2, 3, 4, 5]);
    let y = frame(&mut lp, vec![6, 7, 8, 9, 10]);
    let hc = lp.add(IR::HConcat { inputs: vec![x, y] });
    let root = slice(&mut lp, hc, 1, 2);
    let h = run(false, false, root, &mut lp, &ex);
    match lp.get(h) {
        IR::HConcat { inputs } => {
            assert_eq!(frame_values(&lp, inputs[0]), vec![2, 3]);
            assert_eq!(frame_values(&lp, inputs[1]), vec![7, 8]);
        },
        _ => panic!("expected a horizontal concatenation"),
    }
}

#[test]
fn filter_keeps_explicit_slice_and_restarts_input() {
    let ex: Arena<AExpr> = Arena::new();
    let mut lp: Arena<IR> = Arena::new();
    let scan = parquet(&mut lp);
    let inner = slice(&mut lp, scan, 0, 1);
    let f = lp.add(IR::Filter { input: inner, predicate: 0 });
    let root = slice(&mut lp, f, 2, 3);
    let h = run(false, false, root, &mut lp, &ex);
    let (below, offset, len) = explicit_slice(&lp, h);
    assert_eq!((offset, len), (2, 3));
    assert!(matches!(lp.get(below), IR::Filter { predicate: 0, .. }));
    let child = single_input(&lp, below);
    assert_eq!(scan_slice(&lp, child), Some((0, 1)));
}

#[test]
fn distinct_takes_window_as_its_own() {
    let ex: Arena<AExpr> = Arena::new();
    let mut lp: Arena<IR> = Arena::new();
    let scan = parquet(&mut lp);
    let d = lp.add(IR::Distinct { input: scan, slice: None });
    let root = slice(&mut lp, d, 2, 3);
    let h = run(false, false, root, &mut lp, &ex);
    match lp.get(h) {
        IR::Distinct { input, slice } => {
            assert_eq!(*slice, Some((2, 3)));
            assert_eq!(*input, scan);
            assert_eq!(scan_slice(&lp, scan), None);
        },
        _ => panic!("expected a distinct"),
    }
}

#[test]
fn sort_and_group_by_take_window() {
    let ex: Arena<AExpr> = Arena::new();
    let mut lp: Arena<IR> = Arena::new();
    let scan = parquet(&mut lp);
    let s = lp.add(IR::Sort { input: scan, by_column: vec![0], slice: None });
    let root = slice(&mut lp, s, 1, 1);
    let h = run(false, false, root, &mut lp, &ex);
    assert!(matches!(lp.get(h), IR::Sort { slice: Some((1, 1)), .. }));

    let g = lp.add(IR::GroupBy { input: scan, keys: vec![0], aggs: vec![], slice: None });
    let root = slice(&mut lp, g, -3, 2);
    let h = run(false, false, root, &mut lp, &ex);
    assert!(matches!(lp.get(h), IR::GroupBy { slice: Some((-3, 2)), .. }));
}

#[test]
fn nested_slices_with_equal_offsets_merge() {
    let ex: Arena<AExpr> = Arena::new();
    let mut lp: Arena<IR> = Arena::new();
    let scan = parquet(&mut lp);
    let inner = slice(&mut lp, scan, 2, 5);
    let root = slice(&mut lp, inner, 2, 3);
    let h = run(false, false, root, &mut lp, &ex);
    let (below, offset, len) = explicit_slice(&lp, h);
    assert_eq!((offset, len), (2, 3));
    assert_eq!(scan_slice(&lp, below), Some((2, 3)));
}

#[test]
fn nested_slices_with_other_offsets_use_inner_window() {
    let ex: Arena<AExpr> = Arena::new();
    let mut lp: Arena<IR> = Arena::new();
    let scan = parquet(&mut lp);
    let inner = slice(&mut lp, scan, 4, 10);
    let root = slice(&mut lp, inner, 1, 2);
    let h = run(false, false, root, &mut lp, &ex);
    let (below, offset, len) = explicit_slice(&lp, h);
    assert_eq!((offset, len), (1, 2));
    assert_eq!(scan_slice(&lp, below), Some((4, 10)));
}

#[test]
fn csv_scan_rules() {
    let ex: Arena<AExpr> = Arena::new();
    let mut lp: Arena<IR> = Arena::new();
    let csv = lp.add(IR::Scan { scan_type: FileScan::Csv, predicate: None, slice: None });
    let root = slice(&mut lp, csv, 3, 4);
    let h = run(false, false, root, &mut lp, &ex);
    let (below, offset, len) = explicit_slice(&lp, h);
    assert_eq!((offset, len), (3, 4));
    assert_eq!(scan_slice(&lp, below), Some((0, 7)));

    let h = run(false, true, root, &mut lp, &ex);
    assert_eq!(scan_slice(&lp, h), Some((3, 4)));

    let root = slice(&mut lp, csv, -2, 4);
    let h = run(false, false, root, &mut lp, &ex);
    let (below, offset, len) = explicit_slice(&lp, h);
    assert_eq!((offset, len), (-2, 4));
    assert_eq!(below, csv);
}

#[test]
fn other_scan_rules() {
    let ex: Arena<AExpr> = Arena::new();
    let mut lp: Arena<IR> = Arena::new();
    let ipc = lp.add(IR::Scan { scan_type: FileScan::Ipc, predicate: None, slice: None });
    let root = slice(&mut lp, ipc, 3, 4);
    let h = run(false, false, root, &mut lp, &ex);
    assert_eq!(explicit_slice(&lp, h), (ipc, 3, 4));
    let h = run(false, true, root, &mut lp, &ex);
    assert_eq!(scan_slice(&lp, h), Some((3, 4)));

    let any = lp.add(IR::Scan { scan_type: FileScan::Anonymous, predicate: None, slice: None });
    let root = slice(&mut lp, any, 0, 6);
    let h = run(false, false, root, &mut lp, &ex);
    assert_eq!(scan_slice(&lp, h), Some((0, 6)));

    let filtered = lp.add(IR::Scan { scan_type: FileScan::Parquet, predicate: Some(0), slice: None });
    let root = slice(&mut lp, filtered, 0, 6);
    let h = run(false, false, root, &mut lp, &ex);
    assert_eq!(explicit_slice(&lp, h), (filtered, 0, 6));

    let py = lp.add(IR::PythonScan { predicate: None, n_rows: None });
    let root = slice(&mut lp, py, 0, 9);
    let h = run(false, false, root, &mut lp, &ex);
    assert!(matches!(lp.get(h), IR::PythonScan { n_rows: Some(9), .. }));
}

#[test]
fn frame_slice_counts_negative_offset_from_end() {
    let df = DataFrame { columns: vec![vec![1, 2, 3, 4, 5], vec![6, 7, 8, 9, 10]] };
    let s = df.slice(-2, 5);
    assert_eq!(s.columns, vec![vec![4, 5], vec![9, 10]]);
    let s = df.slice(4, 10);
    assert_eq!(s.columns, vec![vec![5], vec![10]]);
    let s = df.slice(7, 1);
    assert_eq!(s.columns, vec![Vec::<i64>::new(), Vec::new()]);
    let s = df.slice(-9, 3);
    assert_eq!(s.columns, vec![Vec::<i64>::new(), Vec::new()]);
    let s = df.slice(-9, 6);
    assert_eq!(s.columns, vec![vec![1, 2], vec![6, 7]]);
}

#[test]
fn join_rules() {
    let ex: Arena<AExpr> = Arena::new();
    let mut lp: Arena<IR> = Arena::new();
    let x = parquet(&mut lp);
    let y = parquet(&mut lp);
    let j = lp.add(IR::Join {
        input_left: x,
        input_right: y,
        left_on: vec![],
        right_on: vec![],
        cross: false,
        slice: None,
    });
    let root = slice(&mut lp, j, 1, 2);
    let h = run(false, false, root, &mut lp, &ex);
    assert!(matches!(lp.get(h), IR::Join { slice: Some((1, 2)), .. }));
    let h = run(true, false, root, &mut lp, &ex);
    let (below, offset, len) = explicit_slice(&lp, h);
    assert_eq!((offset, len), (1, 2));
    assert!(matches!(lp.get(below), IR::Join { slice: None, .. }));

    let cj = lp.add(IR::Join {
        input_left: x,
        input_right: y,
        left_on: vec![],
        right_on: vec![],
        cross: true,
        slice: None,
    });
    let root = slice(&mut lp, cj, 1, 2);
    let h = run(false, false, root, &mut lp, &ex);
    let (below, _, _) = explicit_slice(&lp, h);
    assert!(matches!(lp.get(below), IR::Join { cross: true, slice: None, .. }));
}

#[test]
fn hstack_with_surviving_column_passes_scalar_literal() {
    let mut ex: Arena<AExpr> = Arena::new();
    let lit = ex.add(AExpr::Literal(LiteralValue::Scalar(1)));
    let mut lp: Arena<IR> = Arena::new();
    let df = frame(&mut lp, vec![1, 2, 3]);
    let hs = lp.add(IR::HStack { input: df, exprs: vec![lit], schema_len: 2 });
    let root = slice(&mut lp, hs, 1, 1);
    let h = run(false, false, root, &mut lp, &ex);
    let below = single_input(&lp, h);
    assert_eq!(frame_values(&lp, below), vec![2]);

    let only = lp.add(IR::HStack { input: df, exprs: vec![lit], schema_len: 1 });
    let root = slice(&mut lp, only, 1, 1);
    let h = run(false, false, root, &mut lp, &ex);
    let (below, _, _) = explicit_slice(&lp, h);
    assert!(matches!(lp.get(below), IR::HStack { .. }));
}

#[test]
fn map_functions_pass_or_block() {
    let ex: Arena<AExpr> = Arena::new();
    let mut lp: Arena<IR> = Arena::new();
    let scan = parquet(&mut lp);
    let ok = lp.add(IR::MapFunction { input: scan, function: FunctionIR::Opaque { predicate_pd: true } });
    let root = slice(&mut lp, ok, 0, 2);
    let h = run(false, false, root, &mut lp, &ex);
    assert_eq!(scan_slice(&lp, single_input(&lp, h)), Some((0, 2)));

    let ex_node = lp.add(IR::MapFunction { input: scan, function: FunctionIR::Explode });
    let root = slice(&mut lp, ex_node, 0, 2);
    let h = run(false, false, root, &mut lp, &ex);
    let (below, _, _) = explicit_slice(&lp, h);
    assert!(matches!(lp.get(below), IR::MapFunction { function: FunctionIR::Explode, .. }));
}

#[test]
fn plan_without_slice_is_left_alone() {
    let ex: Arena<AExpr> = Arena::new();
    let mut lp: Arena<IR> = Arena::new();
    let scan = parquet(&mut lp);
    let sink = lp.add(IR::Sink { input: scan });
    let before = lp.len();
    let h = run(false, false, sink, &mut lp, &ex);
    assert_eq!(h, sink);
    assert_eq!(lp.len(), before);

    let root = slice(&mut lp, sink, 1, 1);
    let h = run(false, false, root, &mut lp, &ex);
    assert_eq!(explicit_slice(&lp, h), (sink, 1, 1));
}

#[test]
fn scratch_space_is_handed_out_empty() {
    let mut pass = SlicePushDown::new(false, true);
    pass.empty_nodes_scratch_mut().push(3);
    assert!(pass.empty_nodes_scratch_mut().is_empty());
    assert!(pass.new_streaming);
    assert!(!pass.streaming);
}

#[test]
fn arena_replace_hands_back_old_value() {
    let mut a: Arena<u64> = Arena::new();
    let x = a.add(5);
    let y = a.add(6);
    assert_eq!((x, y), (0, 1));
    assert_eq!(a.replace(x, 7), 5);
    assert_eq!(*a.get(x), 7);
    assert_eq!(a.len(), 2);
}
