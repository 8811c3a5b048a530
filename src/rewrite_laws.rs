use vstd::prelude::*;

use crate::arena::Node;
use crate::expr::AExpr;
use crate::plan::{ir_inputs, ir_slice, State, IR};
use crate::slice_pushdown::{core_handle, pushed, select_allows, Mode};

verus! {

/// An explicit slice `(offset, len)` met under a pending window `s`: the
/// result is an explicit slice with the outer window `s`, and below it the
/// input is rewritten under `(offset, min(len, s.len))` when both windows
/// start at the same offset, and under the inner window `(offset, len)`
/// otherwise.
pub proof fn lemma_nested_slice_merge(
    a: Seq<IR>,
    c: Node,
    s: State,
    cfg: Mode,
    ex: Seq<AExpr>,
    h: Node,
)
    requires
        pushed(a, c, Some(s), cfg, ex, h),
        a[c as int] is Slice,
    ensures
        a[c as int] matches IR::Slice { input, offset, len } ==> (a[h as int] matches IR::Slice {
            input: hi,
            offset: o,
            len: l,
        } && o == s.offset && l == s.len && pushed(
            a,
            input,
            Some(
                if offset == s.offset {
                    State { offset, len: if len < s.len { len } else { s.len } }
                } else {
                    State { offset, len }
                },
            ),
            cfg,
            ex,
            hi,
        )),
{
}

/// Under a pending window, a selection hands the window on to its input when
/// every output expression allows it and one of them reads a column;
/// otherwise the window stays above the selection as an explicit slice and
/// the input is rewritten with no window.
pub proof fn lemma_select_rule(
    a: Seq<IR>,
    c: Node,
    s: State,
    cfg: Mode,
    ex: Seq<AExpr>,
    h: Node,
)
    requires
        pushed(a, c, Some(s), cfg, ex, h),
        a[c as int] is Select,
    ensures
        a[c as int] matches IR::Select { input, exprs } ==> {
            &&& select_allows(ex, exprs@) ==> (a[h as int] matches IR::Select {
                input: i2,
                exprs: e2,
            } && e2@ == exprs@ && pushed(a, input, Some(s), cfg, ex, i2))
            &&& !select_allows(ex, exprs@) ==> (a[h as int] matches IR::Slice {
                input: hs,
                offset,
                len,
            } && offset == s.offset && len == s.len && (a[hs as int] matches IR::Select {
                input: i2,
                exprs: e2,
            } && e2@ == exprs@ && pushed(a, input, None, cfg, ex, i2)))
        },
{
    if let IR::Select { input, exprs } = a[c as int] {
        assert(ir_inputs(a[c as int])[0] == input);
    }
}

/// A union under a pending window `s` takes `s` as its own window; at
/// offset zero every input is rewritten under `s` too, at any other offset
/// the inputs stay as they are. Under the legacy streaming engine an
/// explicit slice `s` also stays above the union.
pub proof fn lemma_union_rule(
    a: Seq<IR>,
    c: Node,
    s: State,
    cfg: Mode,
    ex: Seq<AExpr>,
    h: Node,
)
    requires
        pushed(a, c, Some(s), cfg, ex, h),
        a[c as int] is Union,
    ensures
        ({
            let u = core_handle(a, if cfg.streaming { Some(s) } else { None }, h);
            &&& cfg.streaming ==> a[h as int] == (IR::Slice { input: u, offset: s.offset, len: s.len })
            &&& !cfg.streaming ==> u == h
            &&& a[u as int] is Union
            &&& ir_slice(a[u as int]) == Some((s.offset, s.len as u64))
            &&& ir_inputs(a[u as int]).len() == ir_inputs(a[c as int]).len()
            &&& s.offset == 0 ==> forall|j: int|
                0 <= j < ir_inputs(a[c as int]).len() ==> pushed(
                    a,
                    #[trigger] ir_inputs(a[c as int])[j],
                    Some(s),
                    cfg,
                    ex,
                    ir_inputs(a[u as int])[j],
                )
            &&& s.offset != 0 ==> ir_inputs(a[u as int]) == ir_inputs(a[c as int])
        }),
{
}

/// A horizontal concatenation under a pending window `s` hands `s`, as it
/// is, on to every input.
pub proof fn lemma_hconcat_rule(
    a: Seq<IR>,
    c: Node,
    s: State,
    cfg: Mode,
    ex: Seq<AExpr>,
    h: Node,
)
    requires
        pushed(a, c, Some(s), cfg, ex, h),
        a[c as int] is HConcat,
    ensures
        a[h as int] is HConcat,
        ir_inputs(a[h as int]).len() == ir_inputs(a[c as int]).len(),
        forall|j: int|
            0 <= j < ir_inputs(a[c as int]).len() ==> pushed(
                a,
                #[trigger] ir_inputs(a[c as int])[j],
                Some(s),
                cfg,
                ex,
                ir_inputs(a[h as int])[j],
            ),
{
}

/// A filter blocks a pending window `s`: the result is an explicit slice
/// `s` directly above the filter, whose input is rewritten with no window.
pub proof fn lemma_filter_blocks(
    a: Seq<IR>,
    c: Node,
    s: State,
    cfg: Mode,
    ex: Seq<AExpr>,
    h: Node,
)
    requires
        pushed(a, c, Some(s), cfg, ex, h),
        a[c as int] is Filter,
    ensures
        a[c as int] matches IR::Filter { input, predicate } ==> (a[h as int] matches IR::Slice {
            input: hf,
            offset,
            len,
        } && offset == s.offset && len == s.len && (a[hf as int] matches IR::Filter {
            input: i2,
            predicate: p2,
        } && p2 == predicate && pushed(a, input, None, cfg, ex, i2))),
{
    if let IR::Filter { input, predicate } = a[c as int] {
        assert(ir_inputs(a[c as int])[0] == input);
    }
}

} // verus!
