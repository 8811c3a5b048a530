use vstd::prelude::*;

use crate::arena::{Arena, Node};

verus! {

/// A literal value of an expression.
pub enum LiteralValue {
    Scalar(i64),
    Series(Vec<i64>),
}

impl LiteralValue {
    pub open spec fn spec_projects_as_scalar(&self) -> bool {
        match self {
            LiteralValue::Scalar(_) => true,
            LiteralValue::Series(v) => v@.len() == 1,
        }
    }

    /// Whether the literal broadcasts as a single value.
    pub fn projects_as_scalar(&self) -> (r: bool)
        ensures
            r == self.spec_projects_as_scalar(),
    {
        match self {
            LiteralValue::Scalar(_) => true,
            LiteralValue::Series(v) => v.len() == 1,
        }
    }
}

/// An expression node; its operands are handles into the same arena.
pub enum AExpr {
    Column(String),
    Literal(LiteralValue),
    Alias(Node, String),
    /// Any other operation; `elementwise` tells whether a row filter may be
    /// moved below it.
    Function { inputs: Vec<Node>, elementwise: bool },
}

pub open spec fn expr_children(e: AExpr) -> Seq<Node> {
    match e {
        AExpr::Alias(i, _) => seq![i],
        AExpr::Function { inputs, .. } => inputs@,
        _ => Seq::empty(),
    }
}

/// Every operand handle is smaller than the handle of the node that uses it.
pub open spec fn exprs_wf(a: Seq<AExpr>) -> bool {
    forall|i: int, j: int|
        0 <= i < a.len() && 0 <= j < expr_children(a[i]).len() ==> (#[trigger] expr_children(
            a[i],
        )[j] as int) < i
}

pub open spec fn node_permits_filter_pushdown(e: AExpr) -> bool {
    match e {
        AExpr::Function { elementwise, .. } => elementwise,
        _ => true,
    }
}

/// Every node of the subtree at `n` lets a row filter pass.
pub open spec fn permits_pushdown(a: Seq<AExpr>, n: Node) -> bool
    decreases n,
{
    &&& n < a.len()
    &&& node_permits_filter_pushdown(a[n as int])
    &&& forall|j: int|
        0 <= j < expr_children(a[n as int]).len() ==> {
            let c = #[trigger] expr_children(a[n as int])[j];
            c < n && permits_pushdown(a, c)
        }
}

/// The subtree at `n` refers to a column.
pub open spec fn has_column(a: Seq<AExpr>, n: Node) -> bool
    decreases n,
{
    &&& n < a.len()
    &&& {
        ||| a[n as int] is Column
        ||| exists|j: int|
            0 <= j < expr_children(a[n as int]).len() && {
                let c = #[trigger] expr_children(a[n as int])[j];
                c < n && has_column(a, c)
            }
    }
}

/// Every literal of the subtree at `n` projects as a scalar.
pub open spec fn literals_scalar(a: Seq<AExpr>, n: Node) -> bool
    decreases n,
{
    &&& n < a.len()
    &&& (a[n as int] matches AExpr::Literal(v) ==> v.spec_projects_as_scalar())
    &&& forall|j: int|
        0 <= j < expr_children(a[n as int]).len() ==> {
            let c = #[trigger] expr_children(a[n as int])[j];
            c < n && literals_scalar(a, c)
        }
}

/// A slice may pass below this output expression: it is elementwise all
/// the way down, and if it reads no column all its literals are scalars.
pub open spec fn expr_allows_slice(a: Seq<AExpr>, n: Node) -> bool {
    permits_pushdown(a, n) && (has_column(a, n) || literals_scalar(a, n))
}

pub open spec fn exprs_allow_slice(a: Seq<AExpr>, exprs: Seq<Node>) -> bool {
    forall|i: int| 0 <= i < exprs.len() ==> expr_allows_slice(a, #[trigger] exprs[i])
}

pub open spec fn any_has_column(a: Seq<AExpr>, exprs: Seq<Node>) -> bool {
    exists|i: int| 0 <= i < exprs.len() && has_column(a, #[trigger] exprs[i])
}

pub open spec fn handles_in(exprs: Seq<Node>, len: nat) -> bool {
    forall|i: int| 0 <= i < exprs.len() ==> (#[trigger] exprs[i] as int) < len
}

/// Size of the subtree at `n`, shared operands counted once per use.
pub open spec fn weight(a: Seq<AExpr>, n: nat) -> nat
    decreases n, 1nat, 0nat,
{
    if n < a.len() {
        1 + seq_weight(a, expr_children(a[n as int]), n)
    } else {
        1
    }
}

/// Total weight of the handles in `s` that are below `bound`.
pub open spec fn seq_weight(a: Seq<AExpr>, s: Seq<Node>, bound: nat) -> nat
    decreases bound, 0nat, s.len(),
{
    if s.len() == 0 {
        0
    } else {
        seq_weight(a, s.drop_last(), bound) + if (s.last() as nat) < bound {
            weight(a, s.last() as nat)
        } else {
            0
        }
    }
}

proof fn lemma_seq_weight_concat(a: Seq<AExpr>, s1: Seq<Node>, s2: Seq<Node>, bound: nat)
    ensures
        seq_weight(a, s1 + s2, bound) == seq_weight(a, s1, bound) + seq_weight(a, s2, bound),
    decreases s2.len(),
{
    if s2.len() == 0 {
        assert(s1 + s2 =~= s1);
    } else {
        assert((s1 + s2).drop_last() =~= s1 + s2.drop_last());
        lemma_seq_weight_concat(a, s1, s2.drop_last(), bound);
    }
}

proof fn lemma_seq_weight_bound(a: Seq<AExpr>, s: Seq<Node>, n: nat, bound: nat)
    requires
        n <= bound,
        forall|k: int| 0 <= k < s.len() ==> (#[trigger] s[k] as nat) < n,
    ensures
        seq_weight(a, s, bound) == seq_weight(a, s, n),
    decreases s.len(),
{
    if s.len() > 0 {
        lemma_seq_weight_bound(a, s.drop_last(), n, bound);
    }
}

/// Pushes the operands of `ae` onto `stack` and tells whether a row filter
/// may be moved below `ae` itself.
pub fn permits_filter_pushdown(stack: &mut Vec<Node>, ae: &AExpr) -> (r: bool)
    ensures
        final(stack)@ == old(stack)@ + expr_children(*ae),
        r == node_permits_filter_pushdown(*ae),
{
    match ae {
        AExpr::Alias(c, _) => {
            stack.push(*c);
            assert(final(stack)@ =~= old(stack)@ + expr_children(*ae));
            true
        },
        AExpr::Function { inputs, elementwise } => {
            let ghost base = stack@;
            let mut i: usize = 0;
            while i < inputs.len()
                invariant
                    i <= inputs@.len(),
                    stack@ == base + inputs@.subrange(0, i as int),
                decreases inputs@.len() - i,
            {
                stack.push(inputs[i]);
                i = i + 1;
                assert(stack@ =~= base + inputs@.subrange(0, i as int));
            }
            assert(inputs@.subrange(0, i as int) =~= inputs@);
            *elementwise
        },
        _ => {
            assert(final(stack)@ =~= old(stack)@ + expr_children(*ae));
            true
        },
    }
}

/// Decides whether a slice may pass below a projection with these output
/// expressions: `r.0` holds when every expression allows it, `r.1` when
/// besides at least one of them reads a column. `scratch` is the work list
/// of the walk; it is cleared first.
pub fn can_pushdown_slice_past_projections(
    exprs: &Vec<Node>,
    arena: &Arena<AExpr>,
    scratch: &mut Vec<Node>,
) -> (r: (bool, bool))
    requires
        exprs_wf(arena@),
        handles_in(exprs@, arena@.len()),
    ensures
        r.0 == exprs_allow_slice(arena@, exprs@),
        r.1 == (r.0 && any_has_column(arena@, exprs@)),
{
    scratch.clear();
    let ghost a = arena@;
    let mut any_col = false;
    let mut i: usize = 0;
    while i < exprs.len()
        invariant
            a == arena@,
            exprs_wf(a),
            handles_in(exprs@, a.len()),
            i <= exprs@.len(),
            scratch@.len() == 0,
            exprs_allow_slice(a, exprs@.subrange(0, i as int)),
            any_col == any_has_column(a, exprs@.subrange(0, i as int)),
        decreases exprs@.len() - i,
    {
        let root = exprs[i];
        scratch.push(root);
        assert(scratch@ =~= seq![root]);
        assert(scratch@[0] == root);
        let mut has_col = false;
        let mut lits = true;
        while scratch.len() > 0
            invariant
                a == arena@,
                exprs_wf(a),
                handles_in(exprs@, a.len()),
                i < exprs@.len(),
                root == exprs@[i as int],
                exprs_allow_slice(a, exprs@.subrange(0, i as int)),
                any_col == any_has_column(a, exprs@.subrange(0, i as int)),
                root < a.len(),
                handles_in(scratch@, a.len()),
                has_column(a, root) == (has_col || exists|k: int|
                    0 <= k < scratch@.len() && has_column(a, #[trigger] scratch@[k])),
                literals_scalar(a, root) == (lits && forall|k: int|
                    0 <= k < scratch@.len() ==> literals_scalar(a, #[trigger] scratch@[k])),
                permits_pushdown(a, root) == forall|k: int|
                    0 <= k < scratch@.len() ==> permits_pushdown(a, #[trigger] scratch@[k]),
            decreases seq_weight(a, scratch@, a.len()),
        {
            let ghost before = scratch@;
            let node = scratch.pop().unwrap();
            let ghost base = scratch@;
            assert(before =~= base.push(node));
            let ae = arena.get(node);
            let ghost ch = expr_children(*ae);
            assert(forall|j: int| 0 <= j < ch.len() ==> (#[trigger] ch[j] as int) < node);
            match ae {
                AExpr::Column(_) => has_col = true,
                AExpr::Literal(v) => lits = lits && v.projects_as_scalar(),
                _ => {},
            }
            let ok = permits_filter_pushdown(scratch, ae);
            proof {
                assert(before.drop_last() =~= base);
                assert(seq_weight(a, before, a.len()) == seq_weight(a, base, a.len()) + weight(
                    a,
                    node as nat,
                ));
                lemma_seq_weight_concat(a, base, ch, a.len());
                lemma_seq_weight_bound(a, ch, node as nat, a.len());
                assert forall|k: int| 0 <= k < scratch@.len() implies (#[trigger] scratch@[k]
                    as int) < a.len() by {
                    if k >= base.len() {
                        assert(scratch@[k] == ch[k - base.len()]);
                    }
                }
                // the walk state before the pop, spread over `base` and `node`
                assert(forall|k: int|
                    0 <= k < base.len() ==> #[trigger] base[k] == before[k]);
                assert(before[base.len() as int] == node);
                assert(forall|k: int|
                    0 <= k < base.len() ==> #[trigger] scratch@[k] == base[k]);
                assert(forall|j: int|
                    0 <= j < ch.len() ==> #[trigger] scratch@[base.len() + j] == ch[j]);
                if exists|k: int| 0 <= k < scratch@.len() && has_column(a, #[trigger] scratch@[k]) {
                    let k = choose|k: int|
                        0 <= k < scratch@.len() && has_column(a, #[trigger] scratch@[k]);
                    if k >= base.len() {
                        assert(has_column(a, ch[k - base.len()]));
                        assert(has_column(a, node));
                    } else {
                        assert(has_column(a, before[k]));
                    }
                }
                if has_column(a, node) && !(*ae is Column) {
                    let j = choose|j: int|
                        0 <= j < ch.len() && {
                            let c = #[trigger] ch[j];
                            c < node && has_column(a, c)
                        };
                    assert(has_column(a, scratch@[base.len() + j]));
                }
                if exists|k: int| 0 <= k < before.len() && has_column(a, #[trigger] before[k]) {
                    let k = choose|k: int| 0 <= k < before.len() && has_column(a, #[trigger] before[k]);
                    if k < base.len() {
                        assert(has_column(a, scratch@[k]));
                    }
                }
                assert forall|k: int|
                    0 <= k < scratch@.len() && literals_scalar(a, root) implies literals_scalar(
                    a,
                    #[trigger] scratch@[k],
                ) by {
                    assert(literals_scalar(a, before[base.len() as int]));
                    if k < base.len() {
                        assert(literals_scalar(a, before[k]));
                    } else {
                        assert(scratch@[k] == ch[k - base.len()]);
                    }
                }
                assert forall|k: int|
                    0 <= k < scratch@.len() && permits_pushdown(a, root) implies permits_pushdown(
                    a,
                    #[trigger] scratch@[k],
                ) by {
                    assert(permits_pushdown(a, before[base.len() as int]));
                    if k < base.len() {
                        assert(permits_pushdown(a, before[k]));
                    } else {
                        assert(scratch@[k] == ch[k - base.len()]);
                    }
                }
                if lits && forall|k: int|
                    0 <= k < scratch@.len() ==> literals_scalar(a, #[trigger] scratch@[k]) {
                    assert forall|k: int| 0 <= k < before.len() implies literals_scalar(
                        a,
                        #[trigger] before[k],
                    ) by {
                        if k < base.len() {
                            assert(literals_scalar(a, scratch@[k]));
                        } else {
                            assert forall|j: int| 0 <= j < ch.len() implies {
                                let c = #[trigger] ch[j];
                                c < node && literals_scalar(a, c)
                            } by {
                                assert(literals_scalar(a, scratch@[base.len() + j]));
                            }
                        }
                    }
                }
            }
            if !ok {
                proof {
                    assert(!permits_pushdown(a, before[base.len() as int]));
                    assert(!expr_allows_slice(a, exprs@[i as int]));
                }
                return (false, false);
            }
            proof {
                if forall|k: int|
                    0 <= k < scratch@.len() ==> permits_pushdown(a, #[trigger] scratch@[k]) {
                    assert forall|k: int| 0 <= k < before.len() implies permits_pushdown(
                        a,
                        #[trigger] before[k],
                    ) by {
                        if k < base.len() {
                            assert(permits_pushdown(a, scratch@[k]));
                        } else {
                            assert forall|j: int| 0 <= j < ch.len() implies {
                                let c = #[trigger] ch[j];
                                c < node && permits_pushdown(a, c)
                            } by {
                                assert(permits_pushdown(a, scratch@[base.len() + j]));
                            }
                        }
                    }
                }
            }
        }
        if !(has_col || lits) {
            assert(!expr_allows_slice(a, exprs@[i as int]));
            return (false, false);
        }
        any_col = any_col || has_col;
        i = i + 1;
        assert(exprs@.subrange(0, i as int).drop_last() =~= exprs@.subrange(0, i - 1));
        assert(exprs@.subrange(0, i as int).last() == exprs@[i - 1]);
    }
    assert(exprs@.subrange(0, i as int) =~= exprs@);
    (true, any_col)
}

} // verus!
