use vstd::prelude::*;

verus! {

/// A nullable boolean column: one value per row and, optionally, a validity
/// mask (`false` marks a null row).
pub struct BooleanArray {
    pub values: Vec<bool>,
    pub validity: Option<Vec<bool>>,
}

impl BooleanArray {
    pub open spec fn wf(&self) -> bool {
        match self.validity {
            None => true,
            Some(v) => v@.len() == self.values@.len(),
        }
    }

    pub open spec fn is_valid(&self, i: int) -> bool {
        match self.validity {
            None => true,
            Some(v) => v@[i],
        }
    }

    /// Some valid row holds `b`.
    pub open spec fn has_value(&self, b: bool) -> bool {
        exists|i: int| 0 <= i < self.values@.len() && self.is_valid(i) && self.values@[i] == b
    }

    /// Some row is null.
    pub open spec fn has_null(&self) -> bool {
        exists|i: int| 0 <= i < self.values@.len() && !self.is_valid(i)
    }

    pub fn new(values: Vec<bool>, validity: Option<Vec<bool>>) -> (r: Self)
        requires
            match validity {
                None => true,
                Some(v) => v@.len() == values@.len(),
            },
        ensures
            r.values@ == values@,
            r.validity == validity,
            r.wf(),
    {
        BooleanArray { values, validity }
    }

    pub fn len(&self) -> (r: usize)
        ensures
            r == self.values@.len(),
    {
        self.values.len()
    }

    /// Whether row `i` is valid (not null).
    pub fn get_valid(&self, i: usize) -> (r: bool)
        requires
            self.wf(),
            i < self.values@.len(),
        ensures
            r == self.is_valid(i as int),
    {
        match &self.validity {
            None => true,
            Some(v) => v[i],
        }
    }

    /// The distinct entries: `false`, then `true`, then null, each only where
    /// it occurs.
    pub fn unique(&self) -> (r: BooleanArray)
        requires
            self.wf(),
        ensures
            r.wf(),
            r.values@ == unique_values(self.has_value(false), self.has_value(true), self.has_null()),
            r.validity is None <==> !self.has_null(),
            self.has_null() ==> (r.validity matches Some(v) && v@ == unique_validity(
                self.has_value(false),
                self.has_value(true),
            )),
    {
        let mut state = BooleanUniqueKernelState::new();
        state.append(self);
        state.finalize_unique()
    }

    /// The number of distinct entries, null counted as one.
    pub fn n_unique(&self) -> (r: usize)
        requires
            self.wf(),
        ensures
            r == count3(self.has_value(false), self.has_value(true), self.has_null()),
    {
        let mut state = BooleanUniqueKernelState::new();
        state.append(self);
        state.finalize_n_unique()
    }

    /// The number of distinct non-null values.
    pub fn n_unique_non_null(&self) -> (r: usize)
        requires
            self.wf(),
        ensures
            r == count3(self.has_value(false), self.has_value(true), false),
    {
        let mut state = BooleanUniqueKernelState::new();
        state.append(self);
        state.finalize_n_unique_non_null()
    }
}

pub open spec fn count3(a: bool, b: bool, c: bool) -> nat {
    (if a { 1nat } else { 0nat }) + (if b { 1nat } else { 0nat }) + (if c { 1nat } else { 0nat })
}

/// Values of the unique array: `false` if seen, `true` if seen, then a
/// placeholder `false` under the null entry if a null was seen.
pub open spec fn unique_values(f: bool, t: bool, n: bool) -> Seq<bool> {
    let s0: Seq<bool> = if f { seq![false] } else { seq![] };
    let s1: Seq<bool> = if t { s0.push(true) } else { s0 };
    if n { s1.push(false) } else { s1 }
}

/// Validity of the unique array when a null was seen: every value entry is
/// valid and the last entry is the null.
pub open spec fn unique_validity(f: bool, t: bool) -> Seq<bool> {
    Seq::new(count3(f, t, false), |i: int| true).push(false)
}

/// Which of `false`, `true` and null have been seen so far, as bits 0, 1
/// and 2 of `seen`.
#[derive(Clone, Copy)]
pub struct BooleanUniqueKernelState {
    seen: u32,
}

impl BooleanUniqueKernelState {
    pub closed spec fn seen_false(&self) -> bool {
        self.seen & 1 != 0
    }

    pub closed spec fn seen_true(&self) -> bool {
        self.seen & 2 != 0
    }

    pub closed spec fn seen_null(&self) -> bool {
        self.seen & 4 != 0
    }

    pub closed spec fn wf(&self) -> bool {
        self.seen < 8
    }

    pub fn new() -> (r: Self)
        ensures
            r.wf(),
            !r.seen_false(),
            !r.seen_true(),
            !r.seen_null(),
    {
        let r = BooleanUniqueKernelState { seen: 0 };
        assert(0u32 & 1 == 0 && 0u32 & 2 == 0 && 0u32 & 4 == 0) by (bit_vector);
        r
    }

    /// All three entries have been seen: appending more changes nothing.
    pub fn has_seen_all(&self) -> (r: bool)
        requires
            self.wf(),
        ensures
            r == (self.seen_false() && self.seen_true() && self.seen_null()),
    {
        let s = self.seen;
        assert(s < 8 ==> ((s == 7) == (s & 1 != 0 && s & 2 != 0 && s & 4 != 0))) by (bit_vector);
        s == 7
    }

    fn set_bits(&mut self, f: bool, t: bool, n: bool)
        requires
            old(self).wf(),
        ensures
            final(self).wf(),
            final(self).seen_false() == (old(self).seen_false() || f),
            final(self).seen_true() == (old(self).seen_true() || t),
            final(self).seen_null() == (old(self).seen_null() || n),
    {
        let s = self.seen;
        let a: u32 = if f { 1 } else { 0 };
        let b: u32 = if t { 2 } else { 0 };
        let c: u32 = if n { 4 } else { 0 };
        let r = s | a | b | c;
        assert(s < 8 && (a == 0 || a == 1) && (b == 0 || b == 2) && (c == 0 || c == 4) ==> {
            let r = s | a | b | c;
            &&& r < 8
            &&& (r & 1 != 0) == (s & 1 != 0 || a == 1)
            &&& (r & 2 != 0) == (s & 2 != 0 || b == 2)
            &&& (r & 4 != 0) == (s & 4 != 0 || c == 4)
        }) by (bit_vector);
        self.seen = r;
    }

    /// Records the entries of `array`.
    pub fn append(&mut self, array: &BooleanArray)
        requires
            old(self).wf(),
            array.wf(),
        ensures
            final(self).wf(),
            final(self).seen_false() == (old(self).seen_false() || array.has_value(false)),
            final(self).seen_true() == (old(self).seen_true() || array.has_value(true)),
            final(self).seen_null() == (old(self).seen_null() || array.has_null()),
    {
        let n = array.len();
        let mut saw_false = false;
        let mut saw_true = false;
        let mut saw_null = false;
        let mut i: usize = 0;
        while i < n
            invariant
                array.wf(),
                n == array.values@.len(),
                i <= n,
                saw_false == exists|j: int|
                    0 <= j < i && array.is_valid(j) && array.values@[j] == false,
                saw_true == exists|j: int|
                    0 <= j < i && array.is_valid(j) && array.values@[j] == true,
                saw_null == exists|j: int| 0 <= j < i && !array.is_valid(j),
            decreases n - i,
        {
            if array.get_valid(i) {
                if array.values[i] {
                    saw_true = true;
                } else {
                    saw_false = true;
                }
            } else {
                saw_null = true;
            }
            i = i + 1;
        }
        self.set_bits(saw_false, saw_true, saw_null);
    }

    /// Merges what `other` has seen into `self`.
    pub fn append_state(&mut self, other: &Self)
        requires
            old(self).wf(),
            other.wf(),
        ensures
            final(self).wf(),
            final(self).seen_false() == (old(self).seen_false() || other.seen_false()),
            final(self).seen_true() == (old(self).seen_true() || other.seen_true()),
            final(self).seen_null() == (old(self).seen_null() || other.seen_null()),
    {
        let s = self.seen;
        let o = other.seen;
        assert(s < 8 && o < 8 ==> {
            let r = s | o;
            &&& r < 8
            &&& (r & 1 != 0) == (s & 1 != 0 || o & 1 != 0)
            &&& (r & 2 != 0) == (s & 2 != 0 || o & 2 != 0)
            &&& (r & 4 != 0) == (s & 4 != 0 || o & 4 != 0)
        }) by (bit_vector);
        self.seen = s | o;
    }

    /// The array of distinct entries seen.
    pub fn finalize_unique(self) -> (r: BooleanArray)
        requires
            self.wf(),
        ensures
            r.wf(),
            r.values@ == unique_values(self.seen_false(), self.seen_true(), self.seen_null()),
            r.validity is None <==> !self.seen_null(),
            self.seen_null() ==> (r.validity matches Some(v) && v@ == unique_validity(
                self.seen_false(),
                self.seen_true(),
            )),
    {
        let f = self.seen & 1 != 0;
        let t = self.seen & 2 != 0;
        let n = self.seen & 4 != 0;
        let mut values: Vec<bool> = Vec::new();
        if f {
            values.push(false);
        }
        if t {
            values.push(true);
        }
        let validity = if n {
            let mut validity: Vec<bool> = Vec::new();
            let k = values.len();
            let mut i: usize = 0;
            while i < k
                invariant
                    i <= k,
                    validity@ == Seq::new(i as nat, |j: int| true),
                decreases k - i,
            {
                validity.push(true);
                i = i + 1;
                assert(validity@ =~= Seq::new(i as nat, |j: int| true));
            }
            validity.push(false);
            values.push(false);
            assert(validity@ =~= unique_validity(f, t));
            Some(validity)
        } else {
            None
        };
        assert(values@ =~= unique_values(f, t, n));
        BooleanArray { values, validity }
    }

    /// The number of distinct entries seen, null counted as one.
    pub fn finalize_n_unique(&self) -> (r: usize)
        requires
            self.wf(),
        ensures
            r == count3(self.seen_false(), self.seen_true(), self.seen_null()),
    {
        let a: usize = if self.seen & 1 != 0 { 1 } else { 0 };
        let b: usize = if self.seen & 2 != 0 { 1 } else { 0 };
        let c: usize = if self.seen & 4 != 0 { 1 } else { 0 };
        a + b + c
    }

    /// The number of distinct non-null values seen.
    pub fn finalize_n_unique_non_null(&self) -> (r: usize)
        requires
            self.wf(),
        ensures
            r == count3(self.seen_false(), self.seen_true(), false),
    {
        let a: usize = if self.seen & 1 != 0 { 1 } else { 0 };
        let b: usize = if self.seen & 2 != 0 { 1 } else { 0 };
        a + b
    }
}

} // verus!
