//! Equality decided on deep views, copies that keep them, and first-occurrence
//! deduplication.

use vstd::prelude::*;

verus! {

/// Values that can be compared by what they denote.
pub trait DeepEq: DeepView + Sized {
    fn deep_eq(&self, other: &Self) -> (r: bool)
        ensures
            r == (self.deep_view() == other.deep_view()),
    ;
}

impl DeepEq for String {
    fn deep_eq(&self, other: &Self) -> (r: bool) {
        *self == *other
    }
}

impl DeepEq for u8 {
    fn deep_eq(&self, other: &Self) -> (r: bool) {
        *self == *other
    }
}

impl<T: DeepEq> DeepEq for Vec<T> {
    fn deep_eq(&self, other: &Self) -> (r: bool) {
        vec_deep_eq(self, other)
    }
}

impl<T: DeepEq> DeepEq for Option<T> {
    fn deep_eq(&self, other: &Self) -> (r: bool) {
        match (self, other) {
            (Some(a), Some(b)) => a.deep_eq(b),
            (None, None) => true,
            _ => false,
        }
    }
}

/// Element-wise comparison of two vectors.
pub fn vec_deep_eq<T: DeepEq>(a: &Vec<T>, b: &Vec<T>) -> (r: bool)
    ensures
        r == (a.deep_view() == b.deep_view()),
{
    if a.len() != b.len() {
        assert(a.deep_view().len() != b.deep_view().len());
        return false;
    }
    let mut i: usize = 0;
    while i < a.len()
        invariant
            i <= a.len(),
            a.len() == b.len(),
            forall|k: int| 0 <= k < i ==> a[k].deep_view() == b[k].deep_view(),
        decreases a.len() - i,
    {
        if !a[i].deep_eq(&b[i]) {
            assert(a.deep_view()[i as int] != b.deep_view()[i as int]);
            return false;
        }
        i = i + 1;
    }
    assert(a.deep_view() =~= b.deep_view());
    true
}

/// Whether `v` holds a value that denotes the same as `x`.
pub fn deep_contains<T: DeepEq>(v: &Vec<T>, x: &T) -> (r: bool)
    ensures
        r == v.deep_view().contains(x.deep_view()),
{
    let mut i: usize = 0;
    while i < v.len()
        invariant
            i <= v.len(),
            forall|k: int| 0 <= k < i ==> v[k].deep_view() != x.deep_view(),
        decreases v.len() - i,
    {
        if v[i].deep_eq(x) {
            assert(v.deep_view()[i as int] == x.deep_view());
            return true;
        }
        i = i + 1;
    }
    assert(!v.deep_view().contains(x.deep_view()));
    false
}


/// Values that can be copied without changing what they denote.
pub trait Duplicate: DeepView + Sized {
    fn duplicate(&self) -> (r: Self)
        ensures
            r.deep_view() == self.deep_view(),
    ;
}

impl Duplicate for String {
    fn duplicate(&self) -> (r: Self) {
        self.clone()
    }
}

impl<A: Duplicate, B: Duplicate> Duplicate for (A, B) {
    fn duplicate(&self) -> (r: Self) {
        (self.0.duplicate(), self.1.duplicate())
    }
}

impl<A: DeepEq, B: DeepEq> DeepEq for (A, B) {
    fn deep_eq(&self, other: &Self) -> (r: bool) {
        self.0.deep_eq(&other.0) && self.1.deep_eq(&other.1)
    }
}

impl<T: Duplicate> Duplicate for Vec<T> {
    fn duplicate(&self) -> (r: Self) {
        let mut out: Vec<T> = Vec::new();
        let mut i: usize = 0;
        while i < self.len()
            invariant
                i <= self.len(),
                out.deep_view() == self.deep_view().take(i as int),
            decreases self.len() - i,
        {
            let ghost before = out.deep_view();
            out.push(self[i].duplicate());
            assert(out.deep_view() =~= before.push(self.deep_view()[i as int]));
            assert(self.deep_view().take(i as int + 1) =~= self.deep_view().take(i as int).push(
                self.deep_view()[i as int],
            ));
            i = i + 1;
        }
        assert(self.deep_view().take(self.len() as int) =~= self.deep_view());
        out
    }
}

/// `s` with each value kept once, where it first appears.
pub open spec fn distinct<T>(s: Seq<T>) -> Seq<T>
    decreases s.len(),
{
    if s.len() == 0 {
        s
    } else {
        let d = distinct(s.drop_last());
        if d.contains(s.last()) {
            d
        } else {
            d.push(s.last())
        }
    }
}

/// Appends `x` unless `v` already holds a value that denotes the same.
pub fn push_distinct<T: DeepEq>(v: &mut Vec<T>, x: T)
    ensures
        final(v).deep_view() == if old(v).deep_view().contains(x.deep_view()) {
            old(v).deep_view()
        } else {
            old(v).deep_view().push(x.deep_view())
        },
{
    if !deep_contains(v, &x) {
        let ghost before = v.deep_view();
        let ghost xv = x.deep_view();
        v.push(x);
        assert(v.deep_view() =~= before.push(xv));
    }
}

/// Keeps the first occurrence of each value, in order.
pub fn unique<T: DeepEq>(v: Vec<T>) -> (r: Vec<T>)
    ensures
        r.deep_view() == distinct(v.deep_view()),
{
    let ghost input = v.deep_view();
    let n = v.len();
    let mut rest = v;
    let mut out: Vec<T> = Vec::new();
    let mut k: usize = 0;
    assert(input.take(0) =~= Seq::<T::V>::empty());
    while rest.len() > 0
        invariant
            k + rest.len() == input.len(),
            input.len() == n,
            rest.deep_view() == input.subrange(k as int, input.len() as int),
            out.deep_view() == distinct(input.take(k as int)),
        decreases rest.len(),
    {
        let ghost before_rest = rest.deep_view();
        assert(before_rest[0] == input[k as int]);
        let x = rest.remove(0);
        assert(x.deep_view() == before_rest[0]);
        assert(rest.deep_view() =~= before_rest.subrange(1, before_rest.len() as int));
        assert(rest.deep_view() =~= input.subrange(k as int + 1, input.len() as int));
        let ghost next = input.take(k as int + 1);
        assert(next.drop_last() =~= input.take(k as int));
        assert(next.last() == input[k as int]);
        push_distinct(&mut out, x);
        k = k + 1;
    }
    assert(input.take(input.len() as int) =~= input);
    out
}

} // verus!
