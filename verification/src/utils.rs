//! Lists used as sets: union, intersection and difference by `==`.

use vstd::prelude::*;
use vstd::std_specs::cmp::PartialEqSpec;

verus! {

/// Whether some element of `s` equals `e`, as `==` on `T` sees it.
pub open spec fn member<T: PartialEq>(s: Seq<T>, e: T) -> bool {
    exists|i: int| 0 <= i < s.len() && #[trigger] s[i].eq_spec(&e)
}

/// The elements of `a`, in order, followed by each element of `b` that equals
/// none before it.
pub open spec fn union_spec<T: PartialEq>(a: Seq<T>, b: Seq<T>) -> Seq<T>
    decreases b.len(),
{
    if b.len() == 0 {
        a
    } else {
        let rest = union_spec(a, b.drop_last());
        if member(rest, b.last()) {
            rest
        } else {
            rest.push(b.last())
        }
    }
}

/// The elements of `a`, in order, for which "`b` has an equal element" is
/// `present`.
pub open spec fn select<T: PartialEq>(a: Seq<T>, b: Seq<T>, present: bool) -> Seq<T>
    decreases a.len(),
{
    if a.len() == 0 {
        Seq::empty()
    } else {
        let rest = select(a.drop_last(), b, present);
        if member(b, a.last()) == present {
            rest.push(a.last())
        } else {
            rest
        }
    }
}

/// The elements of `a` that `b` has too.
pub open spec fn intersect_spec<T: PartialEq>(a: Seq<T>, b: Seq<T>) -> Seq<T> {
    select(a, b, true)
}

/// The elements of `a` that `b` does not have.
pub open spec fn outersect_left_spec<T: PartialEq>(a: Seq<T>, b: Seq<T>) -> Seq<T> {
    select(a, b, false)
}

/// `==` on `T` is what `eq_spec` says, and a clone of a `T` is the value
/// itself. Only of such types do the functions of this module promise their
/// result.
pub open spec fn faithful<T: PartialEq + Clone>() -> bool {
    &&& T::obeys_eq_spec()
    &&& forall|a: T, b: T| #[trigger] cloned(a, b) ==> a == b
}

/// `==` on `T` is reflexive, symmetric and transitive.
pub open spec fn eq_is_equivalence<T: PartialEq>() -> bool {
    &&& forall|a: T| #[trigger] a.eq_spec(&a)
    &&& forall|a: T, b: T| #[trigger] a.eq_spec(&b) ==> b.eq_spec(&a)
    &&& forall|a: T, b: T, c: T| #[trigger] a.eq_spec(&b) && #[trigger] b.eq_spec(&c) ==> a.eq_spec(&c)
}

/// Whether some element of `v` equals `e`.
pub(crate) fn contains<T: PartialEq>(v: &[T], e: &T) -> (found: bool)
    ensures
        T::obeys_eq_spec() ==> found == member(v@, *e),
{
    let mut i: usize = 0;
    while i < v.len()
        invariant
            i <= v@.len(),
            T::obeys_eq_spec() ==> forall|j: int| 0 <= j < i ==> !(#[trigger] v@[j].eq_spec(e)),
        decreases v@.len() - i,
    {
        if v[i] == *e {
            return true;
        }
        i += 1;
    }
    false
}

/// The values of both lists, each value once: all of `vector1`, then what
/// `vector2` adds.
pub fn union<T: PartialEq + Clone>(vector1: &[T], vector2: &[T]) -> (unioned: Vec<T>)
    ensures
        faithful::<T>() ==> unioned@ == union_spec(vector1@, vector2@),
{
    let mut unioned: Vec<T> = Vec::new();
    let mut i: usize = 0;
    while i < vector1.len()
        invariant
            i <= vector1@.len(),
            faithful::<T>() ==> unioned@ == vector1@.subrange(0, i as int),
        decreases vector1@.len() - i,
    {
        let copy = vector1[i].clone();
        unioned.push(copy);
        proof {
            assert(cloned(vector1@[i as int], copy));
            if faithful::<T>() {
                assert(unioned@ =~= vector1@.subrange(0, i + 1));
            }
        }
        i += 1;
    }
    proof {
        if faithful::<T>() {
            assert(vector1@.subrange(0, i as int) =~= vector1@);
            assert(vector2@.subrange(0, 0) =~= Seq::<T>::empty());
        }
    }
    let mut j: usize = 0;
    while j < vector2.len()
        invariant
            j <= vector2@.len(),
            faithful::<T>() ==> unioned@ == union_spec(vector1@, vector2@.subrange(0, j as int)),
        decreases vector2@.len() - j,
    {
        let found = contains(unioned.as_slice(), &vector2[j]);
        if !found {
            let copy = vector2[j].clone();
            assert(cloned(vector2@[j as int], copy));
            unioned.push(copy);
        }
        proof {
            let next = vector2@.subrange(0, j + 1);
            assert(next.drop_last() =~= vector2@.subrange(0, j as int));
            assert(next.last() == vector2@[j as int]);
        }
        j += 1;
    }
    proof {
        assert(vector2@.subrange(0, j as int) =~= vector2@);
    }
    unioned
}

/// The elements of `vector1` for which "`vector2` has an equal element" is
/// `present`.
fn pick<T: PartialEq + Clone>(vector1: &[T], vector2: &[T], present: bool) -> (picked: Vec<T>)
    ensures
        faithful::<T>() ==> picked@ == select(vector1@, vector2@, present),
{
    let mut picked: Vec<T> = Vec::new();
    let mut i: usize = 0;
    proof {
        assert(vector1@.subrange(0, 0) =~= Seq::<T>::empty());
    }
    while i < vector1.len()
        invariant
            i <= vector1@.len(),
            faithful::<T>() ==> picked@ == select(
                vector1@.subrange(0, i as int),
                vector2@,
                present,
            ),
        decreases vector1@.len() - i,
    {
        let found = contains(vector2, &vector1[i]);
        if found == present {
            let copy = vector1[i].clone();
            assert(cloned(vector1@[i as int], copy));
            picked.push(copy);
        }
        proof {
            let next = vector1@.subrange(0, i + 1);
            assert(next.drop_last() =~= vector1@.subrange(0, i as int));
            assert(next.last() == vector1@[i as int]);
        }
        i += 1;
    }
    proof {
        assert(vector1@.subrange(0, i as int) =~= vector1@);
    }
    picked
}

/// The values that both lists hold, in the order of `vector1`.
pub fn intersect<T: PartialEq + Clone>(vector1: &[T], vector2: &[T]) -> (intersected: Vec<T>)
    ensures
        faithful::<T>() ==> intersected@ == intersect_spec(vector1@, vector2@),
{
    pick(vector1, vector2, true)
}

/// The values of `vector1` that `vector2` does not hold, in the order of
/// `vector1`.
pub fn outersect_left<T: PartialEq + Clone>(vector1: &[T], vector2: &[T]) -> (outersected: Vec<T>)
    ensures
        faithful::<T>() ==> outersected@ == outersect_left_spec(vector1@, vector2@),
{
    pick(vector1, vector2, false)
}

/// A union holds a value exactly if one of the two lists holds it.
pub proof fn lemma_union_has<T: PartialEq>(a: Seq<T>, b: Seq<T>, k: T)
    requires
        eq_is_equivalence::<T>(),
    ensures
        member(union_spec(a, b), k) <==> member(a, k) || member(b, k),
    decreases b.len(),
{
    if b.len() > 0 {
        let front = b.drop_last();
        let rest = union_spec(a, front);
        lemma_union_has(a, front, k);
        let u = union_spec(a, b);
        if member(b, k) {
            let i = choose|i: int| 0 <= i < b.len() && #[trigger] b[i].eq_spec(&k);
            if i == b.len() - 1 {
                if member(rest, b.last()) {
                    let r = choose|r: int| 0 <= r < rest.len() && #[trigger] rest[r].eq_spec(&b.last());
                    assert(rest[r].eq_spec(&k));
                    assert(member(u, k));
                } else {
                    assert(u[u.len() - 1].eq_spec(&k));
                    assert(member(u, k));
                }
            } else {
                assert(front[i].eq_spec(&k));
                assert(member(front, k));
            }
        }
        if member(rest, k) {
            let r = choose|r: int| 0 <= r < rest.len() && #[trigger] rest[r].eq_spec(&k);
            assert(u[r].eq_spec(&k));
            assert(member(u, k));
        }
        if member(u, k) {
            let r = choose|r: int| 0 <= r < u.len() && #[trigger] u[r].eq_spec(&k);
            if r < rest.len() {
                assert(rest[r].eq_spec(&k));
                assert(member(rest, k));
                if member(front, k) {
                    let i = choose|i: int| 0 <= i < front.len() && #[trigger] front[i].eq_spec(&k);
                    assert(b[i].eq_spec(&k));
                }
            } else {
                assert(b[b.len() - 1].eq_spec(&k));
            }
        }
    }
}

/// A selection holds a value exactly if the first list holds it and the second
/// holds it, or does not hold it, as `present` asks.
pub proof fn lemma_select_has<T: PartialEq>(a: Seq<T>, b: Seq<T>, present: bool, k: T)
    requires
        eq_is_equivalence::<T>(),
    ensures
        member(select(a, b, present), k) <==> member(a, k) && member(b, k) == present,
    decreases a.len(),
{
    if a.len() > 0 {
        let front = a.drop_last();
        let rest = select(front, b, present);
        lemma_select_has(front, b, present, k);
        let s = select(a, b, present);
        let last = a.last();
        if last.eq_spec(&k) {
            lemma_has_same(b, last, k);
        }
        if member(s, k) {
            let r = choose|r: int| 0 <= r < s.len() && #[trigger] s[r].eq_spec(&k);
            if r < rest.len() {
                assert(rest[r].eq_spec(&k));
                assert(member(rest, k));
                let i = choose|i: int| 0 <= i < front.len() && #[trigger] front[i].eq_spec(&k);
                assert(a[i].eq_spec(&k));
            } else {
                assert(a[a.len() - 1].eq_spec(&k));
            }
        }
        if member(a, k) && member(b, k) == present {
            let i = choose|i: int| 0 <= i < a.len() && #[trigger] a[i].eq_spec(&k);
            if i == a.len() - 1 {
                assert(s[s.len() - 1].eq_spec(&k));
            } else {
                assert(front[i].eq_spec(&k));
                assert(member(front, k));
                let r = choose|r: int| 0 <= r < rest.len() && #[trigger] rest[r].eq_spec(&k);
                assert(s[r].eq_spec(&k));
            }
        }
    }
}

/// A list holds two equal values both or neither.
pub proof fn lemma_has_same<T: PartialEq>(s: Seq<T>, a: T, b: T)
    requires
        eq_is_equivalence::<T>(),
        a.eq_spec(&b),
    ensures
        member(s, a) == member(s, b),
{
    if member(s, a) {
        let i = choose|i: int| 0 <= i < s.len() && #[trigger] s[i].eq_spec(&a);
        assert(s[i].eq_spec(&b));
    }
    if member(s, b) {
        let i = choose|i: int| 0 <= i < s.len() && #[trigger] s[i].eq_spec(&b);
        assert(b.eq_spec(&a));
        assert(s[i].eq_spec(&a));
    }
}

} // verus!
