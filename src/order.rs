use vstd::prelude::*;
use vstd::multiset::*;
use vstd::seq_lib::*;

verus! {

/// A record that has a place in the address space.
pub trait Addressed {
    spec fn addr_spec(&self) -> u64;

    fn addr(&self) -> (r: u64)
        ensures
            r == self.addr_spec(),
    ;
}

/// `s` is ordered by address, ascending.
pub open spec fn sorted_by_address<T: Addressed>(s: Seq<T>) -> bool {
    forall|i: int, j: int| 0 <= i < j < s.len() ==> s[i].addr_spec() <= s[j].addr_spec()
}

/// `t` with `x` placed just before the first record whose address is not below `x`'s.
pub open spec fn insert_by_address<T: Addressed>(t: Seq<T>, x: T) -> Seq<T>
    decreases t.len(),
{
    if t.len() == 0 {
        seq![x]
    } else if t[0].addr_spec() >= x.addr_spec() {
        seq![x] + t
    } else {
        seq![t[0]] + insert_by_address(t.drop_first(), x)
    }
}

/// `s` sorted by address, ascending, records at equal addresses kept in their order.
pub open spec fn stable_sort_by_address<T: Addressed>(s: Seq<T>) -> Seq<T>
    decreases s.len(),
{
    if s.len() == 0 {
        Seq::empty()
    } else {
        insert_by_address(stable_sort_by_address(s.drop_first()), s[0])
    }
}

proof fn lemma_insert_at<T: Addressed>(t: Seq<T>, x: T, pos: int)
    requires
        0 <= pos <= t.len(),
        forall|k: int| 0 <= k < pos ==> #[trigger] t[k].addr_spec() < x.addr_spec(),
        pos == t.len() || t[pos].addr_spec() >= x.addr_spec(),
    ensures
        insert_by_address(t, x) == t.insert(pos, x),
    decreases pos,
{
    if pos == 0 {
        if t.len() == 0 {
            assert(t.insert(0, x) =~= seq![x]);
        } else {
            assert(t.insert(0, x) =~= seq![x] + t);
        }
    } else {
        let u = t.drop_first();
        assert forall|k: int| 0 <= k < pos - 1 implies #[trigger] u[k].addr_spec() < x.addr_spec() by {
            assert(u[k] == t[k + 1]);
        }
        if pos < t.len() {
            assert(u[pos - 1] == t[pos]);
        }
        lemma_insert_at(u, x, pos - 1);
        assert(t[0].addr_spec() < x.addr_spec());
        assert(seq![t[0]] + u.insert(pos - 1, x) =~= t.insert(pos, x));
    }
}

proof fn lemma_insert_keys<T: Addressed, K>(t1: Seq<T>, t2: Seq<T>, x1: T, x2: T, key: spec_fn(T) -> K)
    requires
        t1.len() == t2.len(),
        forall|i: int| 0 <= i < t1.len() ==> key(#[trigger] t1[i]) == key(t2[i]),
        key(x1) == key(x2),
        forall|a: T, b: T| #[trigger] key(a) == #[trigger] key(b) ==> a.addr_spec() == b.addr_spec(),
    ensures
        insert_by_address(t1, x1).len() == insert_by_address(t2, x2).len(),
        insert_by_address(t1, x1).len() == t1.len() + 1,
        forall|i: int|
            0 <= i < insert_by_address(t1, x1).len() ==> key(#[trigger] insert_by_address(t1, x1)[i])
                == key(insert_by_address(t2, x2)[i]),
    decreases t1.len(),
{
    if t1.len() > 0 {
        assert(key(t1[0]) == key(t2[0]));
        if t1[0].addr_spec() >= x1.addr_spec() {
            assert forall|i: int| 0 <= i < t1.len() + 1 implies key(
                #[trigger] insert_by_address(t1, x1)[i],
            ) == key(insert_by_address(t2, x2)[i]) by {
                if i > 0 {
                    assert(key(t1[i - 1]) == key(t2[i - 1]));
                }
            }
        } else {
            let u1 = t1.drop_first();
            let u2 = t2.drop_first();
            assert forall|i: int| 0 <= i < u1.len() implies key(#[trigger] u1[i]) == key(u2[i]) by {
                assert(key(t1[i + 1]) == key(t2[i + 1]));
            }
            lemma_insert_keys(u1, u2, x1, x2, key);
            assert forall|i: int| 0 <= i < t1.len() + 1 implies key(
                #[trigger] insert_by_address(t1, x1)[i],
            ) == key(insert_by_address(t2, x2)[i]) by {
                if i > 0 {
                    assert(insert_by_address(t1, x1)[i] == insert_by_address(u1, x1)[i - 1]);
                    assert(insert_by_address(t2, x2)[i] == insert_by_address(u2, x2)[i - 1]);
                }
            }
        }
    }
}

/// Sorting looks at addresses alone: where two lists agree pointwise on a key that
/// determines the address, their sorted forms agree pointwise on that key.
pub proof fn lemma_sort_keys<T: Addressed, K>(a: Seq<T>, b: Seq<T>, key: spec_fn(T) -> K)
    requires
        a.len() == b.len(),
        forall|i: int| 0 <= i < a.len() ==> key(#[trigger] a[i]) == key(b[i]),
        forall|x: T, y: T| #[trigger] key(x) == #[trigger] key(y) ==> x.addr_spec() == y.addr_spec(),
    ensures
        stable_sort_by_address(a).len() == a.len(),
        stable_sort_by_address(b).len() == a.len(),
        forall|i: int|
            0 <= i < a.len() ==> key(#[trigger] stable_sort_by_address(a)[i]) == key(
                stable_sort_by_address(b)[i],
            ),
    decreases a.len(),
{
    if a.len() > 0 {
        let u1 = a.drop_first();
        let u2 = b.drop_first();
        assert forall|i: int| 0 <= i < u1.len() implies key(#[trigger] u1[i]) == key(u2[i]) by {
            assert(key(a[i + 1]) == key(b[i + 1]));
        }
        lemma_sort_keys(u1, u2, key);
        assert(key(a[0]) == key(b[0]));
        lemma_insert_keys(stable_sort_by_address(u1), stable_sort_by_address(u2), a[0], b[0], key);
    }
}

/// Reorders `v` by address, ascending, keeping every record.
pub fn sort_by_address<T: Addressed>(v: Vec<T>) -> (r: Vec<T>)
    ensures
        sorted_by_address(r@),
        r@.to_multiset() == v@.to_multiset(),
        r@ == stable_sort_by_address(v@),
{
    broadcast use group_multiset_axioms, to_multiset_len;

    let mut rest = v;
    let mut out: Vec<T> = Vec::new();
    assert(rest@ =~= v@.subrange(0, rest@.len() as int));
    assert(v@.subrange(v@.len() as int, v@.len() as int) =~= Seq::<T>::empty());
    proof {
        lemma_multiset_empty_len(out@.to_multiset());
        assert(out@.to_multiset().add(rest@.to_multiset()) =~= v@.to_multiset());
    }
    while rest.len() > 0
        invariant
            sorted_by_address(out@),
            out@.to_multiset().add(rest@.to_multiset()) == v@.to_multiset(),
            rest@.len() <= v@.len(),
            rest@ == v@.subrange(0, rest@.len() as int),
            out@ == stable_sort_by_address(v@.subrange(rest@.len() as int, v@.len() as int)),
        decreases rest@.len(),
    {
        let ghost before = rest@;
        let x = rest.pop().unwrap();
        assert(before == rest@.push(x));
        let key = x.addr();
        let mut pos: usize = 0;
        while pos < out.len() && out[pos].addr() < key
            invariant
                pos <= out@.len(),
                forall|k: int| 0 <= k < pos ==> out@[k].addr_spec() < key,
            decreases out@.len() - pos,
        {
            pos = pos + 1;
        }
        let ghost old_out = out@;
        proof {
            let k = rest@.len() as int;
            let suffix = v@.subrange(k, v@.len() as int);
            assert(suffix.drop_first() =~= v@.subrange(k + 1, v@.len() as int));
            assert(suffix[0] == x) by {
                assert(before[k] == x);
            }
            assert(rest@ =~= v@.subrange(0, k));
            lemma_insert_at(old_out, x, pos as int);
        }
        out.insert(pos, x);
        assert forall|i: int, j: int| 0 <= i < j < out@.len() implies out@[i].addr_spec()
            <= out@[j].addr_spec() by {
            if j < pos {
                assert(out@[i] == old_out[i] && out@[j] == old_out[j]);
            } else if j == pos {
                assert(out@[i] == old_out[i]);
            } else if i < pos {
                assert(out@[i] == old_out[i] && out@[j] == old_out[j - 1]);
            } else if i == pos {
                assert(out@[j] == old_out[j - 1]);
                assert(old_out[pos as int].addr_spec() >= key);
            } else {
                assert(out@[i] == old_out[i - 1] && out@[j] == old_out[j - 1]);
            }
        }
        proof {
            to_multiset_insert(old_out, pos as int, x);
            to_multiset_build(rest@, x);
        }
        assert(out@.to_multiset().add(rest@.to_multiset()) =~= old_out.to_multiset().add(
            before.to_multiset(),
        ));
    }
    proof {
        lemma_multiset_empty_len(rest@.to_multiset());
    }
    assert(v@.subrange(0, v@.len() as int) =~= v@);
    assert(out@.to_multiset() =~= v@.to_multiset());
    out
}

} // verus!
