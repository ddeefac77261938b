use vstd::prelude::*;
use crate::analyzer::AnalysisResult;
use crate::model::{SectionInfo, SymbolInfo};

verus! {

/// One difference between two analyses, from the first (before) to the second (after).
#[derive(Debug, Clone)]
pub enum Change {
    Removed(String),
    Added(String),
    AddressChanged(String, u64, u64),
    SizeChanged(String, u64, u64),
    KindChanged(String, String, String),
}

/// The mathematical content of a [`Change`].
pub enum ChangeView {
    Removed(Seq<char>),
    Added(Seq<char>),
    AddressChanged(Seq<char>, u64, u64),
    SizeChanged(Seq<char>, u64, u64),
    KindChanged(Seq<char>, Seq<char>, Seq<char>),
}

impl View for Change {
    type V = ChangeView;

    open spec fn view(&self) -> ChangeView {
        match self {
            Change::Removed(n) => ChangeView::Removed(n@),
            Change::Added(n) => ChangeView::Added(n@),
            Change::AddressChanged(n, a, b) => ChangeView::AddressChanged(n@, *a, *b),
            Change::SizeChanged(n, a, b) => ChangeView::SizeChanged(n@, *a, *b),
            Change::KindChanged(n, a, b) => ChangeView::KindChanged(n@, a@, b@),
        }
    }
}

/// The same difference seen from the other side: before and after swap roles.
pub open spec fn reversed(c: ChangeView) -> ChangeView {
    match c {
        ChangeView::Removed(n) => ChangeView::Added(n),
        ChangeView::Added(n) => ChangeView::Removed(n),
        ChangeView::AddressChanged(n, a, b) => ChangeView::AddressChanged(n, b, a),
        ChangeView::SizeChanged(n, a, b) => ChangeView::SizeChanged(n, b, a),
        ChangeView::KindChanged(n, a, b) => ChangeView::KindChanged(n, b, a),
    }
}

/// The views of a sequence of changes.
pub open spec fn changes_view(s: Seq<Change>) -> Seq<ChangeView> {
    s.map_values(|c: Change| c@)
}

/// A record that two analyses can hold under one name and compare field by field.
pub trait Comparable: Sized {
    /// The name records are matched by.
    spec fn key(&self) -> Seq<char>;

    /// The changes from `self` (before) to `other` (after), both under one name.
    spec fn field_changes(&self, other: &Self) -> Seq<ChangeView>;

    fn key_string(&self) -> (r: &String)
        ensures
            r@ == self.key(),
    ;

    /// Appends the changes from `self` to `other`.
    fn push_field_changes(&self, other: &Self, out: &mut Vec<Change>)
        ensures
            changes_view(final(out)@) == changes_view(old(out)@) + self.field_changes(other),
    ;

    proof fn lemma_field_changes_reversed(x: &Self, y: &Self)
        requires
            x.key() == y.key(),
        ensures
            y.field_changes(x) == x.field_changes(y).map_values(|c: ChangeView| reversed(c)),
    ;

    proof fn lemma_field_changes_self(x: &Self)
        ensures
            x.field_changes(x) == Seq::<ChangeView>::empty(),
    ;

    /// `self` and `other` agree on everything a comparison reads.
    spec fn same_content(&self, other: &Self) -> bool;

    proof fn lemma_same_content(x: &Self, y: &Self)
        requires
            x.same_content(y),
        ensures
            x.key() == y.key(),
            x.field_changes(y) == Seq::<ChangeView>::empty(),
    ;
}

/// How many records of `s` are named `n`.
pub open spec fn count_key<T: Comparable>(s: Seq<T>, n: Seq<char>) -> nat
    decreases s.len(),
{
    if s.len() == 0 {
        0
    } else {
        count_key(s.drop_last(), n) + if s.last().key() == n {
            1nat
        } else {
            0nat
        }
    }
}

/// How many records before position `i` of `s` share its name.
pub open spec fn rank<T: Comparable>(s: Seq<T>, i: int) -> nat {
    count_key(s.subrange(0, i), s[i].key())
}

/// Position `j` holds the record of rank `k` among those of `s` named `n`.
pub open spec fn is_nth<T: Comparable>(s: Seq<T>, n: Seq<char>, k: nat, j: int) -> bool {
    0 <= j < s.len() && s[j].key() == n && rank(s, j) == k
}

/// The position of the record of rank `k` among those named `n`, where there is one.
pub open spec fn nth_key<T: Comparable>(s: Seq<T>, n: Seq<char>, k: nat) -> int {
    choose|j: int| is_nth(s, n, k, j)
}

/// What record `i` of the first analysis contributes. Records of one name are paired
/// by rank: the `k`-th record named `n` in `a` with the `k`-th named `n` in `b`. A record
/// with a counterpart contributes its field changes against it; one without, a removal.
pub open spec fn entry_changes<T: Comparable>(a: Seq<T>, i: int, b: Seq<T>) -> Seq<ChangeView> {
    let n = a[i].key();
    let k = rank(a, i);
    if count_key(b, n) > k {
        a[i].field_changes(&b[nth_key(b, n, k)])
    } else {
        seq![ChangeView::Removed(n)]
    }
}

/// The contributions of the records of `a`, in order.
pub open spec fn departures<T: Comparable>(a: Seq<T>, b: Seq<T>) -> Seq<ChangeView>
    decreases a.len(),
{
    if a.len() == 0 {
        Seq::empty()
    } else {
        departures(a.drop_last(), b) + entry_changes(a, a.len() - 1, b)
    }
}

/// An addition for each record of `b` without a counterpart in `a`, in order.
pub open spec fn arrivals<T: Comparable>(a: Seq<T>, b: Seq<T>) -> Seq<ChangeView>
    decreases b.len(),
{
    if b.len() == 0 {
        Seq::empty()
    } else {
        arrivals(a, b.drop_last()) + if count_key(a, b.last().key()) > rank(b, b.len() - 1) {
            Seq::empty()
        } else {
            seq![ChangeView::Added(b.last().key())]
        }
    }
}

/// The differences from `a` to `b`: removals and field changes in the order of `a`,
/// then additions in the order of `b`.
pub open spec fn diff_spec<T: Comparable>(a: Seq<T>, b: Seq<T>) -> Seq<ChangeView> {
    departures(a, b) + arrivals(a, b)
}

proof fn lemma_count_step<T: Comparable>(s: Seq<T>, n: Seq<char>, i: int)
    requires
        0 <= i < s.len(),
    ensures
        count_key(s.subrange(0, i + 1), n) == count_key(s.subrange(0, i), n) + if s[i].key() == n {
            1nat
        } else {
            0nat
        },
{
    assert(s.subrange(0, i + 1).drop_last() =~= s.subrange(0, i));
    assert(s.subrange(0, i + 1).last() == s[i]);
}

proof fn lemma_count_mono<T: Comparable>(s: Seq<T>, n: Seq<char>, i: int, m: int)
    requires
        0 <= i <= m <= s.len(),
    ensures
        count_key(s.subrange(0, i), n) <= count_key(s.subrange(0, m), n),
    decreases m - i,
{
    if i < m {
        lemma_count_mono(s, n, i, m - 1);
        lemma_count_step(s, n, m - 1);
    }
}

proof fn lemma_rank_below_count<T: Comparable>(s: Seq<T>, i: int)
    requires
        0 <= i < s.len(),
    ensures
        rank(s, i) < count_key(s, s[i].key()),
{
    lemma_count_step(s, s[i].key(), i);
    lemma_count_mono(s, s[i].key(), i + 1, s.len() as int);
    assert(s.subrange(0, s.len() as int) =~= s);
}

proof fn lemma_nth_unique<T: Comparable>(s: Seq<T>, n: Seq<char>, k: nat, i: int, j: int)
    requires
        is_nth(s, n, k, i),
        is_nth(s, n, k, j),
    ensures
        i == j,
{
    if i < j {
        lemma_count_step(s, n, i);
        lemma_count_mono(s, n, i + 1, j);
    } else if j < i {
        lemma_count_step(s, n, j);
        lemma_count_mono(s, n, j + 1, i);
    }
}

proof fn lemma_rank_prefix<T: Comparable>(s: Seq<T>, i: int)
    requires
        0 <= i < s.len() - 1,
    ensures
        rank(s.drop_last(), i) == rank(s, i),
        s.drop_last()[i] == s[i],
{
    assert(s.drop_last().subrange(0, i) =~= s.subrange(0, i));
}

proof fn lemma_nth_exists<T: Comparable>(s: Seq<T>, n: Seq<char>, k: nat)
    requires
        count_key(s, n) > k,
    ensures
        is_nth(s, n, k, nth_key(s, n, k)),
    decreases s.len(),
{
    let d = s.drop_last();
    if count_key(d, n) > k {
        lemma_nth_exists(d, n, k);
        let j = nth_key(d, n, k);
        lemma_rank_prefix(s, j);
        assert(is_nth(s, n, k, j));
    } else {
        let last = s.len() - 1;
        assert(s.subrange(0, last) =~= d);
        assert(s.last() == s[last]);
        assert(is_nth(s, n, k, last));
    }
}

/// Where `j` holds the record of rank `k` named `n`, it is the one `nth_key` picks.
proof fn lemma_nth_key_is<T: Comparable>(s: Seq<T>, n: Seq<char>, k: nat, j: int)
    requires
        is_nth(s, n, k, j),
    ensures
        nth_key(s, n, k) == j,
{
    lemma_count_step(s, n, j);
    lemma_count_mono(s, n, j + 1, s.len() as int);
    assert(s.subrange(0, s.len() as int) =~= s);
    lemma_nth_exists(s, n, k);
    lemma_nth_unique(s, n, k, nth_key(s, n, k), j);
}

proof fn lemma_entry_prefix<T: Comparable>(a: Seq<T>, i: int, b: Seq<T>)
    requires
        0 <= i < a.len() - 1,
    ensures
        entry_changes(a.drop_last(), i, b) == entry_changes(a, i, b),
{
    lemma_rank_prefix(a, i);
}

proof fn lemma_departures_contains<T: Comparable>(a: Seq<T>, b: Seq<T>, d: ChangeView)
    ensures
        departures(a, b).contains(d) <==> exists|i: int|
            0 <= i < a.len() && #[trigger] entry_changes(a, i, b).contains(d),
    decreases a.len(),
{
    if a.len() > 0 {
        let dl = a.drop_last();
        lemma_departures_contains(dl, b, d);
        let p = departures(dl, b);
        let e = entry_changes(a, a.len() - 1, b);
        assert(departures(a, b) == p + e);
        if departures(a, b).contains(d) {
            let j = choose|j: int| 0 <= j < p.len() + e.len() && (p + e)[j] == d;
            if j < p.len() {
                assert(p.contains(d));
                let i = choose|i: int| 0 <= i < dl.len() && #[trigger] entry_changes(dl, i, b).contains(d);
                lemma_entry_prefix(a, i, b);
            } else {
                assert(e[j - p.len()] == d);
                assert(entry_changes(a, a.len() - 1, b).contains(d));
            }
        }
        if exists|i: int| 0 <= i < a.len() && #[trigger] entry_changes(a, i, b).contains(d) {
            let i = choose|i: int| 0 <= i < a.len() && #[trigger] entry_changes(a, i, b).contains(d);
            if i < a.len() - 1 {
                lemma_entry_prefix(a, i, b);
                assert(entry_changes(dl, i, b).contains(d));
                assert(p.contains(d));
                let j = choose|j: int| 0 <= j < p.len() && p[j] == d;
                assert((p + e)[j] == d);
            } else {
                let j = choose|j: int| 0 <= j < e.len() && e[j] == d;
                assert((p + e)[p.len() + j] == d);
            }
        }
    }
}

/// Record `j` of `b` has no counterpart in `a`.
pub open spec fn unmatched<T: Comparable>(a: Seq<T>, b: Seq<T>, j: int) -> bool {
    count_key(a, b[j].key()) <= rank(b, j)
}

proof fn lemma_arrivals_contains<T: Comparable>(a: Seq<T>, b: Seq<T>, d: ChangeView)
    ensures
        arrivals(a, b).contains(d) <==> exists|j: int|
            0 <= j < b.len() && #[trigger] unmatched(a, b, j) && d == ChangeView::Added(b[j].key()),
    decreases b.len(),
{
    if b.len() > 0 {
        let dl = b.drop_last();
        lemma_arrivals_contains(a, dl, d);
        let p = arrivals(a, dl);
        let e: Seq<ChangeView> = if count_key(a, b.last().key()) > rank(b, b.len() - 1) {
            Seq::empty()
        } else {
            seq![ChangeView::Added(b.last().key())]
        };
        assert(arrivals(a, b) == p + e);
        if arrivals(a, b).contains(d) {
            let j = choose|j: int| 0 <= j < p.len() + e.len() && (p + e)[j] == d;
            if j < p.len() {
                assert(p.contains(d));
                let k = choose|k: int|
                    0 <= k < dl.len() && #[trigger] unmatched(a, dl, k) && d == ChangeView::Added(
                        dl[k].key(),
                    );
                lemma_rank_prefix(b, k);
                assert(unmatched(a, b, k));
            } else {
                assert(e[j - p.len()] == d);
                assert(b.last() == b[b.len() - 1]);
                assert(unmatched(a, b, b.len() - 1));
            }
        }
        if exists|j: int|
            0 <= j < b.len() && #[trigger] unmatched(a, b, j) && d == ChangeView::Added(b[j].key()) {
            let j = choose|j: int|
                0 <= j < b.len() && #[trigger] unmatched(a, b, j) && d == ChangeView::Added(
                    b[j].key(),
                );
            if j < b.len() - 1 {
                lemma_rank_prefix(b, j);
                assert(unmatched(a, dl, j));
                assert(p.contains(d));
                let k = choose|k: int| 0 <= k < p.len() && p[k] == d;
                assert((p + e)[k] == d);
            } else {
                assert(b.last() == b[j]);
                assert((p + e)[p.len() as int] == d);
            }
        }
    }
}

proof fn lemma_reversed_involution(c: ChangeView)
    ensures
        reversed(reversed(c)) == c,
{
}

/// Each difference from `a` to `b` appears reversed among those from `b` to `a`.
proof fn lemma_diff_reverses<T: Comparable>(a: Seq<T>, b: Seq<T>, d: ChangeView)
    requires
        diff_spec(a, b).contains(d),
    ensures
        diff_spec(b, a).contains(reversed(d)),
{
    let rd = reversed(d);
    let p = departures(a, b);
    let q = arrivals(a, b);
    let j = choose|j: int| 0 <= j < (p + q).len() && (p + q)[j] == d;
    if j < p.len() {
        assert(p[j] == d);
        lemma_departures_contains(a, b, d);
        let i = choose|i: int| 0 <= i < a.len() && #[trigger] entry_changes(a, i, b).contains(d);
        let n = a[i].key();
        let k = rank(a, i);
        if count_key(b, n) > k {
            lemma_nth_exists(b, n, k);
            let m = nth_key(b, n, k);
            lemma_rank_below_count(a, i);
            lemma_nth_key_is(a, n, k, i);
            T::lemma_field_changes_reversed(&a[i], &b[m]);
            let fc = a[i].field_changes(&b[m]);
            let w = choose|w: int| 0 <= w < fc.len() && fc[w] == d;
            assert(b[m].field_changes(&a[i])[w] == rd);
            assert(entry_changes(b, m, a).contains(rd));
            lemma_departures_contains(b, a, rd);
            let v = choose|v: int| 0 <= v < departures(b, a).len() && departures(b, a)[v] == rd;
            assert(diff_spec(b, a)[v] == rd);
        } else {
            assert(seq![ChangeView::Removed(n)][0] == d);
            assert(unmatched(b, a, i));
            lemma_arrivals_contains(b, a, rd);
            let v = choose|v: int| 0 <= v < arrivals(b, a).len() && arrivals(b, a)[v] == rd;
            assert(diff_spec(b, a)[departures(b, a).len() + v] == rd);
        }
    } else {
        assert(q[j - p.len()] == d);
        assert(q.contains(d));
        lemma_arrivals_contains(a, b, d);
        let m = choose|m: int|
            0 <= m < b.len() && #[trigger] unmatched(a, b, m) && d == ChangeView::Added(b[m].key());
        assert(seq![ChangeView::Removed(b[m].key())][0] == rd);
        assert(entry_changes(b, m, a).contains(rd));
        lemma_departures_contains(b, a, rd);
        let v = choose|v: int| 0 <= v < departures(b, a).len() && departures(b, a)[v] == rd;
        assert(diff_spec(b, a)[v] == rd);
    }
}

/// Comparison is symmetric in content: a difference appears from `a` to `b` exactly
/// when its reversal (removal for addition, old and new values swapped) appears from
/// `b` to `a`. Records sharing a name are paired by their order among that name's records.
pub proof fn law_diff_symmetric<T: Comparable>(a: Seq<T>, b: Seq<T>, d: ChangeView)
    ensures
        diff_spec(a, b).contains(d) <==> diff_spec(b, a).contains(reversed(d)),
{
    if diff_spec(a, b).contains(d) {
        lemma_diff_reverses(a, b, d);
    }
    if diff_spec(b, a).contains(reversed(d)) {
        lemma_diff_reverses(b, a, reversed(d));
        lemma_reversed_involution(d);
    }
}

proof fn lemma_departures_empty<T: Comparable>(a: Seq<T>, b: Seq<T>)
    requires
        forall|i: int| 0 <= i < a.len() ==> #[trigger] entry_changes(a, i, b) == Seq::<ChangeView>::empty(),
    ensures
        departures(a, b) == Seq::<ChangeView>::empty(),
    decreases a.len(),
{
    if a.len() > 0 {
        let dl = a.drop_last();
        assert forall|i: int| 0 <= i < dl.len() implies #[trigger] entry_changes(dl, i, b)
            == Seq::<ChangeView>::empty() by {
            lemma_entry_prefix(a, i, b);
        }
        lemma_departures_empty(dl, b);
        assert(entry_changes(a, a.len() - 1, b) == Seq::<ChangeView>::empty());
        assert(departures(a, b) =~= Seq::<ChangeView>::empty());
    }
}

proof fn lemma_arrivals_empty<T: Comparable>(a: Seq<T>, b: Seq<T>)
    requires
        forall|j: int| 0 <= j < b.len() ==> !#[trigger] unmatched(a, b, j),
    ensures
        arrivals(a, b) == Seq::<ChangeView>::empty(),
    decreases b.len(),
{
    if b.len() > 0 {
        let dl = b.drop_last();
        assert forall|j: int| 0 <= j < dl.len() implies !#[trigger] unmatched(a, dl, j) by {
            lemma_rank_prefix(b, j);
            assert(!unmatched(a, b, j));
        }
        lemma_arrivals_empty(a, dl);
        assert(!unmatched(a, b, b.len() - 1));
        assert(b.last() == b[b.len() - 1]);
        assert(arrivals(a, b) =~= Seq::<ChangeView>::empty());
    }
}

/// Comparing a list with itself finds no difference, repeated names included: each
/// record is paired with itself.
pub proof fn law_diff_self_empty<T: Comparable>(a: Seq<T>)
    ensures
        diff_spec(a, a) == Seq::<ChangeView>::empty(),
{
    assert forall|i: int| 0 <= i < a.len() implies #[trigger] entry_changes(a, i, a) == Seq::<
        ChangeView,
    >::empty() by {
        lemma_rank_below_count(a, i);
        lemma_nth_key_is(a, a[i].key(), rank(a, i), i);
        T::lemma_field_changes_self(&a[i]);
    }
    lemma_departures_empty(a, a);
    assert forall|j: int| 0 <= j < a.len() implies !#[trigger] unmatched(a, a, j) by {
        lemma_rank_below_count(a, j);
    }
    lemma_arrivals_empty(a, a);
    assert(diff_spec(a, a) =~= Seq::<ChangeView>::empty());
}

proof fn lemma_count_same_keys<T: Comparable>(a: Seq<T>, b: Seq<T>, n: Seq<char>)
    requires
        a.len() == b.len(),
        forall|i: int| 0 <= i < a.len() ==> (#[trigger] a[i]).key() == b[i].key(),
    ensures
        count_key(a, n) == count_key(b, n),
    decreases a.len(),
{
    if a.len() > 0 {
        lemma_count_same_keys(a.drop_last(), b.drop_last(), n);
        assert(a[a.len() - 1].key() == b[a.len() - 1].key());
    }
}

/// Lists that agree pointwise on everything a comparison reads have no difference.
pub proof fn law_diff_same_content_empty<T: Comparable>(a: Seq<T>, b: Seq<T>)
    requires
        a.len() == b.len(),
        forall|i: int| 0 <= i < a.len() ==> (#[trigger] a[i]).same_content(&b[i]),
    ensures
        diff_spec(a, b) == Seq::<ChangeView>::empty(),
{
    assert forall|i: int| 0 <= i < a.len() implies (#[trigger] a[i]).key() == b[i].key() by {
        T::lemma_same_content(&a[i], &b[i]);
    }
    assert forall|i: int| 0 <= i < a.len() implies #[trigger] entry_changes(a, i, b) == Seq::<
        ChangeView,
    >::empty() by {
        let n = a[i].key();
        T::lemma_same_content(&a[i], &b[i]);
        assert forall|x: int| 0 <= x < i implies (#[trigger] a.subrange(0, i)[x]).key() == b.subrange(
            0,
            i,
        )[x].key() by {
            assert(a[x].key() == b[x].key());
        }
        lemma_count_same_keys(a.subrange(0, i), b.subrange(0, i), n);
        lemma_count_same_keys(a, b, n);
        lemma_rank_below_count(a, i);
        lemma_nth_key_is(b, n, rank(a, i), i);
    }
    lemma_departures_empty(a, b);
    assert forall|j: int| 0 <= j < b.len() implies !#[trigger] unmatched(a, b, j) by {
        let n = b[j].key();
        lemma_count_same_keys(a, b, n);
        lemma_rank_below_count(b, j);
    }
    lemma_arrivals_empty(a, b);
    assert(diff_spec(a, b) =~= Seq::<ChangeView>::empty());
}

fn count_before<T: Comparable>(s: &Vec<T>, n: &String, end: usize) -> (r: usize)
    requires
        end <= s@.len(),
    ensures
        r == count_key(s@.subrange(0, end as int), n@),
{
    let mut c: usize = 0;
    let mut i: usize = 0;
    assert(s@.subrange(0, 0) =~= Seq::<T>::empty());
    while i < end
        invariant
            end <= s@.len(),
            i <= end,
            c <= i,
            c == count_key(s@.subrange(0, i as int), n@),
        decreases end - i,
    {
        proof {
            lemma_count_step(s@, n@, i as int);
        }
        if *s[i].key_string() == *n {
            c = c + 1;
        }
        i = i + 1;
    }
    c
}

fn find_nth<T: Comparable>(s: &Vec<T>, n: &String, k: usize) -> (r: Option<usize>)
    ensures
        r is None <==> count_key(s@, n@) <= k,
        r is Some ==> is_nth(s@, n@, k as nat, r->Some_0 as int),
{
    let mut c: usize = 0;
    let mut i: usize = 0;
    assert(s@.subrange(0, 0) =~= Seq::<T>::empty());
    while i < s.len()
        invariant
            i <= s@.len(),
            c <= k,
            c == count_key(s@.subrange(0, i as int), n@),
        decreases s@.len() - i,
    {
        proof {
            lemma_count_step(s@, n@, i as int);
        }
        if *s[i].key_string() == *n {
            if c == k {
                proof {
                    lemma_count_step(s@, n@, i as int);
                    lemma_count_mono(s@, n@, i + 1, s@.len() as int);
                    assert(s@.subrange(0, s@.len() as int) =~= s@);
                }
                return Some(i);
            }
            c = c + 1;
        }
        i = i + 1;
    }
    assert(s@.subrange(0, s@.len() as int) =~= s@);
    None
}

fn push_change(out: &mut Vec<Change>, c: Change)
    ensures
        changes_view(final(out)@) == changes_view(old(out)@).push(c@),
{
    out.push(c);
    assert(changes_view(out@) =~= changes_view(old(out)@).push(c@));
}

/// The differences from `a` to `b`: removals and field changes in the order of `a`,
/// then additions in the order of `b`; records sharing a name are paired by their order
/// among that name's records.
pub fn diff_lists<T: Comparable>(a: &Vec<T>, b: &Vec<T>) -> (r: Vec<Change>)
    ensures
        changes_view(r@) == diff_spec(a@, b@),
{
    let mut out: Vec<Change> = Vec::new();
    let mut i: usize = 0;
    assert(changes_view(out@) =~= departures(a@.subrange(0, 0), b@));
    while i < a.len()
        invariant
            i <= a@.len(),
            changes_view(out@) == departures(a@.subrange(0, i as int), b@),
        decreases a@.len() - i,
    {
        let ghost pre = a@.subrange(0, i as int);
        let ghost post = a@.subrange(0, i + 1);
        proof {
            assert(post.drop_last() =~= pre);
            assert(post.subrange(0, i as int) =~= a@.subrange(0, i as int));
            assert(entry_changes(post, i as int, b@) == entry_changes(a@, i as int, b@));
        }
        let x = &a[i];
        let k = count_before(a, x.key_string(), i);
        match find_nth(b, x.key_string(), k) {
            Some(j) => {
                proof {
                    lemma_nth_key_is(b@, x.key(), k as nat, j as int);
                }
                x.push_field_changes(&b[j], &mut out);
            },
            None => {
                push_change(&mut out, Change::Removed(x.key_string().clone()));
                assert(changes_view(out@) =~= departures(pre, b@) + seq![ChangeView::Removed(x.key())]);
            },
        }
        i = i + 1;
    }
    assert(a@.subrange(0, a@.len() as int) =~= a@);
    let ghost dep = changes_view(out@);
    let mut j: usize = 0;
    assert(dep + arrivals(a@, b@.subrange(0, 0)) =~= dep);
    while j < b.len()
        invariant
            j <= b@.len(),
            dep == departures(a@, b@),
            changes_view(out@) == dep + arrivals(a@, b@.subrange(0, j as int)),
        decreases b@.len() - j,
    {
        let ghost pre = b@.subrange(0, j as int);
        let ghost post = b@.subrange(0, j + 1);
        proof {
            assert(post.drop_last() =~= pre);
            assert(post.last() == b@[j as int]);
            assert(post.subrange(0, j as int) =~= b@.subrange(0, j as int));
        }
        let y = &b[j];
        let k = count_before(b, y.key_string(), j);
        match find_nth(a, y.key_string(), k) {
            Some(_) => {
                assert(changes_view(out@) =~= dep + arrivals(a@, post));
            },
            None => {
                push_change(&mut out, Change::Added(y.key_string().clone()));
                assert(changes_view(out@) =~= dep + arrivals(a@, post));
            },
        }
        j = j + 1;
    }
    assert(b@.subrange(0, b@.len() as int) =~= b@);
    out
}

impl Comparable for SectionInfo {
    open spec fn key(&self) -> Seq<char> {
        self.name@
    }

    open spec fn field_changes(&self, other: &Self) -> Seq<ChangeView> {
        (if self.address != other.address {
            seq![ChangeView::AddressChanged(self.name@, self.address, other.address)]
        } else {
            Seq::empty()
        }) + (if self.size != other.size {
            seq![ChangeView::SizeChanged(self.name@, self.size, other.size)]
        } else {
            Seq::empty()
        })
    }

    fn key_string(&self) -> (r: &String) {
        &self.name
    }

    fn push_field_changes(&self, other: &Self, out: &mut Vec<Change>) {
        let ghost start = changes_view(out@);
        if self.address != other.address {
            push_change(out, Change::AddressChanged(self.name.clone(), self.address, other.address));
        }
        if self.size != other.size {
            push_change(out, Change::SizeChanged(self.name.clone(), self.size, other.size));
        }
        assert(changes_view(out@) =~= start + self.field_changes(other));
    }

    proof fn lemma_field_changes_reversed(x: &Self, y: &Self) {
        assert(y.field_changes(x) =~= x.field_changes(y).map_values(|c: ChangeView| reversed(c)));
    }

    proof fn lemma_field_changes_self(x: &Self) {
        assert(x.field_changes(x) =~= Seq::<ChangeView>::empty());
    }

    open spec fn same_content(&self, other: &Self) -> bool {
        self.name@ == other.name@ && self.address == other.address && self.size == other.size
    }

    proof fn lemma_same_content(x: &Self, y: &Self) {
        assert(x.field_changes(y) =~= Seq::<ChangeView>::empty());
    }
}

impl Comparable for SymbolInfo {
    open spec fn key(&self) -> Seq<char> {
        self.name@
    }

    open spec fn field_changes(&self, other: &Self) -> Seq<ChangeView> {
        (if self.address != other.address {
            seq![ChangeView::AddressChanged(self.name@, self.address, other.address)]
        } else {
            Seq::empty()
        }) + (if self.kind@ != other.kind@ {
            seq![ChangeView::KindChanged(self.name@, self.kind@, other.kind@)]
        } else {
            Seq::empty()
        })
    }

    fn key_string(&self) -> (r: &String) {
        &self.name
    }

    fn push_field_changes(&self, other: &Self, out: &mut Vec<Change>) {
        let ghost start = changes_view(out@);
        if self.address != other.address {
            push_change(out, Change::AddressChanged(self.name.clone(), self.address, other.address));
        }
        if self.kind != other.kind {
            push_change(out, Change::KindChanged(self.name.clone(), self.kind.clone(), other.kind.clone()));
        }
        assert(changes_view(out@) =~= start + self.field_changes(other));
    }

    proof fn lemma_field_changes_reversed(x: &Self, y: &Self) {
        assert(y.field_changes(x) =~= x.field_changes(y).map_values(|c: ChangeView| reversed(c)));
    }

    proof fn lemma_field_changes_self(x: &Self) {
        assert(x.field_changes(x) =~= Seq::<ChangeView>::empty());
    }

    open spec fn same_content(&self, other: &Self) -> bool {
        self.name@ == other.name@ && self.address == other.address && self.kind@ == other.kind@
    }

    proof fn lemma_same_content(x: &Self, y: &Self) {
        assert(x.field_changes(y) =~= Seq::<ChangeView>::empty());
    }
}

/// The structural differences between two analyses.
pub struct DiffResult {
    pub section_diffs: Vec<Change>,
    pub symbol_diffs: Vec<Change>,
}

/// Compares analyses by section and symbol name.
pub struct DiffEngine;

impl DiffEngine {
    /// Section differences, then symbol differences, from `a` to `b`.
    pub fn compare(a: &AnalysisResult, b: &AnalysisResult) -> (r: DiffResult)
        ensures
            changes_view(r.section_diffs@) == diff_spec(a.sections@, b.sections@),
            changes_view(r.symbol_diffs@) == diff_spec(a.symbols@, b.symbols@),
    {
        DiffResult {
            section_diffs: diff_lists(&a.sections, &b.sections),
            symbol_diffs: diff_lists(&a.symbols, &b.symbols),
        }
    }
}

} // verus!
