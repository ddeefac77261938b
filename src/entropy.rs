use vstd::prelude::*;

verus! {

/// How many bytes of `s` equal `v`.
pub open spec fn count_byte(s: Seq<u8>, v: int) -> nat
    decreases s.len(),
{
    if s.len() == 0 {
        0
    } else {
        count_byte(s.drop_last(), v) + if s.last() == v {
            1nat
        } else {
            0nat
        }
    }
}

proof fn lemma_count_byte_bound(s: Seq<u8>, v: int)
    ensures
        count_byte(s, v) <= s.len(),
    decreases s.len(),
{
    if s.len() > 0 {
        lemma_count_byte_bound(s.drop_last(), v);
    }
}

/// The byte-value histogram of `s` as 256 counts.
pub open spec fn histogram_spec(s: Seq<u8>) -> Seq<u64> {
    Seq::new(256, |v: int| count_byte(s, v) as u64)
}

/// The byte-value histogram of `bytes`: 256 bins, bin `v` counting the bytes equal to
/// `v`. Shannon entropy is a function of these counts alone.
pub fn byte_histogram(bytes: &[u8]) -> (r: Vec<u64>)
    ensures
        r@.len() == 256,
        forall|v: int| 0 <= v < 256 ==> #[trigger] r@[v] == count_byte(bytes@, v),
        r@ == histogram_spec(bytes@),
{
    let mut bins: Vec<u64> = Vec::new();
    let mut v: usize = 0;
    while v < 256
        invariant
            v <= 256,
            bins@.len() == v,
            forall|k: int| 0 <= k < v ==> #[trigger] bins@[k] == 0,
        decreases 256 - v,
    {
        bins.push(0);
        v = v + 1;
    }
    let n = bytes.len();
    let mut i: usize = 0;
    while i < n
        invariant
            n == bytes@.len(),
            i <= n,
            bins@.len() == 256,
            forall|k: int| 0 <= k < 256 ==> #[trigger] bins@[k] == count_byte(bytes@.subrange(0, i as int), k),
        decreases n - i,
    {
        let ghost pre = bytes@.subrange(0, i as int);
        let ghost post = bytes@.subrange(0, i + 1);
        assert(post.drop_last() =~= pre);
        let b = bytes[i] as usize;
        proof {
            lemma_count_byte_bound(pre, b as int);
        }
        let c = bins[b];
        bins.set(b, c + 1);
        i = i + 1;
    }
    assert(bytes@.subrange(0, n as int) =~= bytes@);
    assert forall|v: int| 0 <= v < 256 implies #[trigger] histogram_spec(bytes@)[v] == bins@[v] by {
        lemma_count_byte_bound(bytes@, v);
    }
    assert(bins@ =~= histogram_spec(bytes@));
    bins
}

/// A section whose bytes all equal one value has a single non-empty bin, holding every
/// byte: the distribution that Shannon entropy rates at zero.
pub proof fn law_constant_bytes_single_bin(s: Seq<u8>, b: u8)
    requires
        forall|i: int| 0 <= i < s.len() ==> #[trigger] s[i] == b,
    ensures
        count_byte(s, b as int) == s.len(),
        forall|v: int| v != b ==> #[trigger] count_byte(s, v) == 0,
    decreases s.len(),
{
    if s.len() > 0 {
        law_constant_bytes_single_bin(s.drop_last(), b);
        assert(s.last() == s[s.len() - 1]);
        assert forall|v: int| v != b implies #[trigger] count_byte(s, v) == 0 by {
            assert(count_byte(s.drop_last(), v) == 0);
        }
    }
}

} // verus!
