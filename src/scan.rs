use vstd::prelude::*;

verus! {

/// The offsets `0 .. n` that satisfy `p`, ascending.
pub open spec fn indices_where(n: nat, p: spec_fn(int) -> bool) -> Seq<u64>
    decreases n,
{
    if n == 0 {
        Seq::empty()
    } else {
        let prev = indices_where((n - 1) as nat, p);
        if p(n - 1) {
            prev.push((n - 1) as u64)
        } else {
            prev
        }
    }
}

/// An offset lies in `indices_where(n, p)` exactly when it is below `n` and satisfies `p`,
/// and the offsets are strictly ascending.
pub proof fn lemma_indices_where(n: nat, p: spec_fn(int) -> bool)
    requires
        n <= u64::MAX + 1,
    ensures
        forall|k: int| 0 <= k < n ==> (indices_where(n, p).contains(k as u64) <==> #[trigger] p(k)),
        forall|o: u64| indices_where(n, p).contains(o) ==> o < n && p(o as int),
        forall|a: int, b: int|
            0 <= a < b < indices_where(n, p).len() ==> indices_where(n, p)[a]
                < indices_where(n, p)[b],
    decreases n,
{
    if n > 0 {
        lemma_indices_where((n - 1) as nat, p);
        let prev = indices_where((n - 1) as nat, p);
        let cur = indices_where(n, p);
        if p(n - 1) {
            assert(cur == prev.push((n - 1) as u64));
            assert forall|k: int| 0 <= k < n implies (cur.contains(k as u64) <==> #[trigger] p(k)) by {
                if k < n - 1 {
                    if cur.contains(k as u64) {
                        let j = choose|j: int| 0 <= j < cur.len() && cur[j] == k as u64;
                        if j < prev.len() {
                            assert(prev[j] == k as u64);
                        }
                    }
                    if p(k) {
                        let j = choose|j: int| 0 <= j < prev.len() && prev[j] == k as u64;
                        assert(cur[j] == k as u64);
                    }
                } else {
                    assert(cur[cur.len() - 1] == k as u64);
                }
            }
            assert forall|o: u64| cur.contains(o) implies o < n && p(o as int) by {
                let j = choose|j: int| 0 <= j < cur.len() && cur[j] == o;
                if j < prev.len() {
                    assert(prev[j] == o);
                    assert(prev.contains(o));
                } else {
                    assert(o as int == n - 1);
                }
            }
            assert forall|a: int, b: int| 0 <= a < b < cur.len() implies cur[a] < cur[b] by {
                if b == cur.len() - 1 {
                    assert(prev[a] == cur[a]);
                    assert(prev.contains(cur[a]));
                } else {
                    assert(prev[a] == cur[a] && prev[b] == cur[b]);
                }
            }
        } else {
            assert forall|k: int| 0 <= k < n implies (cur.contains(k as u64) <==> #[trigger] p(k)) by {
                if k == n - 1 && cur.contains(k as u64) {
                    assert(k < n - 1);
                }
            }
        }
    }
}

/// A hexadecimal digit of either case.
pub open spec fn is_hex_digit(c: char) -> bool {
    ('0' <= c && c <= '9') || ('a' <= c && c <= 'f') || ('A' <= c && c <= 'F')
}

/// The value of a hexadecimal digit.
pub open spec fn hex_value(c: char) -> int {
    if '0' <= c && c <= '9' {
        c as int - '0' as int
    } else if 'a' <= c && c <= 'f' {
        c as int - 'a' as int + 10
    } else {
        c as int - 'A' as int + 10
    }
}

/// Text that decodes to bytes: an even number of hexadecimal digits.
pub open spec fn is_valid_hex(s: Seq<char>) -> bool {
    s.len() % 2 == 0 && forall|i: int| 0 <= i < s.len() ==> is_hex_digit(#[trigger] s[i])
}

/// The bytes that valid hexadecimal text stands for, two digits per byte, high nibble first.
pub open spec fn hex_bytes(s: Seq<char>) -> Seq<u8> {
    Seq::new(s.len() / 2, |i: int| (hex_value(s[2 * i]) * 16 + hex_value(s[2 * i + 1])) as u8)
}

#[verifier::external_type_specification]
#[verifier::external_body]
pub struct ExFromHexError(hex::FromHexError);

/// Relies on `hex::decode`: it fails on an odd number of digits or on any byte that is
/// not a hexadecimal digit of either case, and otherwise turns each pair of digits into
/// one byte, high nibble first.
#[verifier::external_body]
pub(crate) fn decode_hex(s: &str) -> (r: Result<Vec<u8>, hex::FromHexError>)
    ensures
        r is Ok <==> is_valid_hex(s@),
        r is Ok ==> r->Ok_0@ == hex_bytes(s@),
{
    hex::decode(s)
}

/// `pat` occurs in `data` starting at offset `i`.
pub open spec fn occurs_at(data: Seq<u8>, pat: Seq<u8>, i: int) -> bool {
    0 <= i && i + pat.len() <= data.len() && data.subrange(i, i + pat.len()) == pat
}

/// Every offset at which a non-empty `pat` occurs in `data`, ascending, overlaps included.
pub open spec fn match_offsets(data: Seq<u8>, pat: Seq<u8>) -> Seq<u64> {
    indices_where(data.len(), |i: int| pat.len() > 0 && occurs_at(data, pat, i))
}

fn occurs_at_exec(data: &[u8], pat: &[u8], i: usize) -> (r: bool)
    requires
        i + pat@.len() <= data@.len(),
    ensures
        r == occurs_at(data@, pat@, i as int),
{
    let n = data.len();
    let mut j: usize = 0;
    while j < pat.len()
        invariant
            n == data@.len(),
            j <= pat@.len(),
            i + pat@.len() <= data@.len(),
            forall|k: int| 0 <= k < j ==> data@[i + k] == pat@[k],
        decreases pat@.len() - j,
    {
        if data[i + j] != pat[j] {
            assert(data@.subrange(i as int, i + pat@.len())[j as int] != pat@[j as int]);
            return false;
        }
        j = j + 1;
    }
    assert(data@.subrange(i as int, i + pat@.len()) =~= pat@);
    true
}

/// Naive exhaustive search: every offset at which `pat` occurs in `data`.
/// An empty pattern, or one longer than `data`, has no matches.
pub fn find_pattern(data: &[u8], pat: &[u8]) -> (r: Vec<u64>)
    ensures
        r@ == match_offsets(data@, pat@),
{
    let ghost p = |i: int| pat@.len() > 0 && occurs_at(data@, pat@, i);
    let mut out: Vec<u64> = Vec::new();
    let mut i: usize = 0;
    while i < data.len()
        invariant
            i <= data@.len(),
            out@ == indices_where(i as nat, p),
            p == (|i: int| pat@.len() > 0 && occurs_at(data@, pat@, i)),
        decreases data@.len() - i,
    {
        let hit = pat.len() > 0 && pat.len() <= data.len() - i && occurs_at_exec(data, pat, i);
        assert(hit == p(i as int));
        if hit {
            out.push(i as u64);
        }
        i = i + 1;
    }
    out
}

/// Exactness of pattern search: an offset is reported if and only if the pattern
/// occurs there, and the offsets come in strictly ascending order.
pub proof fn law_pattern_search_exact(data: Seq<u8>, pat: Seq<u8>)
    requires
        data.len() <= u64::MAX,
    ensures
        forall|k: int|
            0 <= k < data.len() ==> (match_offsets(data, pat).contains(k as u64) <==> (pat.len()
                > 0 && #[trigger] occurs_at(data, pat, k))),
        forall|o: u64|
            #[trigger] match_offsets(data, pat).contains(o) ==> pat.len() > 0 && occurs_at(
                data,
                pat,
                o as int,
            ),
        forall|a: int, b: int|
            0 <= a < b < match_offsets(data, pat).len() ==> match_offsets(data, pat)[a]
                < match_offsets(data, pat)[b],
{
    let p = |i: int| pat.len() > 0 && occurs_at(data, pat, i);
    lemma_indices_where(data.len(), p);
    assert forall|k: int| 0 <= k < data.len() implies (match_offsets(data, pat).contains(
        k as u64,
    ) <==> (pat.len() > 0 && #[trigger] occurs_at(data, pat, k))) by {
        assert(p(k) == (pat.len() > 0 && occurs_at(data, pat, k)));
    }
    assert forall|o: u64| #[trigger] match_offsets(data, pat).contains(o) implies pat.len() > 0
        && occurs_at(data, pat, o as int) by {
        assert(p(o as int) == (pat.len() > 0 && occurs_at(data, pat, o as int)));
    }
}

} // verus!
