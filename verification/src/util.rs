//! Small verified helpers shared by the ledger and the notification
//! pipeline: byte-vector equality, appending, decimal rendering of
//! counters, and string-vector membership.

use vstd::prelude::*;

verus! {

/// The ASCII decimal digits of `n`, most significant first.
pub open spec fn spec_dec_bytes(n: u64) -> Seq<u8>
    decreases n,
{
    if n < 10 {
        seq![(48 + n) as u8]
    } else {
        spec_dec_bytes(n / 10).push((48 + n % 10) as u8)
    }
}

/// Distinct counters render to distinct digit strings.
pub proof fn lemma_dec_bytes_injective(a: u64, b: u64)
    requires
        spec_dec_bytes(a) == spec_dec_bytes(b),
    ensures
        a == b,
    decreases a + b,
{
    if a < 10 && b < 10 {
        let da = (48 + a) as u8;
        let db = (48 + b) as u8;
        assert(spec_dec_bytes(a)[0] == da);
        assert(spec_dec_bytes(b)[0] == db);
        assert(da as u64 == 48 + a);
        assert(db as u64 == 48 + b);
    } else if a < 10 {
        assert(spec_dec_bytes(b).len() == spec_dec_bytes(b / 10).len() + 1);
        lemma_dec_bytes_len(b / 10);
        assert(spec_dec_bytes(a).len() == 1);
    } else if b < 10 {
        lemma_dec_bytes_len(a / 10);
        assert(spec_dec_bytes(b).len() == 1);
    } else {
        assert(spec_dec_bytes(a).last() == spec_dec_bytes(b).last());
        let da = (48 + a % 10) as u8;
        let db = (48 + b % 10) as u8;
        assert(spec_dec_bytes(a).last() == da);
        assert(spec_dec_bytes(b).last() == db);
        assert(da as u64 == 48 + a % 10);
        assert(db as u64 == 48 + b % 10);
        assert(a % 10 == b % 10);
        assert(spec_dec_bytes(a).drop_last() =~= spec_dec_bytes(a / 10));
        assert(spec_dec_bytes(b).drop_last() =~= spec_dec_bytes(b / 10));
        lemma_dec_bytes_injective(a / 10, b / 10);
        assert(a == 10 * (a / 10) + a % 10) by {
            vstd::arithmetic::div_mod::lemma_fundamental_div_mod(a as int, 10);
        }
        assert(b == 10 * (b / 10) + b % 10) by {
            vstd::arithmetic::div_mod::lemma_fundamental_div_mod(b as int, 10);
        }
    }
}

/// The rendering is never empty.
pub proof fn lemma_dec_bytes_len(n: u64)
    ensures
        spec_dec_bytes(n).len() >= 1,
    decreases n,
{
    if n >= 10 {
        lemma_dec_bytes_len(n / 10);
    }
}

/// Render `n` in decimal as ASCII bytes.
pub fn u64_dec_bytes(n: u64) -> (r: Vec<u8>)
    ensures
        r@ == spec_dec_bytes(n),
    decreases n,
{
    if n < 10 {
        let mut v: Vec<u8> = Vec::new();
        v.push(48 + n as u8);
        proof {
            assert(v@ =~= spec_dec_bytes(n));
        }
        v
    } else {
        let mut v = u64_dec_bytes(n / 10);
        v.push(48 + (n % 10) as u8);
        v
    }
}

/// Byte-vector equality.
pub fn bytes_eq(a: &Vec<u8>, b: &Vec<u8>) -> (r: bool)
    ensures
        r == (a@ == b@),
{
    if a.len() != b.len() {
        proof {
            assert(a@.len() != b@.len());
        }
        return false;
    }
    let n = a.len();
    for i in 0..n
        invariant
            n == a@.len(),
            n == b@.len(),
            forall|j: int| 0 <= j < i ==> a@[j] == b@[j],
    {
        if a[i] != b[i] {
            return false;
        }
    }
    proof {
        assert(a@ =~= b@);
    }
    true
}

/// Append the bytes of `src` to `dst`.
pub fn append_bytes(dst: &mut Vec<u8>, src: &Vec<u8>)
    ensures
        final(dst)@ == old(dst)@ + src@,
{
    let n = src.len();
    for i in 0..n
        invariant
            n == src@.len(),
            dst@ == old(dst)@ + src@.take(i as int),
    {
        dst.push(src[i]);
        proof {
            assert(old(dst)@ + src@.take(i as int) + seq![src@[i as int]] =~= old(dst)@
                + src@.take(i + 1));
        }
    }
    proof {
        assert(src@.take(n as int) =~= src@);
    }
}

/// Append the bytes of a slice to `dst`.
pub fn append_slice(dst: &mut Vec<u8>, src: &[u8])
    ensures
        final(dst)@ == old(dst)@ + src@,
{
    let n = src.len();
    for i in 0..n
        invariant
            n == src@.len(),
            dst@ == old(dst)@ + src@.take(i as int),
    {
        dst.push(src[i]);
        proof {
            assert(old(dst)@ + src@.take(i as int) + seq![src@[i as int]] =~= old(dst)@
                + src@.take(i + 1));
        }
    }
    proof {
        assert(src@.take(n as int) =~= src@);
    }
}

/// Does the vector hold a string whose characters equal `k`'s?
pub open spec fn spec_contains_string(v: Seq<String>, k: Seq<char>) -> bool {
    exists|i: int| 0 <= i < v.len() && v[i]@ == k
}

/// No two entries of the vector read the same.
pub open spec fn strings_distinct(v: Seq<String>) -> bool {
    forall|i: int, j: int| 0 <= i < j < v.len() ==> v[i]@ != v[j]@
}

pub fn contains_string(v: &Vec<String>, k: &String) -> (r: bool)
    ensures
        r == spec_contains_string(v@, k@),
{
    let n = v.len();
    for i in 0..n
        invariant
            n == v@.len(),
            forall|j: int| 0 <= j < i ==> v@[j]@ != k@,
    {
        if v[i].eq(k) {
            return true;
        }
    }
    false
}

/// A copy of a vector of strings, character for character.
pub fn dup_strings(v: &Vec<String>) -> (r: Vec<String>)
    ensures
        r@ == v@,
{
    let mut out: Vec<String> = Vec::new();
    let n = v.len();
    for i in 0..n
        invariant
            n == v@.len(),
            out@ == v@.take(i as int),
    {
        out.push(v[i].clone());
        proof {
            assert(v@.take(i as int).push(v@[i as int]) =~= v@.take(i + 1));
        }
    }
    proof {
        assert(v@.take(n as int) =~= v@);
    }
    out
}

/// A copy of a byte vector.
pub fn dup_bytes(v: &Vec<u8>) -> (r: Vec<u8>)
    ensures
        r@ == v@,
{
    vstd::slice::slice_to_vec(v.as_slice())
}

} // verus!
