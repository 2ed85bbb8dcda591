//! Byte sequences: the few operations on them that the constructions share.

use vstd::prelude::*;
use vstd::slice::slice_to_vec;

verus! {

/// `a`, each byte xored with the byte of `b` at the same place, as far as `b`
/// reaches; what lies beyond stays as it is.
pub open spec fn xor_zip(a: Seq<u8>, b: Seq<u8>) -> Seq<u8> {
    Seq::new(
        a.len(),
        |i: int|
            if i < b.len() {
                a[i] ^ b[i]
            } else {
                a[i]
            },
    )
}

/// `n` zero bytes.
pub open spec fn zeros(n: nat) -> Seq<u8> {
    Seq::new(n, |i: int| 0u8)
}

/// For two sequences of one length: xoring `b` with what `a` xored with `b`
/// gave yields `a`.
pub proof fn lemma_xor_zip_undo(a: Seq<u8>, b: Seq<u8>)
    requires
        a.len() == b.len(),
    ensures
        xor_zip(b, xor_zip(a, b)) == a,
{
    let masked = xor_zip(a, b);
    let undone = xor_zip(b, masked);
    assert forall|i: int| 0 <= i < a.len() implies undone[i] == a[i] by {
        let x = a[i];
        let y = b[i];
        assert(y ^ (x ^ y) == x) by (bit_vector);
    }
    assert(undone =~= a);
}

/// Xors `b` into `a` in place.
pub fn xor_in_place(a: &mut Vec<u8>, b: &[u8])
    ensures
        final(a)@ == xor_zip(old(a)@, b@),
{
    let n = if a.len() < b.len() {
        a.len()
    } else {
        b.len()
    };
    let mut i: usize = 0;
    while i < n
        invariant
            i <= n,
            n <= a@.len(),
            n <= b@.len(),
            a@.len() == old(a)@.len(),
            forall|j: int| 0 <= j < i ==> a@[j] == old(a)@[j] ^ b@[j],
            forall|j: int| i <= j < a@.len() ==> a@[j] == old(a)@[j],
        decreases n - i,
    {
        let x = a[i] ^ b[i];
        a[i] = x;
        i += 1;
    }
    assert(a@ =~= xor_zip(old(a)@, b@));
}

/// `a` followed by `b`.
pub fn concat(a: &[u8], b: &[u8]) -> (out: Vec<u8>)
    ensures
        out@ == a@ + b@,
{
    let mut out = slice_to_vec(a);
    out.extend_from_slice(b);
    out
}

/// Overwrites `dst` with `src`, which has the same length.
pub fn copy_into(dst: &mut [u8], src: &[u8])
    requires
        old(dst)@.len() == src@.len(),
    ensures
        final(dst)@ == src@,
{
    let n = src.len();
    let mut i: usize = 0;
    while i < n
        invariant
            i <= n,
            n == src@.len(),
            dst@.len() == n,
            forall|j: int| 0 <= j < i ==> dst@[j] == src@[j],
        decreases n - i,
    {
        dst[i] = src[i];
        i += 1;
    }
    assert(dst@ =~= src@);
}

/// An array that holds the `N` bytes of `src`.
pub fn array_of<const N: usize>(src: &[u8]) -> (out: [u8; N])
    requires
        src@.len() == N,
    ensures
        out@ == src@,
{
    let mut out = [0u8; N];
    let mut i: usize = 0;
    while i < N
        invariant
            i <= N,
            src@.len() == N,
            forall|j: int| 0 <= j < i ==> out@[j] == src@[j],
        decreases N - i,
    {
        out[i] = src[i];
        i += 1;
    }
    assert(out@ =~= src@);
    out
}

/// The bytes of `data` from `from` up to `to`.
pub fn copy_range(data: &[u8], from: usize, to: usize) -> (out: Vec<u8>)
    requires
        from <= to <= data@.len(),
    ensures
        out@ == data@.subrange(from as int, to as int),
{
    let mut out: Vec<u8> = Vec::new();
    let mut i: usize = from;
    while i < to
        invariant
            from <= i <= to,
            to <= data@.len(),
            out@ == data@.subrange(from as int, i as int),
        decreases to - i,
    {
        out.push(data[i]);
        assert(out@ =~= data@.subrange(from as int, i + 1));
        i += 1;
    }
    out
}

} // verus!
