use vstd::prelude::*;

verus! {

/// The integer denoted by a big-endian byte string.
pub open spec fn be_int(s: Seq<u8>) -> nat
    decreases s.len(),
{
    if s.len() == 0 {
        0
    } else {
        (be_int(s.drop_last()) * 256 + s.last()) as nat
    }
}

/// A run of `n` zero bytes.
pub open spec fn zero_bytes(n: nat) -> Seq<u8> {
    Seq::new(n, |i: int| 0u8)
}

/// 256 to the power `n`: the number of byte strings of length `n`.
pub open spec fn pow256(n: nat) -> nat
    decreases n,
{
    if n == 0 {
        1
    } else {
        pow256((n - 1) as nat) * 256
    }
}

pub proof fn lemma_pow256_pos(n: nat)
    ensures
        pow256(n) >= 1,
    decreases n,
{
    if n > 0 {
        lemma_pow256_pos((n - 1) as nat);
    }
}

/// A big-endian byte string of length `n` denotes an integer below 256^n.
pub proof fn lemma_be_int_bound(s: Seq<u8>)
    ensures
        be_int(s) < pow256(s.len()),
    decreases s.len(),
{
    if s.len() > 0 {
        lemma_be_int_bound(s.drop_last());
    }
}

/// Concatenation splits the denoted integer positionally.
pub proof fn lemma_be_int_append(a: Seq<u8>, b: Seq<u8>)
    ensures
        be_int(a + b) == be_int(a) * pow256(b.len()) + be_int(b),
    decreases b.len(),
{
    if b.len() == 0 {
        assert(a + b =~= a);
        assert(pow256(b.len()) == 1);
        assert(be_int(b) == 0);
        assert(be_int(a) * 1 == be_int(a)) by (nonlinear_arith);
    } else {
        lemma_be_int_append(a, b.drop_last());
        let av = be_int(a) as int;
        let xv = be_int(b.drop_last()) as int;
        let lv = b.last() as int;
        let p = pow256((b.len() - 1) as nat) as int;
        assert((a + b).drop_last() =~= a + b.drop_last());
        assert((a + b).last() == b.last());
        assert(be_int(a + b) == (av * p + xv) * 256 + lv);
        assert((av * p + xv) * 256 + lv == av * (p * 256) + (xv * 256 + lv)) by (nonlinear_arith);
        assert(pow256(b.len()) == p * 256);
        assert(be_int(b) == xv * 256 + lv);
        assert(be_int(a + b) == av * pow256(b.len()) + be_int(b));
    }
}

/// A byte string denotes zero exactly when every byte is zero.
pub proof fn lemma_be_int_zero(s: Seq<u8>)
    ensures
        (be_int(s) == 0) <==> (s =~= zero_bytes(s.len())),
    decreases s.len(),
{
    if s.len() > 0 {
        lemma_be_int_zero(s.drop_last());
        if be_int(s) == 0 {
            assert(s.drop_last() =~= zero_bytes((s.len() - 1) as nat));
            assert forall|i: int| 0 <= i < s.len() implies s[i] == 0u8 by {
                if i < s.len() - 1 {
                    assert(s.drop_last()[i] == 0u8);
                }
            }
        } else {
            if s =~= zero_bytes(s.len()) {
                assert(s.drop_last() =~= zero_bytes((s.len() - 1) as nat));
            }
        }
    }
}

/// Equal-length byte strings compare as integers exactly as they compare
/// lexicographically; this lemma gives the strict-less direction from the
/// first position where they differ.
pub proof fn lemma_be_int_lt_from_index(a: Seq<u8>, b: Seq<u8>, i: int)
    requires
        a.len() == b.len(),
        0 <= i < a.len(),
        a.subrange(0, i) == b.subrange(0, i),
        a[i] < b[i],
    ensures
        be_int(a) < be_int(b),
{
    let n = a.len() as int;
    let m = (n - i - 1) as nat;
    assert(a =~= a.subrange(0, i + 1) + a.subrange(i + 1, n));
    assert(b =~= b.subrange(0, i + 1) + b.subrange(i + 1, n));
    lemma_be_int_append(a.subrange(0, i + 1), a.subrange(i + 1, n));
    lemma_be_int_append(b.subrange(0, i + 1), b.subrange(i + 1, n));
    assert(a.subrange(0, i + 1).drop_last() =~= a.subrange(0, i));
    assert(b.subrange(0, i + 1).drop_last() =~= b.subrange(0, i));
    assert(a.subrange(0, i + 1).last() == a[i]);
    assert(b.subrange(0, i + 1).last() == b[i]);
    assert(be_int(a.subrange(0, i + 1)) < be_int(b.subrange(0, i + 1)));
    lemma_be_int_bound(a.subrange(i + 1, n));
    assert(a.subrange(i + 1, n).len() == m);
    assert(b.subrange(i + 1, n).len() == m);
    let la = be_int(a.subrange(0, i + 1));
    let lb = be_int(b.subrange(0, i + 1));
    assert(la * pow256(m) + pow256(m) <= lb * pow256(m)) by (nonlinear_arith)
        requires
            la < lb,
            pow256(m) >= 1,
    {
    }
    lemma_pow256_pos(m);
}

/// Concatenation is split back into its parts by `subrange`.
pub proof fn lemma_concat_split(a: Seq<u8>, b: Seq<u8>)
    ensures
        (a + b).subrange(0, a.len() as int) == a,
        (a + b).subrange(a.len() as int, (a.len() + b.len()) as int) == b,
{
    assert((a + b).subrange(0, a.len() as int) =~= a);
    assert((a + b).subrange(a.len() as int, (a.len() + b.len()) as int) =~= b);
}

/// True exactly when every byte of `s` is zero.
pub fn bytes_all_zero(s: &[u8]) -> (r: bool)
    ensures
        r == (s@ == zero_bytes(s@.len())),
{
    let n: usize = s.len();
    let mut i: usize = 0;
    while i < n
        invariant
            0 <= i <= n,
            n == s@.len(),
            forall|j: int| 0 <= j < i ==> s@[j] == 0u8,
        decreases n - i,
    {
        if *vstd::slice::slice_index_get(s, i) != 0u8 {
            proof {
                assert(s@[i as int] != 0u8);
                assert(zero_bytes(s@.len())[i as int] == 0u8);
            }
            return false;
        }
        i = i + 1;
    }
    proof {
        assert(s@ =~= zero_bytes(s@.len()));
    }
    true
}

/// True exactly when the integer denoted by `a` is strictly below the one
/// denoted by `b`; the two byte strings must have the same length.
pub fn be_bytes_lt(a: &[u8], b: &[u8]) -> (r: bool)
    requires
        a@.len() == b@.len(),
    ensures
        r == (be_int(a@) < be_int(b@)),
{
    let n: usize = a.len();
    let mut i: usize = 0;
    while i < n
        invariant
            0 <= i <= n,
            n == a@.len(),
            a@.len() == b@.len(),
            a@.subrange(0, i as int) == b@.subrange(0, i as int),
        decreases n - i,
    {
        let x: u8 = *vstd::slice::slice_index_get(a, i);
        let y: u8 = *vstd::slice::slice_index_get(b, i);
        if x < y {
            proof {
                lemma_be_int_lt_from_index(a@, b@, i as int);
            }
            return true;
        }
        if x > y {
            proof {
                lemma_be_int_lt_from_index(b@, a@, i as int);
            }
            return false;
        }
        proof {
            assert(a@.subrange(0, i + 1) =~= b@.subrange(0, i + 1));
        }
        i = i + 1;
    }
    proof {
        assert forall|j: int| 0 <= j < a@.len() implies a@[j] == b@[j] by {
            assert(a@.subrange(0, n as int)[j] == b@.subrange(0, n as int)[j]);
        }
        assert(a@ =~= b@);
    }
    false
}

/// Appends every byte of `src` to `dst`.
pub fn append_bytes(dst: &mut Vec<u8>, src: &[u8])
    ensures
        final(dst)@ == old(dst)@ + src@,
{
    let n: usize = src.len();
    let mut i: usize = 0;
    while i < n
        invariant
            0 <= i <= n,
            n == src@.len(),
            dst@ == old(dst)@ + src@.subrange(0, i as int),
        decreases n - i,
    {
        dst.push(*vstd::slice::slice_index_get(src, i));
        proof {
            assert(old(dst)@ + src@.subrange(0, i as int) + seq![src@[i as int]] =~= old(dst)@
                + src@.subrange(0, i + 1));
        }
        i = i + 1;
    }
    proof {
        assert(src@.subrange(0, n as int) =~= src@);
    }
}

/// Appends `n` zero bytes to `dst`.
pub fn append_zero_bytes(dst: &mut Vec<u8>, n: usize)
    ensures
        final(dst)@ == old(dst)@ + zero_bytes(n as nat),
{
    let mut i: usize = 0;
    while i < n
        invariant
            0 <= i <= n,
            dst@ == old(dst)@ + zero_bytes(i as nat),
        decreases n - i,
    {
        dst.push(0u8);
        proof {
            assert(old(dst)@ + zero_bytes(i as nat) + seq![0u8] =~= old(dst)@ + zero_bytes(
                (i + 1) as nat));
        }
        i = i + 1;
    }
}

} // verus!
