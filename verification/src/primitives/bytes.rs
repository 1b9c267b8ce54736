//! Big-endian byte encodings of unsigned integers.
use vstd::prelude::*;

verus! {

/// `256^n`.
pub open spec fn pow256(n: nat) -> nat
    decreases n,
{
    if n == 0 {
        1
    } else {
        256 * pow256((n - 1) as nat)
    }
}

/// The number that a big-endian byte sequence denotes.
pub open spec fn be_value(s: Seq<u8>) -> nat
    decreases s.len(),
{
    if s.len() == 0 {
        0
    } else {
        be_value(s.drop_last()) * 256 + s.last() as nat
    }
}

/// The `n` low-order bytes of `x`, most significant first.
pub open spec fn be_bytes(x: nat, n: nat) -> Seq<u8>
    decreases n,
{
    if n == 0 {
        Seq::empty()
    } else {
        be_bytes(x / 256, (n - 1) as nat).push((x % 256) as u8)
    }
}

pub proof fn lemma_pow256_positive(n: nat)
    ensures
        pow256(n) >= 1,
    decreases n,
{
    if n > 0 {
        lemma_pow256_positive((n - 1) as nat);
    }
}

pub proof fn lemma_pow256_add(a: nat, b: nat)
    ensures
        pow256(a + b) == pow256(a) * pow256(b),
    decreases a,
{
    if a > 0 {
        let a1 = (a - 1) as nat;
        lemma_pow256_add(a1, b);
        assert((a + b - 1) as nat == a1 + b);
        assert(pow256(a + b) == 256 * pow256(a1 + b));
        assert(pow256(a) == 256 * pow256(a1));
        let x = pow256(a1);
        let y = pow256(b);
        assert(256 * (x * y) == (256 * x) * y) by (nonlinear_arith);
    } else {
        assert(a + b == b);
        assert(pow256(a) == 1);
        let y = pow256(b);
        assert(1 * y == y) by (nonlinear_arith);
    }
}

pub proof fn lemma_pow256_values()
    ensures
        pow256(1) == 0x100,
        pow256(2) == 0x1_0000,
        pow256(4) == 0x1_0000_0000,
        pow256(7) == 0x100_0000_0000_0000,
        pow256(8) == 0x1_0000_0000_0000_0000,
        pow256(16) == 0x1_0000_0000_0000_0000_0000_0000_0000_0000,
        pow256(32) == 0x1_0000_0000_0000_0000_0000_0000_0000_0000_0000_0000_0000_0000_0000_0000_0000_0000,
{
    reveal_with_fuel(pow256, 9);
    lemma_pow256_add(8, 8);
    lemma_pow256_add(16, 16);
}

pub proof fn lemma_pow256_monotone(m: nat, n: nat)
    requires
        m <= n,
    ensures
        pow256(m) <= pow256(n),
    decreases n,
{
    if m < n {
        lemma_pow256_monotone(m, (n - 1) as nat);
        lemma_pow256_positive((n - 1) as nat);
    }
}

pub proof fn lemma_be_bytes_len(x: nat, n: nat)
    ensures
        be_bytes(x, n).len() == n,
    decreases n,
{
    if n > 0 {
        lemma_be_bytes_len(x / 256, (n - 1) as nat);
    }
}

pub proof fn lemma_be_value_bound(s: Seq<u8>)
    ensures
        be_value(s) < pow256(s.len()),
    decreases s.len(),
{
    if s.len() > 0 {
        let p = s.drop_last();
        lemma_be_value_bound(p);
        let v = be_value(p);
        let q = pow256(p.len());
        let b = s.last() as nat;
        assert(v * 256 + b < q * 256) by (nonlinear_arith)
            requires
                v < q,
                b < 256,
        ;
    }
}

/// Reading back the bytes of `x` gives `x` modulo `256^n`.
pub proof fn lemma_be_value_of_bytes(x: nat, n: nat)
    ensures
        be_value(be_bytes(x, n)) == x % pow256(n),
    decreases n,
{
    lemma_pow256_positive(n);
    if n == 0 {
    } else {
        let m = (n - 1) as nat;
        lemma_be_value_of_bytes(x / 256, m);
        let s = be_bytes(x, n);
        assert(s.drop_last() =~= be_bytes(x / 256, m));
        lemma_pow256_positive(m);
        vstd::arithmetic::div_mod::lemma_mod_breakdown(x as int, 256, pow256(m) as int);
        assert(be_value(s) == ((x / 256) % pow256(m)) * 256 + x % 256);
        assert(256 * ((x / 256) % pow256(m)) == ((x / 256) % pow256(m)) * 256) by (nonlinear_arith);
    }
}

/// A value below `256^n` is read back exactly.
pub proof fn lemma_be_value_of_bytes_small(x: nat, n: nat)
    requires
        x < pow256(n),
    ensures
        be_value(be_bytes(x, n)) == x,
{
    lemma_be_value_of_bytes(x, n);
    vstd::arithmetic::div_mod::lemma_small_mod(x, pow256(n));
}

/// Writing out the value of a byte sequence gives the sequence back.
pub proof fn lemma_be_bytes_of_value(s: Seq<u8>)
    ensures
        be_bytes(be_value(s), s.len()) == s,
    decreases s.len(),
{
    if s.len() > 0 {
        let p = s.drop_last();
        lemma_be_bytes_of_value(p);
        let v = be_value(p);
        let b = s.last() as nat;
        let x = v * 256 + b;
        assert(x / 256 == v && x % 256 == b) by (nonlinear_arith)
            requires
                x == v * 256 + b,
                b < 256,
        ;
        assert(be_bytes(x, s.len()) =~= s);
    }
}

/// The value of a concatenation.
pub proof fn lemma_be_value_append(s: Seq<u8>, t: Seq<u8>)
    ensures
        be_value(s + t) == be_value(s) * pow256(t.len()) + be_value(t),
    decreases t.len(),
{
    if t.len() == 0 {
        assert(s + t =~= s);
        assert(pow256(0) == 1);
        let a = be_value(s);
        assert(a * 1 == a) by (nonlinear_arith);
    } else {
        let tp = t.drop_last();
        lemma_be_value_append(s, tp);
        assert((s + t).drop_last() =~= s + tp);
        assert((s + t).last() == t.last());
        assert(be_value(s + t) == be_value(s + tp) * 256 + t.last() as nat);
        assert(be_value(t) == be_value(tp) * 256 + t.last() as nat);
        assert(pow256(t.len()) == 256 * pow256(tp.len()));
        let a = be_value(s);
        let q = pow256(tp.len());
        let c = be_value(tp);
        let l = t.last() as nat;
        assert((a * q + c) * 256 + l == a * (256 * q) + (c * 256 + l)) by (nonlinear_arith);
    }
}

/// Reads `n <= 8` big-endian bytes of `data` at `off`.
pub fn read_be(data: &[u8], off: usize, n: usize) -> (r: u64)
    requires
        n <= 8,
        off + n <= data@.len(),
    ensures
        r as nat == be_value(data@.subrange(off as int, off + n)),
{
    let len = data.len();
    let mut acc: u64 = 0;
    let mut i: usize = 0;
    while i < n
        invariant
            len == data@.len(),
            n <= 8,
            off + n <= data@.len(),
            i <= n,
            acc as nat == be_value(data@.subrange(off as int, off + i)),
        decreases n - i,
    {
        proof {
            let s = data@.subrange(off as int, off + i);
            lemma_be_value_bound(s);
            lemma_pow256_monotone(i as nat, 7);
            lemma_pow256_values();
            assert(acc < 0x100_0000_0000_0000);
            assert(data@.subrange(off as int, off + i + 1).drop_last() =~= s);
        }
        acc = acc * 256 + data[off + i] as u64;
        i = i + 1;
    }
    acc
}

/// Appends the `n <= 8` low-order bytes of `x`, most significant first.
pub fn push_be(out: &mut Vec<u8>, x: u64, n: usize)
    requires
        n <= 8,
    ensures
        final(out)@ == old(out)@ + be_bytes(x as nat, n as nat),
    decreases n,
{
    if n == 0 {
        assert(old(out)@ + be_bytes(x as nat, 0) =~= old(out)@);
    } else {
        push_be(out, x / 256, n - 1);
        out.push((x % 256) as u8);
        assert(out@ =~= old(out)@ + be_bytes(x as nat, n as nat));
    }
}

} // verus!
