use vstd::prelude::*;

verus! {

/// One decimal digit as its ASCII byte.
pub open spec fn digit_byte(d: nat) -> u8 {
    (48 + d) as u8
}

/// The decimal digits of `n`, most significant first, with no leading zeros
/// (except for `n == 0`, which is the single digit `0`).
pub open spec fn dec_bytes(n: nat) -> Seq<u8>
    decreases n,
{
    if n < 10 {
        seq![digit_byte(n)]
    } else {
        dec_bytes(n / 10).push(digit_byte(n % 10))
    }
}

/// `k` ASCII zeros.
pub open spec fn zeros(k: nat) -> Seq<u8> {
    Seq::new(k, |i: int| 48u8)
}

/// The decimal digits of `n`, left-padded with zeros to width 5; numbers of
/// five or more digits are not padded.
pub open spec fn padded5(n: nat) -> Seq<u8> {
    if dec_bytes(n).len() < 5 {
        zeros((5 - dec_bytes(n).len()) as nat) + dec_bytes(n)
    } else {
        dec_bytes(n)
    }
}

/// The shard file name for allocation counter `n`: `elements_NNNNN.txt.gz`.
pub open spec fn file_name_spec(n: nat) -> Seq<u8> {
    seq![101u8, 108u8, 101u8, 109u8, 101u8, 110u8, 116u8, 115u8, 95u8] + padded5(n) + seq![
        46u8,
        116u8,
        120u8,
        116u8,
        46u8,
        103u8,
        122u8,
    ]
}

/// Appends the decimal digits of `n` to `out`.
pub fn push_dec(out: &mut Vec<u8>, n: u64)
    ensures
        final(out)@ == old(out)@ + dec_bytes(n as nat),
    decreases n,
{
    if n < 10 {
        out.push(48 + n as u8);
        assert(out@ =~= old(out)@ + dec_bytes(n as nat));
    } else {
        push_dec(out, n / 10);
        out.push(48 + (n % 10) as u8);
        assert(out@ =~= old(out)@ + dec_bytes(n as nat));
    }
}

/// How many digits the decimal form of `n` has, range by range.
pub proof fn lemma_dec_len(n: nat)
    ensures
        n < 10 ==> dec_bytes(n).len() == 1,
        10 <= n < 100 ==> dec_bytes(n).len() == 2,
        100 <= n < 1000 ==> dec_bytes(n).len() == 3,
        1000 <= n < 10000 ==> dec_bytes(n).len() == 4,
        10000 <= n ==> dec_bytes(n).len() >= 5,
    decreases n,
{
    if n >= 10 {
        lemma_dec_len(n / 10);
    }
}

/// Builds the shard file name for counter `n`.
pub fn file_name(n: u64) -> (r: Vec<u8>)
    ensures
        r@ == file_name_spec(n as nat),
{
    let mut out: Vec<u8> = Vec::new();
    out.push(101u8);
    out.push(108u8);
    out.push(101u8);
    out.push(109u8);
    out.push(101u8);
    out.push(110u8);
    out.push(116u8);
    out.push(115u8);
    out.push(95u8);
    let ghost prefix = out@;
    proof {
        lemma_dec_len(n as nat);
    }
    if n < 10 {
        out.push(48);
        out.push(48);
        out.push(48);
        out.push(48);
    } else if n < 100 {
        out.push(48);
        out.push(48);
        out.push(48);
    } else if n < 1000 {
        out.push(48);
        out.push(48);
    } else if n < 10000 {
        out.push(48);
    }
    assert(out@ =~= prefix + zeros((padded5(n as nat).len() - dec_bytes(n as nat).len()) as nat));
    push_dec(&mut out, n);
    assert(out@ =~= prefix + padded5(n as nat));
    out.push(46u8);
    out.push(116u8);
    out.push(120u8);
    out.push(116u8);
    out.push(46u8);
    out.push(103u8);
    out.push(122u8);
    assert(out@ =~= file_name_spec(n as nat));
    out
}

/// The numeric value a digit byte stands for.
pub open spec fn digit_val(b: u8) -> nat {
    if 48 <= b <= 57 {
        (b - 48) as nat
    } else {
        0
    }
}

/// Reads a digit sequence back as a number, most significant digit first.
pub open spec fn val_of(s: Seq<u8>) -> nat
    decreases s.len(),
{
    if s.len() == 0 {
        0
    } else {
        val_of(s.drop_last()) * 10 + digit_val(s.last())
    }
}

/// Reading the decimal form of `n` back yields `n`.
pub proof fn lemma_dec_roundtrip(n: nat)
    ensures
        val_of(dec_bytes(n)) == n,
    decreases n,
{
    if n < 10 {
        assert(dec_bytes(n).drop_last() =~= Seq::<u8>::empty());
        assert(dec_bytes(n).last() == digit_byte(n));
        assert(digit_val(digit_byte(n)) == n);
        assert(val_of(Seq::<u8>::empty()) == 0);
        assert(val_of(dec_bytes(n)) == val_of(dec_bytes(n).drop_last()) * 10 + digit_val(
            dec_bytes(n).last(),
        ));
    } else {
        lemma_dec_roundtrip(n / 10);
        assert(dec_bytes(n).drop_last() =~= dec_bytes(n / 10));
        assert(dec_bytes(n).last() == digit_byte(n % 10));
        assert(digit_val(digit_byte(n % 10)) == n % 10);
        vstd::arithmetic::div_mod::lemma_fundamental_div_mod(n as int, 10);
    }
}

/// A run of zeros reads back as zero.
pub proof fn lemma_val_zeros(k: nat)
    ensures
        val_of(zeros(k)) == 0,
    decreases k,
{
    if k > 0 {
        lemma_val_zeros((k - 1) as nat);
        assert(zeros(k).drop_last() =~= zeros((k - 1) as nat));
    }
}

/// Leading zeros do not change the value a digit sequence reads back as.
pub proof fn lemma_val_leading_zeros(k: nat, s: Seq<u8>)
    ensures
        val_of(zeros(k) + s) == val_of(s),
    decreases s.len(),
{
    if s.len() == 0 {
        assert(zeros(k) + s =~= zeros(k));
        lemma_val_zeros(k);
    } else {
        lemma_val_leading_zeros(k, s.drop_last());
        assert((zeros(k) + s).drop_last() =~= zeros(k) + s.drop_last());
        assert((zeros(k) + s).last() == s.last());
    }
}

/// Reading the padded decimal form of `n` back yields `n`.
pub proof fn lemma_val_padded5(n: nat)
    ensures
        val_of(padded5(n)) == n,
{
    lemma_dec_roundtrip(n);
    if dec_bytes(n).len() < 5 {
        lemma_val_leading_zeros((5 - dec_bytes(n).len()) as nat, dec_bytes(n));
    }
}

/// Distinct allocation counters always yield distinct shard file names.
pub proof fn lemma_file_names_unique(a: nat, b: nat)
    requires
        a != b,
    ensures
        file_name_spec(a) != file_name_spec(b),
{
    if file_name_spec(a) == file_name_spec(b) {
        lemma_val_padded5(a);
        lemma_val_padded5(b);
        assert(file_name_spec(a).len() == 9 + padded5(a).len() + 7);
        assert(file_name_spec(b).len() == 9 + padded5(b).len() + 7);
        assert(padded5(a).len() == padded5(b).len());
        assert forall|i: int| 0 <= i < padded5(a).len() implies padded5(a)[i] == padded5(b)[i] by {
            assert(file_name_spec(a)[9 + i] == padded5(a)[i]);
            assert(file_name_spec(b)[9 + i] == padded5(b)[i]);
        }
        assert(padded5(a) =~= padded5(b));
        assert(a == b);
    }
}

} // verus!
