//! Decimal digits of the score, for glyph-by-glyph rendering.
//!
//! The score is rendered as one glyph sprite per decimal digit, most
//! significant first. `spec_digits` is the mathematical statement of that
//! digit sequence, and `score_digits` computes it.

use vstd::prelude::*;

verus! {

/// The decimal digits of `n`, most significant first; a single `0` for
/// zero, and never a leading zero otherwise.
pub open spec fn spec_digits(n: int) -> Seq<u8>
    decreases n,
{
    if n < 0 {
        Seq::empty()
    } else if n < 10 {
        seq![n as u8]
    } else {
        spec_digits(n / 10).push((n % 10) as u8)
    }
}

/// The number a digit sequence denotes, most significant digit first.
pub open spec fn digits_value(ds: Seq<u8>) -> int
    decreases ds.len(),
{
    if ds.len() == 0 {
        0
    } else {
        digits_value(ds.drop_last()) * 10 + ds.last()
    }
}

/// `spec_digits` is the decimal representation: every digit is below ten,
/// the first digit is zero only for the number zero, and the sequence
/// denotes the number it was built from.
pub proof fn lemma_digits_correct(n: int)
    requires
        0 <= n,
    ensures
        spec_digits(n).len() >= 1,
        forall|i: int| 0 <= i < spec_digits(n).len() ==> #[trigger] spec_digits(n)[i] < 10,
        spec_digits(n)[0] == 0 ==> n == 0,
        digits_value(spec_digits(n)) == n,
    decreases n,
{
    if n >= 10 {
        lemma_digits_correct(n / 10);
        vstd::arithmetic::div_mod::lemma_fundamental_div_mod(n, 10);
        let ds = spec_digits(n);
        assert(ds.len() >= 1);
        assert(ds.last() == (n % 10) as u8);
        assert(ds.drop_last() =~= spec_digits(n / 10));
        assert(digits_value(ds) == digits_value(ds.drop_last()) * 10 + ds.last());
        assert(digits_value(ds.drop_last()) == n / 10);
        assert(digits_value(ds) == n);
    } else {
        let ds = spec_digits(n);
        assert(ds.len() == 1);
        assert(ds.drop_last() =~= Seq::<u8>::empty());
        assert(digits_value(ds.drop_last()) == 0);
        assert(ds.last() == n as u8);
        assert(digits_value(ds) == digits_value(ds.drop_last()) * 10 + ds.last());
        assert(digits_value(ds) == n);
    }
}

/// The decimal digits of the score, most significant first: one glyph per
/// digit when the score is rendered.
pub fn score_digits(score: u32) -> (r: Vec<u8>)
    ensures
        r@ == spec_digits(score as int),
{
    let mut r: Vec<u8> = Vec::new();
    push_digits(score, &mut r);
    proof {
        assert(r@ =~= Seq::<u8>::empty() + spec_digits(score as int));
    }
    r
}

/// Appends the decimal digits of `n` to `out`, most significant first.
fn push_digits(n: u32, out: &mut Vec<u8>)
    ensures
        final(out)@ == old(out)@ + spec_digits(n as int),
    decreases n,
{
    let ghost pre = out@;
    if n < 10 {
        out.push(n as u8);
        proof {
            assert(out@ =~= pre + spec_digits(n as int));
        }
    } else {
        push_digits(n / 10, out);
        out.push((n % 10) as u8);
        proof {
            assert(out@ =~= pre + spec_digits(n as int));
        }
    }
}

} // verus!
