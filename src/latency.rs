//! Rendering of the server's latency breakdown.
use vstd::prelude::*;
use crate::text::{decimal, padded_digits, strip_trailing_zeros, push_decimal, push_padded_digits};

verus! {

/// Nanoseconds in a millisecond.
pub const NS_PER_MS: u64 = 1_000_000;

/// Nanoseconds in a second.
pub const NS_PER_S: u64 = 1_000_000_000;

/// The exact decimal notation of `n / 10^scale`, where `unit == 10^scale`:
/// the integer part, then, if anything is left, a point and the fraction's
/// digits without trailing zeros.
pub open spec fn scaled_decimal(n: nat, unit: nat, scale: nat) -> Seq<char> {
    if n % unit == 0 {
        decimal(n / unit)
    } else {
        decimal(n / unit) + seq!['.'] + strip_trailing_zeros(padded_digits(n % unit, scale))
    }
}

/// A duration in nanoseconds as text: milliseconds with an `ms` suffix, or,
/// once the duration exceeds a second, seconds with an `s` suffix.
pub open spec fn duration_text(ns: nat) -> Seq<char> {
    if ns > NS_PER_S {
        scaled_decimal(ns, NS_PER_S as nat, 9) + seq!['s']
    } else {
        scaled_decimal(ns, NS_PER_MS as nat, 6) + seq!['m', 's']
    }
}

proof fn lemma_padded_digits_zero_end(n: nat, k: nat)
    requires
        k > 0,
        n % 10 == 0,
    ensures
        strip_trailing_zeros(padded_digits(n, k)) == strip_trailing_zeros(
            padded_digits(n / 10, (k - 1) as nat),
        ),
{
    let s = padded_digits(n, k);
    assert(s.drop_last() =~= padded_digits(n / 10, (k - 1) as nat));
}

/// Appends the decimal notation of `n / unit` to `out`, where `unit == 10^scale`.
fn push_scaled(out: &mut String, n: u64, unit: u64, scale: u64)
    requires
        (unit == NS_PER_MS && scale == 6) || (unit == NS_PER_S && scale == 9),
    ensures
        final(out)@ == old(out)@ + scaled_decimal(n as nat, unit as nat, scale as nat),
{
    proof {
        reveal_strlit(".");
    }
    push_decimal(out, n / unit);
    let rest = n % unit;
    if rest != 0 {
        out.append(".");
        proof {
            reveal_with_fuel(pow10, 10);
            assert(pow10(6) == 1_000_000);
            assert(pow10(9) == 1_000_000_000);
        }
        let mut frac: u64 = rest;
        let mut k: u64 = scale;
        while frac % 10 == 0
            invariant
                frac > 0,
                k <= scale,
                strip_trailing_zeros(padded_digits(frac as nat, k as nat)) == strip_trailing_zeros(
                    padded_digits(rest as nat, scale as nat),
                ),
                frac < pow10(k as nat),
            decreases k,
        {
            proof {
                if k == 0 {
                    assert(false);
                }
                lemma_padded_digits_zero_end(frac as nat, k as nat);
                let p = pow10((k - 1) as nat);
                assert(frac / 10 < p) by (nonlinear_arith)
                    requires
                        frac < 10 * p,
                ;
            }
            frac = frac / 10;
            k = k - 1;
        }
        push_padded_digits(out, frac, k);
        proof {
            lemma_last_digit_nonzero(frac as nat, k as nat);
        }
    }
    proof {
        assert(final(out)@ =~= old(out)@ + scaled_decimal(n as nat, unit as nat, scale as nat));
    }
}

/// Ten to the power `k`.
pub open spec fn pow10(k: nat) -> nat
    decreases k,
{
    if k == 0 {
        1
    } else {
        10 * pow10((k - 1) as nat)
    }
}

proof fn lemma_last_digit_nonzero(n: nat, k: nat)
    requires
        n % 10 != 0,
        k > 0 || n == 0,
    ensures
        strip_trailing_zeros(padded_digits(n, k)) == padded_digits(n, k),
{
    if k > 0 {
        let s = padded_digits(n, k);
        assert(s.last() == crate::text::digit_char(n % 10));
    }
}

/// Formats a duration given in nanoseconds: `500000` gives `"0.5ms"`,
/// `1500000000` gives `"1.5s"`, and exactly one second stays `"1000ms"`.
pub fn convert_and_format_ns(time: u64) -> (r: String)
    ensures
        r@ == duration_text(time as nat),
{
    proof {
        reveal_strlit("s");
        reveal_strlit("ms");
    }
    let mut out = String::new();
    if time > NS_PER_S {
        push_scaled(&mut out, time, NS_PER_S, 9);
        out.append("s");
    } else {
        push_scaled(&mut out, time, NS_PER_MS, 6);
        out.append("ms");
    }
    proof {
        assert(out@ =~= duration_text(time as nat));
    }
    out
}

} // verus!
