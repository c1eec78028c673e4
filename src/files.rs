use vstd::prelude::*;

use crate::capture::FullWellMode;
use vstd::string::StringSliceAdditionalSpecFns;

verus! {

/// The decimal digits of `n`, most significant first, without leading zeros.
pub open spec fn decimal(n: nat) -> Seq<u8>
    decreases n,
{
    if n < 10 {
        seq![(48 + n) as u8]
    } else {
        decimal(n / 10) + seq![(48 + n % 10) as u8]
    }
}

/// An ASCII decimal digit.
pub open spec fn is_digit(b: u8) -> bool {
    48 <= b <= 57
}

/// Every byte is an ASCII decimal digit.
pub open spec fn all_digits(s: Seq<u8>) -> bool {
    forall|i: int| 0 <= i < s.len() ==> is_digit(#[trigger] s[i])
}

/// The number a run of decimal digits spells.
pub open spec fn digits_value(s: Seq<u8>) -> int
    decreases s.len(),
{
    if s.len() == 0 {
        0
    } else {
        digits_value(s.drop_last()) * 10 + (s.last() - 48)
    }
}

/// `DarkMap_`
pub open spec fn dark_prefix() -> Seq<u8> {
    seq![68u8, 97u8, 114u8, 107u8, 77u8, 97u8, 112u8, 95u8]
}

/// `ms.tif`
pub open spec fn dark_suffix() -> Seq<u8> {
    seq![109u8, 115u8, 46u8, 116u8, 105u8, 102u8]
}

/// The file name of the dark map for `exp_time`: `DarkMap_{exp_time}ms.tif`.
pub open spec fn dark_map_name(exp_time: u32) -> Seq<u8> {
    dark_prefix() + decimal(exp_time as nat) + dark_suffix()
}

/// The exposure time a file name `DarkMap_<digits>ms.tif` stands for; `None` for any other name
/// and for a number that does not fit in a `u32`.
pub open spec fn dark_map_exp_of(name: Seq<u8>) -> Option<u32> {
    let p = dark_prefix().len() as int;
    let s = dark_suffix().len() as int;
    let digits = name.subrange(p, name.len() - s);
    if name.len() > p + s && name.subrange(0, p) == dark_prefix() && name.subrange(
        name.len() - s,
        name.len() as int,
    ) == dark_suffix() && all_digits(digits) && digits_value(digits) <= u32::MAX {
        Some(digits_value(digits) as u32)
    } else {
        None
    }
}

/// `1510HS_1510_`
pub open spec fn defect_input_prefix() -> Seq<u8> {
    seq![49u8, 53u8, 49u8, 48u8, 72u8, 83u8, 95u8, 49u8, 53u8, 49u8, 48u8, 95u8]
}

/// `_DarkHFW_Mean.tif` or `_DarkLFW_Mean.tif`.
pub open spec fn defect_input_suffix(full_well: FullWellMode) -> Seq<u8> {
    seq![95u8, 68u8, 97u8, 114u8, 107u8] + seq![
        if full_well == FullWellMode::High {
            72u8
        } else {
            76u8
        },
    ] + seq![70u8, 87u8, 95u8, 77u8, 101u8, 97u8, 110u8, 46u8, 116u8, 105u8, 102u8]
}

/// The file name of an averaged dark frame handed to the defect-map generator:
/// `1510HS_1510_{exp_time}_Dark{HFW|LFW}_Mean.tif`.
pub open spec fn defect_input_name(exp_time: u32, full_well: FullWellMode) -> Seq<u8> {
    defect_input_prefix() + decimal(exp_time as nat) + defect_input_suffix(full_well)
}

/// Appends the decimal digits of `n` to `out`.
fn push_decimal(out: &mut Vec<u8>, n: u32)
    ensures
        final(out)@ == old(out)@ + decimal(n as nat),
    decreases n,
{
    if n >= 10 {
        push_decimal(out, n / 10);
    }
    out.push((48 + n % 10) as u8);
    proof {
        if n >= 10 {
            assert(final(out)@ =~= old(out)@ + decimal(n as nat));
        } else {
            assert(final(out)@ =~= old(out)@ + decimal(n as nat));
        }
    }
}

/// Appends the bytes of `s` to `out`.
fn push_all(out: &mut Vec<u8>, s: &[u8])
    ensures
        final(out)@ == old(out)@ + s@,
{
    let mut i: usize = 0;
    while i < s.len()
        invariant
            0 <= i <= s@.len(),
            out@ == old(out)@ + s@.subrange(0, i as int),
        decreases s@.len() - i,
    {
        out.push(s[i]);
        i = i + 1;
        assert(out@ =~= old(out)@ + s@.subrange(0, i as int));
    }
    assert(s@.subrange(0, i as int) =~= s@);
}

/// The file name, in ASCII bytes, of the dark map for `exp_time`.
pub fn dark_map_file_name(exp_time: u32) -> (r: Vec<u8>)
    ensures
        r@ == dark_map_name(exp_time),
{
    let mut out: Vec<u8> = Vec::new();
    let prefix: [u8; 8] = [68, 97, 114, 107, 77, 97, 112, 95];
    let suffix: [u8; 6] = [109, 115, 46, 116, 105, 102];
    push_all(&mut out, &prefix);
    proof {
        assert(prefix@ =~= dark_prefix());
    }
    push_decimal(&mut out, exp_time);
    push_all(&mut out, &suffix);
    proof {
        assert(suffix@ =~= dark_suffix());
        assert(out@ =~= dark_map_name(exp_time));
    }
    out
}

/// The file name, in ASCII bytes, of the averaged dark frame for `exp_time` and `full_well`
/// that the defect-map generator reads.
pub fn defect_input_file_name(exp_time: u32, full_well: FullWellMode) -> (r: Vec<u8>)
    ensures
        r@ == defect_input_name(exp_time, full_well),
{
    let mut out: Vec<u8> = Vec::new();
    let prefix: [u8; 12] = [49, 53, 49, 48, 72, 83, 95, 49, 53, 49, 48, 95];
    let dark: [u8; 5] = [95, 68, 97, 114, 107];
    let tail: [u8; 11] = [70, 87, 95, 77, 101, 97, 110, 46, 116, 105, 102];
    push_all(&mut out, &prefix);
    push_decimal(&mut out, exp_time);
    push_all(&mut out, &dark);
    match full_well {
        FullWellMode::High => out.push(72),
        FullWellMode::Low => out.push(76),
    }
    push_all(&mut out, &tail);
    proof {
        assert(prefix@ =~= defect_input_prefix());
        assert(out@ =~= defect_input_name(exp_time, full_well));
    }
    out
}

/// The value of a prefix of a run of digits is at most the value of the whole run.
pub proof fn lemma_digits_prefix_le(s: Seq<u8>, k: int)
    requires
        all_digits(s),
        0 <= k <= s.len(),
    ensures
        0 <= digits_value(s.subrange(0, k)) <= digits_value(s),
    decreases s.len(),
{
    if s.len() > 0 {
        if k == s.len() {
            assert(s.subrange(0, k) =~= s);
            lemma_digits_prefix_le(s.drop_last(), k - 1);
        } else {
            lemma_digits_prefix_le(s.drop_last(), k);
            assert(s.drop_last().subrange(0, k) =~= s.subrange(0, k));
            lemma_digits_nonneg(s.drop_last());
        }
    }
}

/// Runs of digits have non-negative values.
pub proof fn lemma_digits_nonneg(s: Seq<u8>)
    requires
        all_digits(s),
    ensures
        digits_value(s) >= 0,
    decreases s.len(),
{
    if s.len() > 0 {
        lemma_digits_nonneg(s.drop_last());
    }
}

/// The exposure time that a dark-map file name stands for, or `None` when the name does not
/// have the form `DarkMap_<digits>ms.tif` or the number does not fit in a `u32`.
pub fn parse_dark_map_file_name(name: &str) -> (r: Option<u32>)
    ensures
        r == dark_map_exp_of(name.spec_bytes()),
{
    let b = name.as_bytes();
    let n: usize = b.len();
    let ghost bs = b@;
    if n <= 14 {
        proof {
            assert(dark_prefix().len() == 8);
            assert(dark_suffix().len() == 6);
        }
        return None;
    }
    let prefix: [u8; 8] = [68, 97, 114, 107, 77, 97, 112, 95];
    let suffix: [u8; 6] = [109, 115, 46, 116, 105, 102];
    proof {
        assert(prefix@ =~= dark_prefix());
        assert(suffix@ =~= dark_suffix());
    }
    let mut i: usize = 0;
    while i < 8
        invariant
            n == bs.len(),
            n > 14,
            b@ == bs,
            bs == name.spec_bytes(),
            prefix@ == dark_prefix(),
            0 <= i <= 8,
            forall|j: int| 0 <= j < i ==> bs[j] == prefix@[j],
        decreases 8 - i,
    {
        if b[i] != prefix[i] {
            proof {
                assert(dark_prefix().len() == 8);
                assert(bs.subrange(0, 8)[i as int] != dark_prefix()[i as int]);
            }
            return None;
        }
        i = i + 1;
    }
    proof {
        assert(bs.subrange(0, 8) =~= dark_prefix());
    }
    let mut k: usize = 0;
    while k < 6
        invariant
            n == bs.len(),
            n > 14,
            b@ == bs,
            bs == name.spec_bytes(),
            suffix@ == dark_suffix(),
            0 <= k <= 6,
            forall|j: int| 0 <= j < k ==> bs[n - 6 + j] == suffix@[j],
        decreases 6 - k,
    {
        if b[n - 6 + k] != suffix[k] {
            proof {
                assert(dark_prefix().len() == 8);
                assert(dark_suffix().len() == 6);
                assert(bs.subrange(n - 6, n as int)[k as int] != dark_suffix()[k as int]);
            }
            return None;
        }
        k = k + 1;
    }
    proof {
        assert(bs.subrange(n - 6, n as int) =~= dark_suffix());
    }
    let ghost digits = bs.subrange(8, n - 6);
    let mut value: u64 = 0;
    let mut d: usize = 8;
    while d < n - 6
        invariant
            n == bs.len(),
            n > 14,
            b@ == bs,
            bs == name.spec_bytes(),
            digits == bs.subrange(8, n - 6),
            8 <= d <= n - 6,
            all_digits(digits.subrange(0, d - 8)),
            value == digits_value(digits.subrange(0, d - 8)),
            value <= u32::MAX,
        decreases n - 6 - d,
    {
        let c = b[d];
        if c < 48 || c > 57 {
            proof {
                assert(dark_prefix().len() == 8);
                assert(dark_suffix().len() == 6);
                assert(!is_digit(digits[d - 8]));
            }
            return None;
        }
        proof {
            assert(digits.subrange(0, d - 8 + 1).drop_last() =~= digits.subrange(0, d - 8));
            assert(all_digits(digits.subrange(0, d - 8 + 1)));
        }
        value = value * 10 + (c - 48) as u64;
        if value > 0xFFFF_FFFF {
            proof {
                assert(dark_prefix().len() == 8);
                assert(dark_suffix().len() == 6);
                let dd = d - 8 + 1;
                if all_digits(digits) {
                    lemma_digits_prefix_le(digits, dd);
                    assert(digits.subrange(0, dd) == digits.subrange(0, d - 8 + 1));
                }
            }
            return None;
        }
        d = d + 1;
    }
    proof {
        assert(digits.subrange(0, d - 8) =~= digits);
    }
    Some(value as u32)
}

/// A decimal spelling consists of digits and spells its number.
pub proof fn lemma_decimal_digits(n: nat)
    ensures
        all_digits(decimal(n)),
        digits_value(decimal(n)) == n,
        decimal(n).len() >= 1,
    decreases n,
{
    if n >= 10 {
        lemma_decimal_digits(n / 10);
        let d = decimal(n);
        assert(d.drop_last() =~= decimal(n / 10));
        assert(d.last() == (48 + n % 10) as u8);
        assert(n == (n / 10) * 10 + n % 10) by (nonlinear_arith);
        assert(digits_value(d) == digits_value(d.drop_last()) * 10 + (d.last() - 48));
    } else {
        let d = decimal(n);
        assert(d.drop_last() =~= Seq::<u8>::empty());
        assert(digits_value(d) == digits_value(d.drop_last()) * 10 + (d.last() - 48));
    }
}

/// Parsing the file name written for a dark map gives back its exposure time.
pub proof fn lemma_dark_map_name_round_trip(exp_time: u32)
    ensures
        dark_map_exp_of(dark_map_name(exp_time)) == Some(exp_time),
{
    let d = decimal(exp_time as nat);
    lemma_decimal_digits(exp_time as nat);
    let name = dark_map_name(exp_time);
    assert(name.subrange(0, 8) =~= dark_prefix());
    assert(name.subrange(name.len() - 6, name.len() as int) =~= dark_suffix());
    assert(name.subrange(8, name.len() - 6) =~= d);
}

} // verus!
