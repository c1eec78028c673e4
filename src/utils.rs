use vstd::prelude::*;

use vstd::string::StrSliceExecFns;

verus! {

/// `rgb(`
pub open spec fn rgb_open() -> Seq<char> {
    seq!['r', 'g', 'b', '(']
}

/// `s` with every leading `rgb(` removed.
pub open spec fn strip_rgb_open(s: Seq<char>) -> Seq<char>
    decreases s.len(),
{
    if s.len() >= 4 && s.subrange(0, 4) == rgb_open() {
        strip_rgb_open(s.subrange(4, s.len() as int))
    } else {
        s
    }
}

/// `s` with every trailing `)` removed.
pub open spec fn strip_close(s: Seq<char>) -> Seq<char>
    decreases s.len(),
{
    if s.len() > 0 && s.last() == ')' {
        strip_close(s.drop_last())
    } else {
        s
    }
}

/// Unicode white space, as `char::is_whitespace` defines it.
pub open spec fn is_white_space(c: char) -> bool {
    ('\u{9}' <= c <= '\u{d}') || c == ' ' || c == '\u{85}' || c == '\u{a0}' || c == '\u{1680}' || (
    '\u{2000}' <= c <= '\u{200a}') || c == '\u{2028}' || c == '\u{2029}' || c == '\u{202f}' || c
        == '\u{205f}' || c == '\u{3000}'
}

/// `s` without leading white space.
pub open spec fn trim_start(s: Seq<char>) -> Seq<char>
    decreases s.len(),
{
    if s.len() > 0 && is_white_space(s[0]) {
        trim_start(s.drop_first())
    } else {
        s
    }
}

/// `s` without trailing white space.
pub open spec fn trim_end(s: Seq<char>) -> Seq<char>
    decreases s.len(),
{
    if s.len() > 0 && is_white_space(s.last()) {
        trim_end(s.drop_last())
    } else {
        s
    }
}

/// `s` without leading or trailing white space.
pub open spec fn trim(s: Seq<char>) -> Seq<char> {
    trim_end(trim_start(s))
}

/// Index of the first comma of `s`; its length when it has none.
pub open spec fn first_comma(s: Seq<char>) -> int
    decreases s.len(),
{
    if s.len() == 0 || s[0] == ',' {
        0
    } else {
        1 + first_comma(s.drop_first())
    }
}

/// The three comma-separated fields of `s`; `None` unless it holds exactly two commas.
pub open spec fn split3(t: Seq<char>) -> Option<(Seq<char>, Seq<char>, Seq<char>)> {
    let i = first_comma(t);
    let r1 = t.subrange(i + 1, t.len() as int);
    let j = first_comma(r1);
    let r2 = r1.subrange(j + 1, r1.len() as int);
    if i >= t.len() || j >= r1.len() || first_comma(r2) < r2.len() {
        None
    } else {
        Some((t.subrange(0, i), r1.subrange(0, j), r2))
    }
}

/// An ASCII decimal digit.
pub open spec fn is_digit_char(c: char) -> bool {
    '0' <= c <= '9'
}

/// The number a run of decimal digits spells.
pub open spec fn char_digits_value(s: Seq<char>) -> int
    decreases s.len(),
{
    if s.len() == 0 {
        0
    } else {
        char_digits_value(s.drop_last()) * 10 + (s.last() as int - '0' as int)
    }
}

/// One or more digits whose value is at most 255.
pub open spec fn digits_u8(d: Seq<char>) -> Option<u8> {
    if d.len() > 0 && (forall|k: int| 0 <= k < d.len() ==> is_digit_char(#[trigger] d[k]))
        && char_digits_value(d) <= 255 {
        Some(char_digits_value(d) as u8)
    } else {
        None
    }
}

/// What `str::parse::<u8>` gives for `s`: an optional `+`, then one or more digits whose value
/// is at most 255.
pub open spec fn parse_u8_spec(s: Seq<char>) -> Option<u8> {
    digits_u8(
        if s.len() > 0 && s[0] == '+' {
            s.drop_first()
        } else {
            s
        },
    )
}

/// Which part of an `rgb(r, g, b)` string failed to parse.
pub enum RgbFault {
    Format,
    Red,
    Green,
    Blue,
}

/// What `parse_rgb` returns for `s`: the three values, or the first field that failed.
pub open spec fn rgb_spec(s: Seq<char>) -> Result<Seq<u8>, RgbFault> {
    match split3(strip_close(strip_rgb_open(s))) {
        None => Err(RgbFault::Format),
        Some((a, b, c)) => match (
            parse_u8_spec(trim(a)),
            parse_u8_spec(trim(b)),
            parse_u8_spec(trim(c)),
        ) {
            (None, _, _) => Err(RgbFault::Red),
            (Some(_), None, _) => Err(RgbFault::Green),
            (Some(_), Some(_), None) => Err(RgbFault::Blue),
            (Some(r), Some(g), Some(bl)) => Ok(seq![r, g, bl]),
        },
    }
}

/// The message `parse_rgb` reports for a fault.
pub open spec fn fault_message(f: RgbFault) -> Seq<char> {
    match f {
        RgbFault::Format => "Invalid RGB format"@,
        RgbFault::Red => "Invalid red value"@,
        RgbFault::Green => "Invalid green value"@,
        RgbFault::Blue => "Invalid blue value"@,
    }
}

/// `first_comma` is the first index holding a comma.
proof fn lemma_first_comma(s: Seq<char>, k: int)
    requires
        0 <= k <= s.len(),
        forall|j: int| 0 <= j < k ==> s[j] != ',',
        k == s.len() || s[k] == ',',
    ensures
        first_comma(s) == k,
    decreases k,
{
    if k > 0 {
        lemma_first_comma(s.drop_first(), k - 1);
    }
}

/// Dropping leading white space up to `k`.
proof fn lemma_trim_start(s: Seq<char>, k: int)
    requires
        0 <= k <= s.len(),
        forall|j: int| 0 <= j < k ==> is_white_space(#[trigger] s[j]),
        k == s.len() || !is_white_space(s[k]),
    ensures
        trim_start(s) == s.subrange(k, s.len() as int),
    decreases k,
{
    if k > 0 {
        lemma_trim_start(s.drop_first(), k - 1);
        assert(s.drop_first().subrange(k - 1, s.len() - 1) =~= s.subrange(k, s.len() as int));
    } else {
        assert(s.subrange(0, s.len() as int) =~= s);
    }
}

/// Dropping trailing white space down to `k`.
proof fn lemma_trim_end(s: Seq<char>, k: int)
    requires
        0 <= k <= s.len(),
        forall|j: int| k <= j < s.len() ==> is_white_space(#[trigger] s[j]),
        k == 0 || !is_white_space(s[k - 1]),
    ensures
        trim_end(s) == s.subrange(0, k),
    decreases s.len() - k,
{
    if k < s.len() {
        lemma_trim_end(s.drop_last(), k);
        assert(s.drop_last().subrange(0, k) =~= s.subrange(0, k));
    } else {
        assert(s.subrange(0, k) =~= s);
    }
}

/// Index of the first comma of `cs[from..to]`, relative to `from`, or `to - from` when none.
fn find_comma(cs: &Vec<char>, from: usize, to: usize) -> (r: usize)
    requires
        from <= to <= cs@.len(),
    ensures
        from <= r <= to,
        r - from == first_comma(cs@.subrange(from as int, to as int)),
{
    let mut k = from;
    while k < to && cs[k] != ','
        invariant
            from <= k <= to,
            to <= cs@.len(),
            forall|j: int| from <= j < k ==> cs@[j] != ',',
        decreases to - k,
    {
        k = k + 1;
    }
    proof {
        lemma_first_comma(cs@.subrange(from as int, to as int), k - from);
    }
    k
}

/// Parses the field `cs[from..to]`: white space trimmed, then as `str::parse::<u8>`.
fn parse_field(cs: &Vec<char>, from: usize, to: usize) -> (r: Option<u8>)
    requires
        from <= to <= cs@.len(),
    ensures
        r == parse_u8_spec(trim(cs@.subrange(from as int, to as int))),
{
    let ghost s = cs@.subrange(from as int, to as int);
    let mut p = from;
    while p < to && is_white_space_exec(cs[p])
        invariant
            from <= p <= to,
            to <= cs@.len(),
            forall|j: int| from <= j < p ==> is_white_space(#[trigger] cs@[j]),
        decreases to - p,
    {
        p = p + 1;
    }
    proof {
        assert forall|j: int| 0 <= j < p - from implies is_white_space(#[trigger] s[j]) by {
            assert(s[j] == cs@[from + j]);
        }
        lemma_trim_start(s, p - from);
    }
    let ghost t = cs@.subrange(p as int, to as int);
    let mut q = to;
    while q > p && is_white_space_exec(cs[q - 1])
        invariant
            p <= q <= to,
            to <= cs@.len(),
            forall|j: int| q <= j < to ==> is_white_space(#[trigger] cs@[j]),
        decreases q - p,
    {
        q = q - 1;
    }
    proof {
        assert(s.subrange(p - from, s.len() as int) =~= t);
        assert forall|j: int| q - p <= j < t.len() implies is_white_space(#[trigger] t[j]) by {
            assert(t[j] == cs@[p + j]);
        }
        lemma_trim_end(t, q - p);
        assert(t.subrange(0, q - p) =~= cs@.subrange(p as int, q as int));
    }
    let ghost u = cs@.subrange(p as int, q as int);
    let mut d = p;
    if d < q && cs[d] == '+' {
        d = d + 1;
    }
    let ghost digits = cs@.subrange(d as int, q as int);
    proof {
        if u.len() > 0 && u[0] == '+' {
            assert(u.drop_first() =~= digits);
        } else {
            assert(u =~= digits);
        }
        assert(parse_u8_spec(trim(s)) == digits_u8(digits));
    }
    if d == q {
        return None;
    }
    let mut value: u32 = 0;
    let mut k = d;
    while k < q
        invariant
            d <= k <= q,
            q <= cs@.len(),
            digits == cs@.subrange(d as int, q as int),
            forall|j: int| 0 <= j < k - d ==> is_digit_char(#[trigger] digits[j]),
            value == char_digits_value(digits.subrange(0, k - d)),
            value <= 255,
            parse_u8_spec(trim(cs@.subrange(from as int, to as int))) == digits_u8(digits),
        decreases q - k,
    {
        let c = cs[k];
        if !('0' <= c && c <= '9') {
            proof {
                assert(!is_digit_char(digits[k - d]));
            }
            return None;
        }
        proof {
            assert(digits.subrange(0, k - d + 1).drop_last() =~= digits.subrange(0, k - d));
        }
        value = value * 10 + (c as u32 - '0' as u32);
        if value > 255 {
            proof {
                if forall|j: int| 0 <= j < digits.len() ==> is_digit_char(#[trigger] digits[j]) {
                    lemma_char_digits_prefix_le(digits, k - d + 1);
                }
            }
            return None;
        }
        k = k + 1;
    }
    proof {
        assert(digits.subrange(0, k - d) =~= digits);
    }
    Some(value as u8)
}

/// The value of a prefix of a run of digits is at most the value of the whole run.
proof fn lemma_char_digits_prefix_le(s: Seq<char>, k: int)
    requires
        forall|j: int| 0 <= j < s.len() ==> is_digit_char(#[trigger] s[j]),
        0 <= k <= s.len(),
    ensures
        0 <= char_digits_value(s.subrange(0, k)) <= char_digits_value(s),
    decreases s.len(),
{
    if s.len() > 0 {
        if k == s.len() {
            assert(s.subrange(0, k) =~= s);
            lemma_char_digits_prefix_le(s.drop_last(), k - 1);
        } else {
            lemma_char_digits_prefix_le(s.drop_last(), k);
            assert(s.drop_last().subrange(0, k) =~= s.subrange(0, k));
            lemma_char_digits_prefix_le(s.drop_last(), s.len() - 1);
            assert(s.drop_last().subrange(0, s.len() - 1) =~= s.drop_last());
        }
    }
}

/// Unicode white space, as `char::is_whitespace` defines it.
fn is_white_space_exec(c: char) -> (r: bool)
    ensures
        r == is_white_space(c),
{
    ('\u{9}' <= c && c <= '\u{d}') || c == ' ' || c == '\u{85}' || c == '\u{a0}' || c == '\u{1680}'
        || ('\u{2000}' <= c && c <= '\u{200a}') || c == '\u{2028}' || c == '\u{2029}' || c
        == '\u{202f}' || c == '\u{205f}' || c == '\u{3000}'
}

/// The message for a fault.
fn fault_text(f: RgbFault) -> (r: String)
    ensures
        r@ == fault_message(f),
{
    match f {
        RgbFault::Format => "Invalid RGB format".to_owned(),
        RgbFault::Red => "Invalid red value".to_owned(),
        RgbFault::Green => "Invalid green value".to_owned(),
        RgbFault::Blue => "Invalid blue value".to_owned(),
    }
}

/// The characters of `s`.
fn chars_of(s: &str) -> (r: Vec<char>)
    ensures
        r@ == s@,
{
    let n = s.unicode_len();
    let mut cs: Vec<char> = Vec::new();
    let mut i: usize = 0;
    while i < n
        invariant
            n == s@.len(),
            0 <= i <= n,
            cs@ == s@.subrange(0, i as int),
        decreases n - i,
    {
        cs.push(s.get_char(i));
        i = i + 1;
        assert(cs@ =~= s@.subrange(0, i as int));
    }
    assert(cs@ =~= s@);
    cs
}

/// Bounds of what is left of `cs` once leading `rgb(`s and trailing `)`s are dropped.
fn strip_bounds(cs: &Vec<char>) -> (r: (usize, usize))
    ensures
        r.0 <= r.1 <= cs@.len(),
        strip_close(strip_rgb_open(cs@)) == cs@.subrange(r.0 as int, r.1 as int),
{
    let n = cs.len();
    let mut a: usize = 0;
    proof {
        assert(cs@.subrange(0, n as int) =~= cs@);
    }
    while n - a >= 4 && cs[a] == 'r' && cs[a + 1] == 'g' && cs[a + 2] == 'b' && cs[a + 3] == '('
        invariant
            n == cs@.len(),
            0 <= a <= n,
            strip_rgb_open(cs@) == strip_rgb_open(cs@.subrange(a as int, n as int)),
        decreases n - a,
    {
        proof {
            let t = cs@.subrange(a as int, n as int);
            assert(t.subrange(0, 4) =~= rgb_open());
            assert(t.subrange(4, t.len() as int) =~= cs@.subrange(a + 4, n as int));
        }
        a = a + 4;
    }
    proof {
        let t = cs@.subrange(a as int, n as int);
        if t.len() >= 4 && t.subrange(0, 4) == rgb_open() {
            assert(t[0] == 'r' && t[1] == 'g' && t[2] == 'b' && t[3] == '(') by {
                assert(t.subrange(0, 4)[0] == t[0]);
                assert(t.subrange(0, 4)[1] == t[1]);
                assert(t.subrange(0, 4)[2] == t[2]);
                assert(t.subrange(0, 4)[3] == t[3]);
            }
        }
    }
    let mut b: usize = n;
    while b > a && cs[b - 1] == ')'
        invariant
            n == cs@.len(),
            0 <= a <= b <= n,
            strip_rgb_open(cs@) == cs@.subrange(a as int, n as int),
            strip_close(cs@.subrange(a as int, n as int)) == strip_close(
                cs@.subrange(a as int, b as int),
            ),
        decreases b - a,
    {
        proof {
            assert(cs@.subrange(a as int, b as int).drop_last() =~= cs@.subrange(
                a as int,
                b - 1,
            ));
        }
        b = b - 1;
    }
    (a, b)
}

/// First of a pair of positions.
pub open spec fn pair_first(p: (usize, usize)) -> usize {
    p.0
}

/// Second of a pair of positions.
pub open spec fn pair_second(p: (usize, usize)) -> usize {
    p.1
}

/// The comma positions splitting `cs[a..b]` into three fields, if it holds exactly two commas.
fn comma_fields(cs: &Vec<char>, a: usize, b: usize) -> (r: Option<(usize, usize)>)
    requires
        a <= b <= cs@.len(),
    ensures
        match split3(cs@.subrange(a as int, b as int)) {
            None => r is None,
            Some((x, y, z)) => r is Some && a <= pair_first(r->0) < pair_second(r->0) < b && x == cs@.subrange(
                a as int,
                pair_first(r->0) as int,
            ) && y == cs@.subrange(pair_first(r->0) + 1, pair_second(r->0) as int) && z == cs@.subrange(
                pair_second(r->0) + 1,
                b as int,
            ),
        },
{
    let ghost t = cs@.subrange(a as int, b as int);
    let c1 = find_comma(cs, a, b);
    if c1 == b {
        return None;
    }
    let c2 = find_comma(cs, c1 + 1, b);
    proof {
        assert(t.subrange(c1 - a + 1, t.len() as int) =~= cs@.subrange(c1 + 1, b as int));
    }
    if c2 == b {
        return None;
    }
    let c3 = find_comma(cs, c2 + 1, b);
    proof {
        let r1 = cs@.subrange(c1 + 1, b as int);
        assert(r1.subrange(c2 - c1, r1.len() as int) =~= cs@.subrange(c2 + 1, b as int));
        assert(t.subrange(0, c1 - a) =~= cs@.subrange(a as int, c1 as int));
        assert(r1.subrange(0, c2 - c1 - 1) =~= cs@.subrange(c1 + 1, c2 as int));
    }
    if c3 < b {
        return None;
    }
    Some((c1, c2))
}

/// Parses a CSS-style colour `rgb(r, g, b)`: leading `rgb(` and trailing `)` are dropped, the
/// rest must hold three comma-separated fields, each a `u8` once white space is trimmed.
pub fn parse_rgb(rgb_str: &str) -> (r: Result<[u8; 3], String>)
    ensures
        match rgb_spec(rgb_str@) {
            Ok(v) => r is Ok && r->Ok_0@ == v,
            Err(f) => r is Err && r->Err_0@ == fault_message(f),
        },
{
    let cs = chars_of(rgb_str);
    let (a, b) = strip_bounds(&cs);
    let (c1, c2) = match comma_fields(&cs, a, b) {
        None => {
            return Err(fault_text(RgbFault::Format));
        },
        Some(p) => p,
    };
    let red = parse_field(&cs, a, c1);
    let green = parse_field(&cs, c1 + 1, c2);
    let blue = parse_field(&cs, c2 + 1, b);
    match (red, green, blue) {
        (None, _, _) => Err(fault_text(RgbFault::Red)),
        (Some(_), None, _) => Err(fault_text(RgbFault::Green)),
        (Some(_), Some(_), None) => Err(fault_text(RgbFault::Blue)),
        (Some(r), Some(g), Some(bl)) => {
            let out = [r, g, bl];
            proof {
                assert(out@ =~= seq![r, g, bl]);
            }
            Ok(out)
        },
    }
}

} // verus!
