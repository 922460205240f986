use vstd::prelude::*;
use vstd::string::*;

verus! {

/// The value of `c` as a digit in base `radix` (bases up to 36), as `char::to_digit` reads it.
pub open spec fn digit_of(c: char, radix: nat) -> Option<nat> {
    let u = c as u32;
    let v: int = if 48 <= u && u <= 57 {
        u - 48
    } else if 97 <= u && u <= 122 {
        u - 87
    } else if 65 <= u && u <= 90 {
        u - 55
    } else {
        36
    };
    if v < radix {
        Some(v as nat)
    } else {
        None
    }
}

/// The number that a run of digits spells in base `radix`; `None` when a character is no digit.
pub open spec fn digits_value(ds: Seq<char>, radix: nat) -> Option<int>
    decreases ds.len(),
{
    if ds.len() == 0 {
        Some(0)
    } else {
        match (digits_value(ds.drop_last(), radix), digit_of(ds.last(), radix)) {
            (Some(v), Some(d)) => Some(v * radix + d),
            _ => None,
        }
    }
}

/// The number that `s` spells in base `radix` with an optional leading sign, before any range
/// check: a lone sign or an empty text spells nothing, and `-` is a sign only for signed targets.
pub open spec fn radix_value(s: Seq<char>, radix: nat, signed: bool) -> Option<int> {
    if s.len() == 0 {
        None
    } else if s.len() == 1 && (s[0] == '+' || s[0] == '-') {
        None
    } else if s[0] == '+' {
        digits_value(s.drop_first(), radix)
    } else if s[0] == '-' && signed {
        match digits_value(s.drop_first(), radix) {
            Some(v) => Some(-v),
            None => None,
        }
    } else {
        digits_value(s, radix)
    }
}

/// What `from_str_radix` returns for an integer type with bounds `min..=max`.
pub open spec fn int_in(s: Seq<char>, radix: nat, signed: bool, min: int, max: int) -> Option<int> {
    match radix_value(s, radix, signed) {
        Some(v) => if min <= v && v <= max {
            Some(v)
        } else {
            None
        },
        None => None,
    }
}

/// `s` without every leading `0x` (`trim_start_matches("0x")`).
pub open spec fn strip_hex_prefixes(s: Seq<char>) -> Seq<char>
    decreases s.len(),
{
    if s.len() >= 2 && s[0] == '0' && s[1] == 'x' {
        strip_hex_prefixes(s.skip(2))
    } else {
        s
    }
}

/// The `i32` that a hexadecimal text denotes, leading `0x` markers dropped.
pub open spec fn hex_i32_value(hex: Seq<char>) -> Option<int> {
    int_in(strip_hex_prefixes(hex), 16, true, i32::MIN as int, i32::MAX as int)
}

/// The `i64` that a hexadecimal text denotes, leading `0x` markers dropped.
pub open spec fn hex_i64_value(hex: Seq<char>) -> Option<int> {
    int_in(strip_hex_prefixes(hex), 16, true, i64::MIN as int, i64::MAX as int)
}

/// The `usize` that a decimal text denotes, as `str::parse::<usize>` reads it.
pub open spec fn usize_value(s: Seq<char>) -> Option<int> {
    int_in(s, 10, false, 0, usize::MAX as int)
}

proof fn lemma_digits_nonneg(ds: Seq<char>, radix: nat)
    requires
        digits_value(ds, radix) is Some,
    ensures
        digits_value(ds, radix)->0 >= 0,
    decreases ds.len(),
{
    if ds.len() > 0 {
        lemma_digits_nonneg(ds.drop_last(), radix);
        let v = digits_value(ds.drop_last(), radix)->0;
        assert(v * radix >= 0) by (nonlinear_arith)
            requires
                v >= 0,
        ;
    }
}

/// Every prefix of a valid run of digits is valid and spells no more than the whole run.
proof fn lemma_prefix_value(ds: Seq<char>, radix: nat, k: int)
    requires
        0 <= k <= ds.len(),
        radix >= 1,
        digits_value(ds, radix) is Some,
    ensures
        digits_value(ds.take(k), radix) is Some,
        0 <= digits_value(ds.take(k), radix)->0 <= digits_value(ds, radix)->0,
    decreases ds.len(),
{
    lemma_digits_nonneg(ds, radix);
    if k == ds.len() {
        assert(ds.take(k) =~= ds);
    } else {
        lemma_prefix_value(ds.drop_last(), radix, k);
        assert(ds.drop_last().take(k) =~= ds.take(k));
        let v = digits_value(ds.drop_last(), radix)->0;
        let d = digit_of(ds.last(), radix)->0;
        assert(v <= v * radix + d) by (nonlinear_arith)
            requires
                v >= 0,
                radix >= 1,
                d >= 0,
        ;
    }
}

fn digit_exec(c: char, radix: u32) -> (r: Option<u32>)
    requires
        radix <= 36,
    ensures
        r is Some <==> digit_of(c, radix as nat) is Some,
        r matches Some(d) ==> digit_of(c, radix as nat) == Some(d as nat),
{
    let u = c as u32;
    let v: u32 = if 48 <= u && u <= 57 {
        u - 48
    } else if 97 <= u && u <= 122 {
        u - 87
    } else if 65 <= u && u <= 90 {
        u - 55
    } else {
        36
    };
    if v < radix {
        Some(v)
    } else {
        None
    }
}

/// Reads the integer written in `s` from character `start` on, as `from_str_radix` does for a
/// type whose bounds are `min..=max`.
fn parse_from(s: &str, start: usize, radix: u32, signed: bool, min: i128, max: i128) -> (r: Option<i128>)
    requires
        start <= s@.len(),
        2 <= radix <= 16,
        -0x1_0000_0000_0000_0000 <= min <= 0 <= max <= 0x1_0000_0000_0000_0000,
    ensures
        r is Some <==> int_in(s@.skip(start as int), radix as nat, signed, min as int, max as int) is Some,
        r matches Some(v) ==> int_in(s@.skip(start as int), radix as nat, signed, min as int, max as int)
            == Some(v as int),
{
    let ghost t = s@.skip(start as int);
    let n = s.unicode_len();
    if start >= n {
        return None;
    }
    let first = s.get_char(start);
    assert(t[0] == first);
    if start + 1 == n && (first == '+' || first == '-') {
        return None;
    }
    let mut neg = false;
    let mut i = start;
    if first == '+' {
        i = start + 1;
    } else if first == '-' && signed {
        neg = true;
        i = start + 1;
    }
    let begin = i;
    let ghost ds = s@.skip(begin as int);
    proof {
        if begin == start + 1 {
            assert(t.drop_first() =~= ds);
        } else {
            assert(t =~= ds);
        }
    }
    let limit: i128 = if neg {
        -min
    } else {
        max
    };
    proof {
        if digits_value(ds, radix as nat) is Some {
            lemma_digits_nonneg(ds, radix as nat);
        }
    }
    // The whole text denotes `digits_value(ds)`, negated when `neg`, within `limit`.
    let ghost whole = int_in(t, radix as nat, signed, min as int, max as int);
    assert(whole == match digits_value(ds, radix as nat) {
        Some(w) => if w <= limit {
            Some(if neg { -w } else { w })
        } else {
            None
        },
        None => None,
    });
    let mut acc: i128 = 0;
    proof {
        assert(ds.take(0) =~= Seq::<char>::empty());
    }
    while i < n
        invariant
            start <= begin <= i <= n,
            n == s@.len(),
            ds == s@.skip(begin as int),
            2 <= radix <= 16,
            0 <= limit <= 0x1_0000_0000_0000_0000,
            digits_value(ds.take(i - begin), radix as nat) == Some(acc as int),
            0 <= acc <= limit,
            t == s@.skip(start as int),
            whole == int_in(t, radix as nat, signed, min as int, max as int),
            whole == match digits_value(ds, radix as nat) {
                Some(w) => if w <= limit {
                    Some(if neg { -w } else { w })
                } else {
                    None
                },
                None => None,
            },
        decreases n - i,
    {
        let c = s.get_char(i);
        let ghost k = i - begin;
        proof {
            assert(ds.take(k + 1).drop_last() =~= ds.take(k));
            assert(ds.take(k + 1).last() == c);
        }
        match digit_exec(c, radix) {
            None => {
                proof {
                    if digits_value(ds, radix as nat) is Some {
                        lemma_prefix_value(ds, radix as nat, k + 1);
                    }
                }
                return None;
            },
            Some(d) => {
                assert(acc * (radix as i128) <= 0x1_0000_0000_0000_0000 * 16) by (nonlinear_arith)
                    requires
                        0 <= acc <= 0x1_0000_0000_0000_0000,
                        radix <= 16,
                ;
                acc = acc * (radix as i128) + (d as i128);
                if acc > limit {
                    proof {
                        if digits_value(ds, radix as nat) is Some {
                            lemma_prefix_value(ds, radix as nat, k + 1);
                        }
                    }
                    return None;
                }
            },
        }
        i = i + 1;
    }
    proof {
        assert(ds.take(n - begin) =~= ds);
    }
    if neg {
        Some(-acc)
    } else {
        Some(acc)
    }
}

/// Index of the first character after every leading `0x`.
fn skip_hex_prefixes(s: &str) -> (i: usize)
    ensures
        i <= s@.len(),
        s@.skip(i as int) == strip_hex_prefixes(s@),
{
    let n = s.unicode_len();
    let mut i: usize = 0;
    proof {
        assert(s@.skip(0) =~= s@);
    }
    loop
        invariant
            i <= n,
            n == s@.len(),
            strip_hex_prefixes(s@.skip(i as int)) == strip_hex_prefixes(s@),
        decreases n - i,
    {
        let ghost rest = s@.skip(i as int);
        if n - i >= 2 {
            let c0 = s.get_char(i);
            let c1 = s.get_char(i + 1);
            if c0 == '0' && c1 == 'x' {
                proof {
                    assert(rest[0] == c0 && rest[1] == c1);
                    assert(rest.skip(2) =~= s@.skip(i + 2));
                }
                i = i + 2;
            } else {
                proof {
                    assert(rest[0] == c0 && rest[1] == c1);
                }
                return i;
            }
        } else {
            return i;
        }
    }
}

/// Parses a hexadecimal `i32` (leading `0x` markers dropped), or `None` when the text does not
/// denote one.
pub fn try_hex_to_i32(hex: &str) -> (r: Option<i32>)
    ensures
        r is Some <==> hex_i32_value(hex@) is Some,
        r matches Some(v) ==> hex_i32_value(hex@) == Some(v as int),
{
    let start = skip_hex_prefixes(hex);
    match parse_from(hex, start, 16, true, i32::MIN as i128, i32::MAX as i128) {
        Some(v) => Some(v as i32),
        None => None,
    }
}

/// Parses a hexadecimal `i32` (leading `0x` markers dropped).
pub fn hex_to_i32(hex: &str) -> (r: i32)
    requires
        hex_i32_value(hex@) is Some,
    ensures
        hex_i32_value(hex@) == Some(r as int),
{
    match try_hex_to_i32(hex) {
        Some(v) => v,
        None => 0,
    }
}

/// Parses a hexadecimal `i64` (leading `0x` markers dropped), or `None` when the text does not
/// denote one.
pub fn try_hex_to_i64(hex: &str) -> (r: Option<i64>)
    ensures
        r is Some <==> hex_i64_value(hex@) is Some,
        r matches Some(v) ==> hex_i64_value(hex@) == Some(v as int),
{
    let start = skip_hex_prefixes(hex);
    match parse_from(hex, start, 16, true, i64::MIN as i128, i64::MAX as i128) {
        Some(v) => Some(v as i64),
        None => None,
    }
}

/// Parses a hexadecimal `i64` (leading `0x` markers dropped).
pub fn hex_to_i64(hex: &str) -> (r: i64)
    requires
        hex_i64_value(hex@) is Some,
    ensures
        hex_i64_value(hex@) == Some(r as int),
{
    match try_hex_to_i64(hex) {
        Some(v) => v,
        None => 0,
    }
}

/// Parses a decimal `usize` as `str::parse::<usize>` does, or `None` when the text does not
/// denote one.
pub fn parse_usize(s: &str) -> (r: Option<usize>)
    ensures
        r is Some <==> usize_value(s@) is Some,
        r matches Some(v) ==> usize_value(s@) == Some(v as int),
{
    proof {
        assert(s@.skip(0) =~= s@);
    }
    match parse_from(s, 0, 10, false, 0, usize::MAX as i128) {
        Some(v) => Some(v as usize),
        None => None,
    }
}


/// A leading `0x` makes no difference to the value of a hexadecimal text.
pub proof fn lemma_hex_prefix_dropped(s: Seq<char>)
    ensures
        hex_i32_value(seq!['0', 'x'] + s) == hex_i32_value(s),
        hex_i64_value(seq!['0', 'x'] + s) == hex_i64_value(s),
{
    let t = seq!['0', 'x'] + s;
    assert(t[0] == '0' && t[1] == 'x');
    assert(t.skip(2) =~= s);
}

/// A hexadecimal text that denotes an `i32` denotes the same value as an `i64`.
pub proof fn lemma_hex_i32_agrees_with_i64(s: Seq<char>)
    ensures
        hex_i32_value(s) matches Some(v) ==> hex_i64_value(s) == Some(v),
{
}

/// The lowercase hexadecimal digit for `d < 16`.
pub open spec fn hex_char(d: nat) -> char {
    if d < 10 {
        (48 + d) as char
    } else {
        (87 + d) as char
    }
}

/// The lowercase hexadecimal digits of `m` without leading zeros, as `format!("{:x}", m)`
/// writes them.
pub open spec fn hex_digits_of(m: nat) -> Seq<char>
    decreases m,
{
    if m < 16 {
        seq![hex_char(m)]
    } else {
        hex_digits_of(m / 16).push(hex_char(m % 16))
    }
}

/// Whether `c` is one of the characters `0`-`9`, `a`-`f`.
pub open spec fn is_lower_hex(c: char) -> bool {
    (48 <= c as u32 <= 57) || (97 <= c as u32 <= 102)
}

proof fn lemma_hex_digits_value(m: nat)
    ensures
        hex_digits_of(m).len() >= 1,
        digits_value(hex_digits_of(m), 16) == Some(m as int),
        forall|i: int| 0 <= i < hex_digits_of(m).len() ==> is_lower_hex(#[trigger] hex_digits_of(m)[i]),
    decreases m,
{
    let d = (m % 16) as nat;
    assert(hex_char(d) as u32 == if d < 10 { 48 + d } else { 87 + d });
    assert(digit_of(hex_char(d), 16) == Some(d));
    if m < 16 {
        assert(m % 16 == m);
        let t = hex_digits_of(m);
        assert(t.drop_last() =~= Seq::<char>::empty());
        assert(t.last() == hex_char(m));
        assert(digits_value(t.drop_last(), 16) == Some(0int));
        assert(digits_value(t, 16) == Some(m as int));
    } else {
        lemma_hex_digits_value(m / 16);
        let prev = hex_digits_of(m / 16);
        let t = hex_digits_of(m);
        assert(t.drop_last() =~= prev);
        assert(t.last() == hex_char(d));
        assert((m / 16) * 16 + d == m);
        assert(digits_value(t, 16) == Some(((m / 16) * 16 + d) as int));
        assert forall|i: int| 0 <= i < t.len() implies is_lower_hex(#[trigger] t[i]) by {
            if i < prev.len() {
                assert(t[i] == prev[i]);
            }
        }
    }
}

/// Parsing what hexadecimal formatting writes gives the number back: `0x` and the digits of a
/// non-negative number, or `-` and the digits of the magnitude of a negative one, within the
/// bounds of `i32` and of `i64`.
pub proof fn lemma_hex_format_round_trip(n: int)
    ensures
        0 <= n <= i32::MAX ==> hex_i32_value(seq!['0', 'x'] + hex_digits_of(n as nat)) == Some(n),
        0 <= n <= i64::MAX ==> hex_i64_value(seq!['0', 'x'] + hex_digits_of(n as nat)) == Some(n),
        i32::MIN <= n < 0 ==> hex_i32_value(seq!['-'] + hex_digits_of((-n) as nat)) == Some(n),
        i64::MIN <= n < 0 ==> hex_i64_value(seq!['-'] + hex_digits_of((-n) as nat)) == Some(n),
{
    if n >= 0 {
        let ds = hex_digits_of(n as nat);
        lemma_hex_digits_value(n as nat);
        lemma_hex_prefix_dropped(ds);
        assert(is_lower_hex(ds[0]));
        if ds.len() >= 2 {
            assert(is_lower_hex(ds[1]));
        }
        assert(strip_hex_prefixes(ds) == ds);
    } else {
        let ds = hex_digits_of((-n) as nat);
        lemma_hex_digits_value((-n) as nat);
        let t = seq!['-'] + ds;
        assert(t[0] == '-');
        assert(strip_hex_prefixes(t) == t);
        assert(t.drop_first() =~= ds);
    }
}

} // verus!
