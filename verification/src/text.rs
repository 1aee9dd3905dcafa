//! Rendering of numbers and message pieces into text.

use vstd::prelude::*;
use vstd::string::{StrSliceExecFns, StringExecFns};

verus! {

/// The character of a digit below 16 (lower-case hexadecimal).
pub open spec fn digit_char(d: nat) -> char {
    if d < 10 {
        ((d + 48) as u8) as char
    } else {
        ((d - 10 + 97) as u8) as char
    }
}

/// The decimal digits of `v`, most significant first, without leading zeros.
pub open spec fn dec_chars(v: nat) -> Seq<char>
    decreases v,
{
    if v < 10 {
        seq![digit_char(v)]
    } else {
        dec_chars(v / 10).push(digit_char(v % 10))
    }
}

fn digit_str(d: u64) -> (r: &'static str)
    requires
        d < 16,
    ensures
        r@ == seq![digit_char(d as nat)],
{
    proof {
        reveal_strlit("0");
        reveal_strlit("1");
        reveal_strlit("2");
        reveal_strlit("3");
        reveal_strlit("4");
        reveal_strlit("5");
        reveal_strlit("6");
        reveal_strlit("7");
        reveal_strlit("8");
        reveal_strlit("9");
        reveal_strlit("a");
        reveal_strlit("b");
        reveal_strlit("c");
        reveal_strlit("d");
        reveal_strlit("e");
        reveal_strlit("f");
    }
    match d {
        0 => "0",
        1 => "1",
        2 => "2",
        3 => "3",
        4 => "4",
        5 => "5",
        6 => "6",
        7 => "7",
        8 => "8",
        9 => "9",
        10 => "a",
        11 => "b",
        12 => "c",
        13 => "d",
        14 => "e",
        _ => "f",
    }
}

/// Appends the decimal digits of `v`.
pub fn push_dec(s: &mut String, v: u64)
    ensures
        final(s)@ == old(s)@ + dec_chars(v as nat),
    decreases v,
{
    if v >= 10 {
        push_dec(s, v / 10);
    }
    s.append(digit_str(v % 10));
}


/// Whether two strings hold the same characters.
pub fn str_eq(a: &str, b: &str) -> (r: bool)
    ensures
        r == (a@ == b@),
{
    let n = a.unicode_len();
    if n != b.unicode_len() {
        return false;
    }
    let mut i: usize = 0;
    while i < n
        invariant
            n == a@.len(),
            n == b@.len(),
            i <= n,
            forall|k: int| 0 <= k < i ==> a@[k] == b@[k],
        decreases n - i,
    {
        if a.get_char(i) != b.get_char(i) {
            return false;
        }
        i = i + 1;
    }
    assert(a@ =~= b@);
    true
}

/// The lower-case hexadecimal digits of `v`, most significant first, without leading zeros.
pub open spec fn hex_chars(v: nat) -> Seq<char>
    decreases v,
{
    if v < 16 {
        seq![digit_char(v)]
    } else {
        hex_chars(v / 16).push(digit_char(v % 16))
    }
}

/// `n` zero characters.
pub open spec fn zeros(n: nat) -> Seq<char>
    decreases n,
{
    if n == 0 {
        Seq::empty()
    } else {
        zeros((n - 1) as nat).push('0')
    }
}

/// The hexadecimal digits of `v`, padded with zeros to at least `width` characters
/// (what `{:0width$x}` prints).
pub open spec fn hex_padded(v: nat, width: nat) -> Seq<char> {
    let h = hex_chars(v);
    if h.len() < width {
        zeros((width - h.len()) as nat) + h
    } else {
        h
    }
}

/// `16^k`.
pub open spec fn pow16(k: nat) -> nat
    decreases k,
{
    if k == 0 {
        1
    } else {
        16 * pow16((k - 1) as nat)
    }
}

proof fn lemma_hex_len_bound(v: nat, k: nat)
    requires
        k >= 1,
        v < pow16(k),
    ensures
        1 <= hex_chars(v).len() <= k,
    decreases v,
{
    if v >= 16 {
        assert(k >= 2) by {
            if k == 1 {
                assert(pow16(1) == 16) by {
                    reveal_with_fuel(pow16, 2);
                }
            }
        }
        assert(v / 16 < pow16((k - 1) as nat)) by (nonlinear_arith)
            requires
                v < pow16(k),
                pow16(k) == 16 * pow16((k - 1) as nat),
        ;
        lemma_hex_len_bound(v / 16, (k - 1) as nat);
    }
}

proof fn lemma_hex_len_u64(v: u64)
    ensures
        1 <= hex_chars(v as nat).len() <= 16,
{
    assert(pow16(16) == 0x1_0000_0000_0000_0000) by {
        reveal_with_fuel(pow16, 17);
    }
    lemma_hex_len_bound(v as nat, 16);
}

fn push_hex_digits(s: &mut String, v: u64)
    ensures
        final(s)@ == old(s)@ + hex_chars(v as nat),
    decreases v,
{
    if v >= 16 {
        push_hex_digits(s, v / 16);
    }
    s.append(digit_str(v % 16));
}

/// Appends `v` in hexadecimal, padded with zeros to at least `width` digits.
pub fn push_hex(s: &mut String, v: u64, width: usize)
    ensures
        final(s)@ == old(s)@ + hex_padded(v as nat, width as nat),
{
    proof {
        lemma_hex_len_u64(v);
    }
    let mut n: usize = 1;
    let mut t: u64 = v;
    while t >= 16
        invariant
            1 <= n,
            n - 1 + hex_chars(t as nat).len() == hex_chars(v as nat).len(),
            hex_chars(v as nat).len() <= 16,
            hex_chars(t as nat).len() >= 1,
        decreases t,
    {
        t = t / 16;
        n = n + 1;
    }
    proof {
        reveal_strlit("0");
    }
    let mut k: usize = n;
    let ghost start = s@;
    while k < width
        invariant
            n <= k,
            k <= width || k == n,
            s@ == start + zeros((k - n) as nat),
            "0"@ == seq!['0'],
        decreases width - k,
    {
        s.append("0");
        k = k + 1;
    }
    push_hex_digits(s, v);
    assert(s@ =~= start + hex_padded(v as nat, width as nat));
}

// ---------------------------------------------------------------------------
// Reading text

/// Whether `prefix` begins `s`.
pub open spec fn has_prefix(s: Seq<char>, prefix: Seq<char>) -> bool {
    prefix.len() <= s.len() && s.take(prefix.len() as int) == prefix
}

pub fn starts_with(s: &str, prefix: &str) -> (r: bool)
    ensures
        r == has_prefix(s@, prefix@),
{
    let n = prefix.unicode_len();
    if n > s.unicode_len() {
        return false;
    }
    let mut i: usize = 0;
    while i < n
        invariant
            n == prefix@.len(),
            n <= s@.len(),
            i <= n,
            forall|k: int| 0 <= k < i ==> s@[k] == prefix@[k],
        decreases n - i,
    {
        if s.get_char(i) != prefix.get_char(i) {
            assert(s@.take(n as int)[i as int] != prefix@[i as int]);
            return false;
        }
        i = i + 1;
    }
    assert(s@.take(n as int) =~= prefix@);
    true
}

/// The characters of `s` from the `n`-th on.
pub fn suffix_from(s: &str, n: usize) -> (r: &str)
    requires
        n <= s@.len(),
    ensures
        r@ == s@.skip(n as int),
{
    let len = s.unicode_len();
    let r = s.substring_char(n, len);
    assert(r@ =~= s@.skip(n as int));
    r
}

/// The characters of `s` from the `from`-th up to the `to`-th.
pub fn slice_chars(s: &str, from: usize, to: usize) -> (r: &str)
    requires
        from <= to <= s@.len(),
    ensures
        r@ == s@.subrange(from as int, to as int),
{
    s.substring_char(from, to)
}

/// Unicode white space, as `char::is_whitespace` classifies it.
pub open spec fn is_ws(c: char) -> bool {
    let u = c as u32;
    ||| 0x09 <= u <= 0x0d
    ||| u == 0x20
    ||| u == 0x85
    ||| u == 0xa0
    ||| u == 0x1680
    ||| 0x2000 <= u <= 0x200a
    ||| u == 0x2028
    ||| u == 0x2029
    ||| u == 0x202f
    ||| u == 0x205f
    ||| u == 0x3000
}

pub fn is_whitespace(c: char) -> (r: bool)
    ensures
        r == is_ws(c),
{
    let u = c as u32;
    (0x09 <= u && u <= 0x0d) || u == 0x20 || u == 0x85 || u == 0xa0 || u == 0x1680 || (0x2000 <= u
        && u <= 0x200a) || u == 0x2028 || u == 0x2029 || u == 0x202f || u == 0x205f || u == 0x3000
}

/// `s` without its leading white space.
pub open spec fn trim_start(s: Seq<char>) -> Seq<char>
    decreases s.len(),
{
    if s.len() > 0 && is_ws(s[0]) {
        trim_start(s.skip(1))
    } else {
        s
    }
}

/// `s` without its trailing white space.
pub open spec fn trim_end(s: Seq<char>) -> Seq<char>
    decreases s.len(),
{
    if s.len() > 0 && is_ws(s.last()) {
        trim_end(s.drop_last())
    } else {
        s
    }
}

/// `s` without leading and trailing white space.
pub open spec fn spec_trim(s: Seq<char>) -> Seq<char> {
    trim_end(trim_start(s))
}

pub fn trim(s: &str) -> (r: &str)
    ensures
        r@ == spec_trim(s@),
{
    let n = s.unicode_len();
    let mut a: usize = 0;
    assert(s@.skip(0) =~= s@);
    while a < n && is_whitespace(s.get_char(a))
        invariant
            n == s@.len(),
            a <= n,
            trim_start(s@) == trim_start(s@.skip(a as int)),
        decreases n - a,
    {
        assert(s@.skip(a as int).skip(1) =~= s@.skip(a + 1));
        a = a + 1;
    }
    let t = suffix_from(s, a);
    let mut b: usize = n - a;
    assert(t@.take(b as int) =~= t@);
    while b > 0 && is_whitespace(t.get_char(b - 1))
        invariant
            b <= t@.len(),
            trim_end(t@) == trim_end(t@.take(b as int)),
        decreases b,
    {
        assert(t@.take(b as int).drop_last() =~= t@.take(b - 1));
        b = b - 1;
    }
    let r = slice_chars(t, 0, b);
    proof {
        assert(r@ =~= t@.take(b as int));
    }
    r
}

/// The value of a digit in the given radix, as `char::to_digit` gives it.
pub open spec fn digit_value(c: char, radix: nat) -> Option<nat> {
    let u = c as u32;
    let v: int = if 0x30 <= u <= 0x39 {
        u - 0x30
    } else if 0x61 <= u <= 0x7a {
        u - 0x61 + 10
    } else if 0x41 <= u <= 0x5a {
        u - 0x41 + 10
    } else {
        radix as int
    };
    if v < radix {
        Some(v as nat)
    } else {
        None
    }
}

/// The number that the digits of `s` spell in the given radix (zero for no digits).
pub open spec fn digits_value(s: Seq<char>, radix: nat) -> Option<nat>
    decreases s.len(),
{
    if s.len() == 0 {
        Some(0)
    } else {
        match (digits_value(s.drop_last(), radix), digit_value(s.last(), radix)) {
            (Some(v), Some(d)) => Some(v * radix + d),
            _ => None,
        }
    }
}

/// How an unsigned integer type's `from_str_radix` reads `s`: an optional `+`, then
/// at least one digit; `None` for anything else or a value above `max`.
pub open spec fn spec_parse_uint(s: Seq<char>, radix: nat, max: nat) -> Option<nat> {
    let d = if s.len() > 0 && s[0] == '+' {
        s.skip(1)
    } else {
        s
    };
    if d.len() == 0 {
        None
    } else {
        match digits_value(d, radix) {
            Some(v) => if v <= max {
                Some(v)
            } else {
                None
            },
            None => None,
        }
    }
}

proof fn lemma_digits_monotone(s: Seq<char>, k: int, radix: nat)
    requires
        0 <= k <= s.len(),
        radix >= 1,
        digits_value(s, radix) is Some,
    ensures
        digits_value(s.take(k), radix) is Some,
        digits_value(s.take(k), radix).unwrap() <= digits_value(s, radix).unwrap(),
    decreases s.len() - k,
{
    if k == s.len() {
        assert(s.take(k) =~= s);
    } else {
        lemma_digits_monotone(s, k + 1, radix);
        let t = s.take(k + 1);
        assert(t.drop_last() =~= s.take(k));
        let v = digits_value(s.take(k), radix).unwrap();
        let d = digit_value(t.last(), radix).unwrap();
        assert(v <= v * radix + d) by (nonlinear_arith)
            requires
                radix >= 1,
        ;
    }
}

/// Reads an unsigned integer in radix 10 or 16 as `from_str_radix` does, rejecting
/// values above `max`.
pub fn parse_uint(s: &str, radix: u64, max: u64) -> (r: Option<u64>)
    requires
        radix == 10 || radix == 16,
    ensures
        match (r, spec_parse_uint(s@, radix as nat, max as nat)) {
            (Some(v), Some(w)) => v == w,
            (None, None) => true,
            _ => false,
        },
{
    let n = s.unicode_len();
    let d = if n > 0 && s.get_char(0) == '+' {
        suffix_from(s, 1)
    } else {
        s
    };
    assert(d@ == (if s@.len() > 0 && s@[0] == '+' { s@.skip(1) } else { s@ }));
    let m = d.unicode_len();
    if m == 0 {
        return None;
    }
    let mut acc: u64 = 0;
    let mut i: usize = 0;
    assert(d@.take(0) =~= Seq::<char>::empty());
    while i < m
        invariant
            m == d@.len(),
            i <= m,
            radix == 10 || radix == 16,
            digits_value(d@.take(i as int), radix as nat) == Some(acc as nat),
            acc <= max,
            spec_parse_uint(s@, radix as nat, max as nat) == (match digits_value(d@, radix as nat) {
                Some(v) => if v <= max {
                    Some(v)
                } else {
                    None
                },
                None => None,
            }),
        decreases m - i,
    {
        let c = d.get_char(i);
        let u = c as u32;
        let dig: u64 = if 0x30 <= u && u <= 0x39 {
            (u - 0x30) as u64
        } else if 0x61 <= u && u <= 0x7a {
            (u - 0x61 + 10) as u64
        } else if 0x41 <= u && u <= 0x5a {
            (u - 0x41 + 10) as u64
        } else {
            radix
        };
        proof {
            assert(d@.take(i + 1).drop_last() =~= d@.take(i as int));
            assert(d@.take(i + 1).last() == c);
        }
        if dig >= radix {
            proof {
                if digits_value(d@, radix as nat) is Some {
                    lemma_digits_monotone(d@, i + 1, radix as nat);
                }
            }
            return None;
        }
        let next = match acc.checked_mul(radix) {
            Some(x) => x.checked_add(dig),
            None => None,
        };
        match next {
            Some(x) if x <= max => {
                acc = x;
            },
            _ => {
                proof {
                    if digits_value(d@, radix as nat) is Some {
                        lemma_digits_monotone(d@, i + 1, radix as nat);
                    }
                }
                return None;
            },
        }
        i = i + 1;
    }
    assert(d@.take(m as int) =~= d@);
    Some(acc)
}

/// The pieces of `s` between commas, as `str::split(',')` gives them.
pub open spec fn split_commas(s: Seq<char>) -> Seq<Seq<char>>
    decreases s.len(),
{
    if s.len() == 0 {
        seq![Seq::empty()]
    } else {
        let r = split_commas(s.drop_last());
        if s.last() == ',' {
            r.push(Seq::empty())
        } else {
            r.update(r.len() - 1, r.last().push(s.last()))
        }
    }
}

pub proof fn lemma_split_commas_nonempty(s: Seq<char>)
    ensures
        split_commas(s).len() >= 1,
    decreases s.len(),
{
    if s.len() > 0 {
        lemma_split_commas_nonempty(s.drop_last());
    }
}

/// The characters of each string slice.
pub open spec fn strs_view(v: Seq<&str>) -> Seq<Seq<char>> {
    v.map_values(|s: &str| s@)
}

/// Splits `s` at every comma.
pub fn split_commas_exec(s: &str) -> (r: Vec<&str>)
    ensures
        strs_view(r@) == split_commas(s@),
{
    let n = s.unicode_len();
    let mut pieces: Vec<&str> = Vec::new();
    let mut start: usize = 0;
    let mut i: usize = 0;
    assert(s@.take(0) =~= Seq::<char>::empty());
    while i < n
        invariant
            n == s@.len(),
            start <= i <= n,
            split_commas(s@.take(i as int)) == strs_view(pieces@).push(s@.subrange(
                start as int,
                i as int,
            )),
        decreases n - i,
    {
        let c = s.get_char(i);
        proof {
            lemma_split_commas_nonempty(s@.take(i as int));
            assert(s@.take(i + 1).drop_last() =~= s@.take(i as int));
            assert(s@.take(i + 1).last() == c);
        }
        if c == ',' {
            let piece = slice_chars(s, start, i);
            let ghost before = pieces@;
            pieces.push(piece);
            start = i + 1;
            proof {
                assert(strs_view(pieces@) =~= strs_view(before).push(piece@));
                assert(s@.subrange(start as int, i + 1) =~= Seq::<char>::empty());
            }
        } else {
            proof {
                assert(s@.subrange(start as int, i + 1) =~= s@.subrange(start as int, i as int).push(c));
                assert(split_commas(s@.take(i + 1)) =~= strs_view(pieces@).push(s@.subrange(
                    start as int,
                    i + 1,
                )));
            }
        }
        i = i + 1;
    }
    let piece = slice_chars(s, start, n);
    let ghost before = pieces@;
    pieces.push(piece);
    proof {
        assert(s@.take(n as int) =~= s@);
        assert(strs_view(pieces@) =~= strs_view(before).push(piece@));
    }
    pieces
}

/// The first position at or after `from` where `..` begins.
pub open spec fn find_dots(s: Seq<char>, from: int) -> Option<int>
    decreases s.len() - from,
{
    if from < 0 || from + 1 >= s.len() {
        None
    } else if s[from] == '.' && s[from + 1] == '.' {
        Some(from)
    } else {
        find_dots(s, from + 1)
    }
}

pub fn find_dots_exec(s: &str) -> (r: Option<usize>)
    ensures
        match (r, find_dots(s@, 0)) {
            (Some(i), Some(j)) => i == j,
            (None, None) => true,
            _ => false,
        },
{
    let n = s.unicode_len();
    let mut i: usize = 0;
    while i < n && i + 1 < n
        invariant
            n == s@.len(),
            i <= n,
            find_dots(s@, 0) == find_dots(s@, i as int),
        decreases n - i,
    {
        if s.get_char(i) == '.' && s.get_char(i + 1) == '.' {
            return Some(i);
        }
        i = i + 1;
    }
    None
}

} // verus!
