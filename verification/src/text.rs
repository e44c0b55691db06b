//! Decimal rendering of integers into strings, as the names and labels of
//! the tracker need it ("Pattern 01", "C-4", "Group 3").
use vstd::prelude::*;

verus! {

/// The character of a decimal digit.
pub open spec fn digit_char(d: int) -> char {
    (d + 48) as char
}

/// The decimal representation of `n`, without leading zeros ("0" for zero).
pub open spec fn decimal(n: nat) -> Seq<char>
    decreases n,
{
    if n < 10 {
        seq![digit_char(n as int)]
    } else {
        decimal(n / 10).push(digit_char((n % 10) as int))
    }
}

/// The decimal representation of `n`, left-padded with zeros to at least `width` characters.
pub open spec fn zero_padded(n: nat, width: nat) -> Seq<char> {
    let d = decimal(n);
    if d.len() < width {
        Seq::new((width - d.len()) as nat, |i: int| '0') + d
    } else {
        d
    }
}

/// The decimal representation of a signed integer, with a leading '-' when negative.
pub open spec fn signed_decimal(v: int) -> Seq<char> {
    if v < 0 {
        seq!['-'] + decimal((-v) as nat)
    } else {
        decimal(v as nat)
    }
}

pub proof fn lemma_decimal_nonempty(n: nat)
    ensures
        decimal(n).len() >= 1,
    decreases n,
{
    if n >= 10 {
        lemma_decimal_nonempty(n / 10);
    }
}

/// The one-character string of the digit `d`.
fn digit_str(d: u64) -> (r: &'static str)
    requires
        d < 10,
    ensures
        r@ == seq![digit_char(d as int)],
{
    proof {
        reveal_strlit("0");
        reveal_strlit("1");
        reveal_strlit("2");
        reveal_strlit("3");
        reveal_strlit("4");
        reveal_strlit("5");
        reveal_strlit("6");
        reveal_strlit("7");
        reveal_strlit("8");
        reveal_strlit("9");
    }
    match d {
        0 => "0",
        1 => "1",
        2 => "2",
        3 => "3",
        4 => "4",
        5 => "5",
        6 => "6",
        7 => "7",
        8 => "8",
        _ => "9",
    }
}

/// Appends the decimal representation of `n`.
pub fn push_decimal(s: &mut String, n: u64)
    ensures
        final(s)@ == old(s)@ + decimal(n as nat),
    decreases n,
{
    if n >= 10 {
        push_decimal(s, n / 10);
    }
    let d = digit_str(n % 10);
    s.append(d);
    proof {
        if n >= 10 {
            assert(decimal(n as nat) == decimal((n / 10) as nat).push(digit_char((n % 10) as int)));
            assert(final(s)@ =~= old(s)@ + decimal(n as nat));
        } else {
            assert(final(s)@ =~= old(s)@ + decimal(n as nat));
        }
    }
}

/// The number of characters of the decimal representation of `n`.
pub fn decimal_len(n: u64) -> (r: usize)
    ensures
        r == decimal(n as nat).len(),
        1 <= r <= 20,
    decreases n,
{
    if n >= 10 {
        let k = decimal_len(n / 10);
        assert(decimal(n as nat).len() == decimal((n / 10) as nat).len() + 1);
        assert(n / 10 < 0x1999_9999_9999_999A) by (nonlinear_arith)
            requires n <= u64::MAX;
        if k == 20 {
            // ten billion billion has 20 digits and is larger than u64::MAX / 10
            assert(false) by {
                lemma_decimal_len_bound((n / 10) as nat);
            }
        }
        k + 1
    } else {
        1
    }
}

/// A number below 10^19 has at most 19 digits.
proof fn lemma_decimal_len_bound(n: nat)
    requires
        n < 10_000_000_000_000_000_000,
    ensures
        decimal(n).len() <= 19,
{
    reveal_with_fuel(pow10, 20);
    lemma_decimal_len_pow(n, 19);
}

proof fn lemma_decimal_len_pow(n: nat, k: nat)
    requires
        k >= 1,
        n < pow10(k),
    ensures
        decimal(n).len() <= k,
    decreases k,
{
    if n >= 10 {
        if k == 1 {
            assert(false);
        } else {
            assert(n / 10 < pow10((k - 1) as nat)) by {
                assert(pow10(k) == 10 * pow10((k - 1) as nat));
            }
            lemma_decimal_len_pow(n / 10, (k - 1) as nat);
        }
    }
}

/// Ten to the power `k`.
pub open spec fn pow10(k: nat) -> nat
    decreases k,
{
    if k == 0 {
        1
    } else {
        10 * pow10((k - 1) as nat)
    }
}

/// Appends `n` in decimal, left-padded with zeros to `width` characters.
pub fn push_padded(s: &mut String, n: u64, width: usize)
    ensures
        final(s)@ == old(s)@ + zero_padded(n as nat, width as nat),
{
    let len = decimal_len(n);
    let ghost start = s@;
    if len < width {
        let mut i: usize = len;
        while i < width
            invariant
                len <= i <= width,
                s@ == start + Seq::new((i - len) as nat, |j: int| '0'),
            decreases width - i,
        {
            proof {
                reveal_strlit("0");
            }
            s.append("0");
            i = i + 1;
            assert(s@ =~= start + Seq::new((i - len) as nat, |j: int| '0'));
        }
    }
    push_decimal(s, n);
    assert(s@ =~= start + zero_padded(n as nat, width as nat));
}

/// Appends a signed integer in decimal.
pub fn push_signed(s: &mut String, v: i64)
    requires
        v > i64::MIN,
    ensures
        final(s)@ == old(s)@ + signed_decimal(v as int),
{
    let ghost start = s@;
    if v < 0 {
        proof {
            reveal_strlit("-");
        }
        s.append("-");
        let m: i64 = -v;
        push_decimal(s, m as u64);
        assert(s@ =~= start + signed_decimal(v as int));
    } else {
        push_decimal(s, v as u64);
    }
}

/// Unicode white space, as `char::is_whitespace` documents it (the White_Space property).
pub open spec fn is_white_space(c: char) -> bool {
    ||| c == '\t'
    ||| c == '\n'
    ||| c == '\u{0B}'
    ||| c == '\u{0C}'
    ||| c == '\r'
    ||| c == ' '
    ||| c == '\u{85}'
    ||| c == '\u{A0}'
    ||| c == '\u{1680}'
    ||| ('\u{2000}' <= c && c <= '\u{200A}')
    ||| c == '\u{2028}'
    ||| c == '\u{2029}'
    ||| c == '\u{202F}'
    ||| c == '\u{205F}'
    ||| c == '\u{3000}'
}

/// `s` without its leading white space.
pub open spec fn trim_start_ws(s: Seq<char>) -> Seq<char>
    decreases s.len(),
{
    if s.len() > 0 && is_white_space(s[0]) {
        trim_start_ws(s.drop_first())
    } else {
        s
    }
}

/// `s` without its leading and trailing white space.
pub open spec fn trim_ws(s: Seq<char>) -> Seq<char> {
    trim_start_ws(trim_end_ws(s))
}

/// An ASCII decimal digit.
pub open spec fn is_digit(c: char) -> bool {
    '0' <= c && c <= '9'
}

/// `s` without its trailing white space.
pub open spec fn trim_end_ws(s: Seq<char>) -> Seq<char>
    decreases s.len(),
{
    if s.len() > 0 && is_white_space(s.last()) {
        trim_end_ws(s.drop_last())
    } else {
        s
    }
}

/// The position of the last character of `s` that is not an ASCII digit, or -1.
pub open spec fn last_non_digit(s: Seq<char>) -> int
    decreases s.len(),
{
    if s.len() == 0 {
        -1
    } else if !is_digit(s.last()) {
        s.len() - 1
    } else {
        last_non_digit(s.drop_last())
    }
}

/// The number the ASCII digits `s` spell (0 for none).
pub open spec fn digits_value(s: Seq<char>) -> nat
    decreases s.len(),
{
    if s.len() == 0 {
        0
    } else {
        digits_value(s.drop_last()) * 10 + ((s.last() as int - 48) as nat)
    }
}

/// Whether `c` is white space (see `is_white_space`).
pub fn white_space(c: char) -> (r: bool)
    ensures
        r == is_white_space(c),
{
    c == '\t' || c == '\n' || c == '\u{0B}' || c == '\u{0C}' || c == '\r' || c == ' '
        || c == '\u{85}' || c == '\u{A0}' || c == '\u{1680}' || (c >= '\u{2000}' && c
        <= '\u{200A}') || c == '\u{2028}' || c == '\u{2029}' || c == '\u{202F}' || c
        == '\u{205F}' || c == '\u{3000}'
}

/// `s` without its leading and trailing white space.
pub fn trim(s: &str) -> (r: String)
    ensures
        r@ == trim_ws(s@),
{
    let n = s.unicode_len();
    let ghost v = s@;
    let mut t: usize = n;
    assert(v.take(n as int) =~= v);
    while t > 0 && white_space(s.get_char(t - 1))
        invariant
            t <= n,
            n == v.len(),
            v == s@,
            trim_end_ws(v) == trim_end_ws(v.take(t as int)),
        decreases t,
    {
        assert(v.take(t as int).drop_last() =~= v.take(t - 1));
        t = t - 1;
    }
    let ghost e = v.take(t as int);
    assert(trim_end_ws(v) == e) by {
        if t > 0 {
            assert(e.last() == v[t - 1]);
        }
    }
    let mut b: usize = 0;
    assert(e.skip(0) =~= e);
    while b < t && white_space(s.get_char(b))
        invariant
            b <= t,
            t <= n,
            n == v.len(),
            v == s@,
            e == v.take(t as int),
            trim_start_ws(e) == trim_start_ws(e.skip(b as int)),
        decreases t - b,
    {
        assert(e.skip(b as int).drop_first() =~= e.skip(b + 1));
        assert(e.skip(b as int)[0] == v[b as int]);
        b = b + 1;
    }
    assert(trim_start_ws(e) == e.skip(b as int)) by {
        if b < t {
            assert(e.skip(b as int)[0] == v[b as int]);
        } else {
            assert(e.skip(b as int).len() == 0);
        }
    }
    let out = s.substring_char(b, t);
    assert(out@ =~= e.skip(b as int));
    String::from_str(out)
}

/// The name after `name` in a numbered series: with its trailing white space removed, a
/// name that ends in a decimal number (of at most `u32::MAX`) after some other character
/// gets that number plus one, zero-padded to the number's width ("Pattern 09" becomes
/// "Pattern 10"); any other name gets " 2" appended ("Test" becomes "Test 2").
pub open spec fn next_in_series(name: Seq<char>) -> Seq<char> {
    let t = trim_end_ws(name);
    let p = last_non_digit(t);
    let num = t.subrange(p + 1, t.len() as int);
    if p >= 0 && num.len() > 0 && digits_value(num) <= u32::MAX {
        t.subrange(0, p + 1) + zero_padded(digits_value(num) + 1, num.len())
    } else {
        t + " 2"@
    }
}

/// The names `next_in_series` takes: the character before the final number, if there is
/// one, is ASCII, and the number, if there is one, is not `u32::MAX`.
pub open spec fn series_name_ok(name: Seq<char>) -> bool {
    let t = trim_end_ws(name);
    let p = last_non_digit(t);
    let num = t.subrange(p + 1, t.len() as int);
    p >= 0 ==> ((t[p] as u32) < 128 && !(num.len() > 0 && digits_value(num) == u32::MAX))
}

proof fn lemma_trim_take(s: Seq<char>, t: int)
    requires
        0 <= t <= s.len(),
        trim_end_ws(s) == trim_end_ws(s.take(t)),
        t > 0,
        is_white_space(s[t - 1]),
    ensures
        trim_end_ws(s) == trim_end_ws(s.take(t - 1)),
{
    assert(s.take(t).drop_last() =~= s.take(t - 1));
}

proof fn lemma_last_non_digit_take(s: Seq<char>, p: int)
    requires
        0 < p <= s.len(),
        is_digit(s[p - 1]),
    ensures
        last_non_digit(s.take(p)) == last_non_digit(s.take(p - 1)),
{
    assert(s.take(p).drop_last() =~= s.take(p - 1));
}

proof fn lemma_digits_step(s: Seq<char>, a: int, j: int)
    requires
        0 <= a <= j < s.len(),
    ensures
        digits_value(s.subrange(a, j + 1)) == digits_value(s.subrange(a, j)) * 10 + ((s[j] as int
            - 48) as nat),
{
    assert(s.subrange(a, j + 1).drop_last() =~= s.subrange(a, j));
}

/// Whether character `i` of `s` is an ASCII digit.
fn digit_at(s: &str, i: usize) -> (r: bool)
    requires
        i < s@.len(),
    ensures
        r == is_digit(s@[i as int]),
{
    let c = s.get_char(i);
    c >= '0' && c <= '9'
}

/// The next name in a numbered series (see `next_in_series`).
pub fn increment_name(name: &str) -> (r: String)
    requires
        series_name_ok(name@),
    ensures
        r@ == next_in_series(name@),
{
    let n = name.unicode_len();
    let ghost s = name@;
    let mut t: usize = n;
    assert(s.take(n as int) =~= s);
    while t > 0 && white_space(name.get_char(t - 1))
        invariant
            t <= n,
            n == s.len(),
            s == name@,
            trim_end_ws(s) == trim_end_ws(s.take(t as int)),
        decreases t,
    {
        proof {
            lemma_trim_take(s, t as int);
        }
        t = t - 1;
    }
    let ghost tr = s.take(t as int);
    assert(trim_end_ws(s) == tr) by {
        if t > 0 {
            assert(tr.last() == s[t - 1]);
        }
    }
    let mut p: usize = t;
    assert(tr.take(t as int) =~= tr);
    while p > 0 && digit_at(name, p - 1)
        invariant
            p <= t,
            t <= n,
            n == s.len(),
            s == name@,
            tr == s.take(t as int),
            last_non_digit(tr) == last_non_digit(tr.take(p as int)),
            forall|k: int| p <= k < t ==> is_digit(#[trigger] tr[k]),
        decreases p,
    {
        proof {
            lemma_last_non_digit_take(tr, p as int);
        }
        p = p - 1;
    }
    proof {
        if p > 0 {
            assert(tr.take(p as int).last() == tr[p - 1]);
            assert(last_non_digit(tr) == p - 1);
        } else {
            assert(last_non_digit(tr) == -1);
        }
    }
    let ghost num = tr.subrange(p as int, t as int);
    if p > 0 && p < t {
        let mut v: u64 = 0;
        let mut over = false;
        let mut j: usize = p;
        assert(tr.subrange(p as int, p as int) =~= Seq::<char>::empty());
        while j < t
            invariant
                p <= j <= t,
                t <= n,
                n == s.len(),
                s == name@,
                tr == s.take(t as int),
                forall|k: int| p <= k < t ==> is_digit(#[trigger] tr[k]),
                !over ==> v == digits_value(tr.subrange(p as int, j as int)),
                !over ==> v <= u32::MAX,
                over ==> digits_value(tr.subrange(p as int, j as int)) > u32::MAX,
            decreases t - j,
        {
            let c = name.get_char(j);
            assert(c == tr[j as int]);
            assert(is_digit(tr[j as int]));
            let d: u64 = (c as u32 - 48) as u64;
            proof {
                lemma_digits_step(tr, p as int, j as int);
            }
            if !over {
                let nv = v * 10 + d;
                if nv > 0xFFFF_FFFF {
                    over = true;
                } else {
                    v = nv;
                }
            }
            j = j + 1;
        }
        if !over {
            let prefix = name.substring_char(0, p);
            let mut out = String::from_str(prefix);
            assert(v != u32::MAX);
            push_padded(&mut out, v + 1, t - p);
            assert(prefix@ =~= tr.subrange(0, p as int));
            return out;
        }
    }
    let whole = name.substring_char(0, t);
    let mut out = String::from_str(whole);
    proof {
        reveal_strlit(" 2");
    }
    out.append(" 2");
    assert(whole@ =~= tr);
    out
}

} // verus!
