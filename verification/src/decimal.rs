//! Decimal integers in text: reading them as `str::parse` does for `i32`
//! and `u32`, and writing them as `Display` does.

use vstd::prelude::*;

verus! {

/// An ASCII decimal digit.
pub open spec fn is_digit(c: char) -> bool {
    '0' <= c && c <= '9'
}

/// The value of a decimal digit.
pub open spec fn digit_value(c: char) -> int {
    c as int - '0' as int
}

/// Every character of `s` is a decimal digit.
pub open spec fn all_digits(s: Seq<char>) -> bool {
    forall|i: int| 0 <= i < s.len() ==> is_digit(#[trigger] s[i])
}

/// The value of a string of digits, most significant first.
pub open spec fn digits_value(s: Seq<char>) -> nat
    decreases s.len(),
{
    if s.len() == 0 {
        0
    } else {
        digits_value(s.drop_last()) * 10 + digit_value(s.last()) as nat
    }
}

/// A non-empty run of digits.
pub open spec fn is_numeral(s: Seq<char>) -> bool {
    s.len() > 0 && all_digits(s)
}

/// What a decimal integer in `s` denotes: an optional `+` (or, where
/// `signed`, `-`) and then one or more digits; `None` for anything else.
pub open spec fn parse_int(s: Seq<char>, signed: bool) -> Option<int> {
    if s.len() > 0 && s[0] == '+' {
        if is_numeral(s.drop_first()) {
            Some(digits_value(s.drop_first()) as int)
        } else {
            None
        }
    } else if s.len() > 0 && s[0] == '-' && signed {
        if is_numeral(s.drop_first()) {
            Some(-(digits_value(s.drop_first()) as int))
        } else {
            None
        }
    } else if is_numeral(s) {
        Some(digits_value(s) as int)
    } else {
        None
    }
}

/// What `s.parse::<i32>()` gives, as an `Option`.
pub open spec fn parse_i32_spec(s: Seq<char>) -> Option<i32> {
    match parse_int(s, true) {
        Some(v) => if i32::MIN <= v <= i32::MAX {
            Some(v as i32)
        } else {
            None
        },
        None => None,
    }
}

/// What `s.parse::<u32>()` gives, as an `Option`.
pub open spec fn parse_u32_spec(s: Seq<char>) -> Option<u32> {
    match parse_int(s, false) {
        Some(v) => if 0 <= v <= u32::MAX {
            Some(v as u32)
        } else {
            None
        },
        None => None,
    }
}

/// The digit that stands for `d`, for `d` below ten.
pub open spec fn digit_char(d: nat) -> char {
    if d == 0 {
        '0'
    } else if d == 1 {
        '1'
    } else if d == 2 {
        '2'
    } else if d == 3 {
        '3'
    } else if d == 4 {
        '4'
    } else if d == 5 {
        '5'
    } else if d == 6 {
        '6'
    } else if d == 7 {
        '7'
    } else if d == 8 {
        '8'
    } else {
        '9'
    }
}

/// The decimal digits of `n`, with no leading zero.
pub open spec fn decimal_digits(n: nat) -> Seq<char>
    decreases n,
{
    if n < 10 {
        seq![digit_char(n)]
    } else {
        decimal_digits(n / 10).push(digit_char(n % 10))
    }
}

/// How `Display` writes an `i32`: a `-` for a negative value, then the digits.
pub open spec fn i32_text(x: i32) -> Seq<char> {
    if x < 0 {
        seq!['-'] + decimal_digits((-x) as nat)
    } else {
        decimal_digits(x as nat)
    }
}

/// How `Display` writes a `u32`.
pub open spec fn u32_text(x: u32) -> Seq<char> {
    decimal_digits(x as nat)
}

proof fn lemma_digit_char(d: nat)
    requires
        d < 10,
    ensures
        is_digit(digit_char(d)),
        digit_value(digit_char(d)) == d,
{
}

/// The digits of `n` are digits, there is at least one, and they denote `n`.
pub proof fn lemma_decimal_digits(n: nat)
    ensures
        is_numeral(decimal_digits(n)),
        digits_value(decimal_digits(n)) == n,
    decreases n,
{
    if n < 10 {
        lemma_digit_char(n);
        assert(decimal_digits(n).drop_last() =~= Seq::<char>::empty());
        assert(digits_value(Seq::<char>::empty()) == 0);
    } else {
        lemma_decimal_digits(n / 10);
        lemma_digit_char(n % 10);
        let s = decimal_digits(n);
        assert(s.drop_last() =~= decimal_digits(n / 10));
        assert(s.last() == digit_char(n % 10));
        assert(digits_value(s) == (n / 10) * 10 + n % 10);
        assert((n / 10) * 10 + n % 10 == n);
        assert forall|i: int| 0 <= i < s.len() implies is_digit(#[trigger] s[i]) by {
            if i < s.len() - 1 {
                assert(s[i] == decimal_digits(n / 10)[i]);
            }
        }
    }
}

/// A value of a prefix of digits is at most the value of all of them.
pub proof fn lemma_digits_value_prefix(s: Seq<char>, k: int)
    requires
        all_digits(s),
        0 <= k <= s.len(),
    ensures
        digits_value(s.take(k)) <= digits_value(s),
    decreases s.len(),
{
    if k < s.len() {
        let t = s.drop_last();
        assert(all_digits(t)) by {
            assert forall|i: int| 0 <= i < t.len() implies is_digit(#[trigger] t[i]) by {
                assert(t[i] == s[i]);
            }
        }
        lemma_digits_value_prefix(t, k);
        assert(t.take(k) =~= s.take(k));
        assert(is_digit(s[s.len() - 1]));
    } else {
        assert(s.take(k) =~= s);
    }
}

/// Reading back what `Display` writes for an `i32` gives the value again.
pub proof fn lemma_i32_text_parses(x: i32)
    ensures
        parse_i32_spec(i32_text(x)) == Some(x),
        !i32_text(x).contains('/'),
{
    if x < 0 {
        let n = (-x) as nat;
        lemma_decimal_digits(n);
        let s = i32_text(x);
        assert(s.drop_first() =~= decimal_digits(n));
        assert(s[0] == '-');
        assert forall|i: int| 0 <= i < s.len() implies s[i] != '/' by {
            if i > 0 {
                assert(s[i] == decimal_digits(n)[i - 1]);
                assert(is_digit(decimal_digits(n)[i - 1]));
            }
        }
    } else {
        let n = x as nat;
        lemma_decimal_digits(n);
        let s = i32_text(x);
        assert(is_digit(s[0]));
        assert forall|i: int| 0 <= i < s.len() implies s[i] != '/' by {
            assert(is_digit(s[i]));
        }
    }
}

/// Reading back what `Display` writes for a `u32` gives the value again.
pub proof fn lemma_u32_text_parses(x: u32)
    ensures
        parse_u32_spec(u32_text(x)) == Some(x),
        !u32_text(x).contains('/'),
{
    let n = x as nat;
    lemma_decimal_digits(n);
    let s = u32_text(x);
    assert(is_digit(s[0]));
    assert forall|i: int| 0 <= i < s.len() implies s[i] != '/' by {
        assert(is_digit(s[i]));
    }
}

/// A single digit reads as its own value, as `u32` and as `i32`.
pub proof fn law_parse_single_digit(c: char)
    requires
        '0' <= c <= '9',
    ensures
        parse_u32_spec(seq![c]) == Some((c as int - '0' as int) as u32),
        parse_i32_spec(seq![c]) == Some((c as int - '0' as int) as i32),
{
    let s = seq![c];
    assert(s.drop_last() =~= Seq::<char>::empty());
    assert(digits_value(Seq::<char>::empty()) == 0);
    assert(all_digits(s));
}

/// Appending a digit `c` to a run of digits `s` multiplies the value read as
/// a `u32` by ten and adds the digit, and the reading fails exactly where the
/// result passes `u32::MAX` or the reading of `s` failed already.
pub proof fn law_parse_u32_push_digit(s: Seq<char>, c: char)
    requires
        s.len() > 0,
        forall|i: int| 0 <= i < s.len() ==> '0' <= #[trigger] s[i] <= '9',
        '0' <= c <= '9',
    ensures
        ({
            let d = c as int - '0' as int;
            match parse_u32_spec(s) {
                Some(v) => if v * 10 + d <= u32::MAX {
                    parse_u32_spec(s.push(c)) == Some((v * 10 + d) as u32)
                } else {
                    parse_u32_spec(s.push(c)) is None
                },
                None => parse_u32_spec(s.push(c)) is None,
            }
        }),
{
    let t = s.push(c);
    assert(t.drop_last() =~= s);
    assert(all_digits(s));
    assert(all_digits(t)) by {
        assert forall|i: int| 0 <= i < t.len() implies is_digit(#[trigger] t[i]) by {
            if i < s.len() {
                assert(t[i] == s[i]);
            }
        }
    }
    assert(is_digit(s[0]));
    assert(t[0] == s[0]);
}

/// A leading `+` changes nothing, and a leading `-` makes a `u32` reading fail.
pub proof fn law_parse_u32_sign(s: Seq<char>)
    requires
        s.len() > 0,
        forall|i: int| 0 <= i < s.len() ==> '0' <= #[trigger] s[i] <= '9',
    ensures
        parse_u32_spec(seq!['+'] + s) == parse_u32_spec(s),
        parse_u32_spec(seq!['-'] + s) is None,
{
    let p = seq!['+'] + s;
    let m = seq!['-'] + s;
    assert(p.drop_first() =~= s);
    assert(m[0] == '-');
    assert(!is_digit(m[0]));
    assert(is_digit(s[0]));
}

/// Text that is empty, a lone sign, or holds a character that is neither a
/// digit nor a leading sign, reads as no number at all.
pub proof fn law_parse_rejects(s: Seq<char>)
    requires
        s.len() == 0 || (s.len() == 1 && (s[0] == '+' || s[0] == '-')) || (exists|i: int|
            0 < i < s.len() && !('0' <= #[trigger] s[i] <= '9')) || (s.len() > 0 && !('0' <= s[0]
            <= '9') && s[0] != '+' && s[0] != '-'),
    ensures
        parse_u32_spec(s) is None,
        parse_i32_spec(s) is None,
{
    if s.len() > 1 {
        if exists|i: int| 0 < i < s.len() && !('0' <= #[trigger] s[i] <= '9') {
            let i = choose|i: int| 0 < i < s.len() && !('0' <= #[trigger] s[i] <= '9');
            assert(s.drop_first()[i - 1] == s[i]);
        }
    }
}

/// Reading an `i32` agrees with reading the digits as a `u32`, as far as an
/// `i32` reaches: up to `i32::MAX` unsigned or after `+`, and down to
/// `i32::MIN` after `-`.
pub proof fn law_parse_i32_from_u32(s: Seq<char>)
    requires
        s.len() > 0,
        forall|i: int| 0 <= i < s.len() ==> '0' <= #[trigger] s[i] <= '9',
    ensures
        parse_i32_spec(s) == match parse_u32_spec(s) {
            Some(v) => if v <= i32::MAX {
                Some(v as i32)
            } else {
                None
            },
            None => None,
        },
        parse_i32_spec(seq!['+'] + s) == parse_i32_spec(s),
        parse_i32_spec(seq!['-'] + s) == match parse_u32_spec(s) {
            Some(v) => if v <= 0x8000_0000 {
                Some((-(v as int)) as i32)
            } else {
                None
            },
            None => None,
        },
{
    let p = seq!['+'] + s;
    let m = seq!['-'] + s;
    assert(p.drop_first() =~= s);
    assert(m.drop_first() =~= s);
    assert(all_digits(s));
    assert(is_digit(s[0]));
}

/// The first digit of `n` is `0` only for `n` itself 0.
proof fn lemma_decimal_digits_first(n: nat)
    ensures
        decimal_digits(n)[0] == '0' ==> n == 0,
        decimal_digits(n).len() >= 1,
    decreases n,
{
    if n >= 10 {
        lemma_decimal_digits_first(n / 10);
        assert(decimal_digits(n)[0] == decimal_digits(n / 10)[0]);
    }
}

/// What `Display` writes for a `u32`: one or more ASCII digits, with no sign
/// and no leading zero (the text of 0 is `0` alone), which read back as the
/// value written.
pub proof fn law_u32_text(x: u32)
    ensures
        u32_text(x).len() >= 1,
        forall|i: int| 0 <= i < u32_text(x).len() ==> '0' <= #[trigger] u32_text(x)[i] <= '9',
        u32_text(x)[0] == '0' ==> x == 0 && u32_text(x).len() == 1,
        parse_u32_spec(u32_text(x)) == Some(x),
{
    lemma_decimal_digits(x as nat);
    lemma_decimal_digits_first(x as nat);
    lemma_u32_text_parses(x);
    let t = u32_text(x);
    assert forall|i: int| 0 <= i < t.len() implies '0' <= #[trigger] t[i] <= '9' by {
        assert(is_digit(t[i]));
    }
    if t[0] == '0' && t.len() > 1 {
        assert(x >= 10);
    }
}

/// What `Display` writes for an `i32`: the text of the value as a `u32` where
/// it is not negative, and `-` before the text of its magnitude where it is.
pub proof fn law_i32_text(x: i32)
    ensures
        x >= 0 ==> i32_text(x) == u32_text(x as u32),
        x < 0 ==> i32_text(x) == seq!['-'] + u32_text((-(x as int)) as u32),
        parse_i32_spec(i32_text(x)) == Some(x),
{
    lemma_i32_text_parses(x);
}

/// The canonical digits of every `u32` read back as that value.
pub proof fn law_parse_canonical_u32(n: u32)
    ensures
        parse_u32_spec(decimal_digits(n as nat)) == Some(n),
        parse_i32_spec(decimal_digits(n as nat)) == if n <= i32::MAX {
            Some(n as i32)
        } else {
            None
        },
{
    lemma_u32_text_parses(n);
    lemma_decimal_digits(n as nat);
    let t = decimal_digits(n as nat);
    assert(is_digit(t[0]));
}

/// The value of `c` as a decimal digit, if it is one.
fn char_digit(c: char) -> (r: Option<u64>)
    ensures
        r is Some <==> is_digit(c),
        r matches Some(d) ==> d == digit_value(c) && d < 10,
{
    if c == '0' {
        Some(0)
    } else if c == '1' {
        Some(1)
    } else if c == '2' {
        Some(2)
    } else if c == '3' {
        Some(3)
    } else if c == '4' {
        Some(4)
    } else if c == '5' {
        Some(5)
    } else if c == '6' {
        Some(6)
    } else if c == '7' {
        Some(7)
    } else if c == '8' {
        Some(8)
    } else if c == '9' {
        Some(9)
    } else {
        None
    }
}

/// The value of the digits `s[lo..hi]`, where they are all digits and the
/// value is at most `cap`; `None` otherwise.
fn digits_at(s: &Vec<char>, lo: usize, hi: usize, cap: u64) -> (r: Option<u64>)
    requires
        lo <= hi <= s@.len(),
        cap <= 0x1_0000_0000,
    ensures
        r is Some <==> (all_digits(s@.subrange(lo as int, hi as int)) && digits_value(
            s@.subrange(lo as int, hi as int),
        ) <= cap),
        r matches Some(v) ==> v == digits_value(s@.subrange(lo as int, hi as int)),
{
    let ghost whole = s@.subrange(lo as int, hi as int);
    let mut acc: u64 = 0;
    let mut i = lo;
    assert(s@.subrange(lo as int, lo as int) =~= Seq::<char>::empty());
    while i < hi
        invariant
            lo <= i <= hi <= s@.len(),
            cap <= 0x1_0000_0000,
            whole == s@.subrange(lo as int, hi as int),
            acc <= cap,
            all_digits(s@.subrange(lo as int, i as int)),
            acc == digits_value(s@.subrange(lo as int, i as int)),
        decreases hi - i,
    {
        let c = s[i];
        let d = match char_digit(c) {
            Some(d) => d,
            None => {
                assert(whole[i - lo] == c);
                return None;
            },
        };
        let ghost before = s@.subrange(lo as int, i as int);
        acc = acc * 10 + d;
        i = i + 1;
        let ghost now = s@.subrange(lo as int, i as int);
        assert(now.drop_last() =~= before);
        assert(now.last() == c);
        assert(all_digits(now)) by {
            assert forall|j: int| 0 <= j < now.len() implies is_digit(#[trigger] now[j]) by {
                if j < now.len() - 1 {
                    assert(now[j] == before[j]);
                }
            }
        }
        if acc > cap {
            proof {
                assert(whole.take(i - lo) =~= now);
                if all_digits(whole) {
                    lemma_digits_value_prefix(whole, i - lo);
                }
            }
            return None;
        }
    }
    Some(acc)
}

/// `s[lo..hi]` read as an `i32`, as `str::parse::<i32>` reads it.
pub fn parse_i32_at(s: &Vec<char>, lo: usize, hi: usize) -> (r: Option<i32>)
    requires
        lo <= hi <= s@.len(),
    ensures
        r == parse_i32_spec(s@.subrange(lo as int, hi as int)),
{
    let ghost t = s@.subrange(lo as int, hi as int);
    if lo < hi && (s[lo] == '+' || s[lo] == '-') {
        assert(t.drop_first() =~= s@.subrange(lo + 1, hi as int));
        if lo + 1 == hi {
            return None;
        }
        if s[lo] == '+' {
            match digits_at(s, lo + 1, hi, 0x7fff_ffff) {
                Some(v) => Some(v as i32),
                None => None,
            }
        } else {
            match digits_at(s, lo + 1, hi, 0x8000_0000) {
                Some(v) => Some((0i64 - v as i64) as i32),
                None => None,
            }
        }
    } else {
        if lo == hi {
            return None;
        }
        match digits_at(s, lo, hi, 0x7fff_ffff) {
            Some(v) => Some(v as i32),
            None => None,
        }
    }
}

/// `s[lo..hi]` read as a `u32`, as `str::parse::<u32>` reads it.
pub fn parse_u32_at(s: &Vec<char>, lo: usize, hi: usize) -> (r: Option<u32>)
    requires
        lo <= hi <= s@.len(),
    ensures
        r == parse_u32_spec(s@.subrange(lo as int, hi as int)),
{
    let ghost t = s@.subrange(lo as int, hi as int);
    if lo < hi && s[lo] == '+' {
        assert(t.drop_first() =~= s@.subrange(lo + 1, hi as int));
        if lo + 1 == hi {
            return None;
        }
        match digits_at(s, lo + 1, hi, 0xffff_ffff) {
            Some(v) => Some(v as u32),
            None => None,
        }
    } else {
        if lo == hi {
            return None;
        }
        match digits_at(s, lo, hi, 0xffff_ffff) {
            Some(v) => Some(v as u32),
            None => None,
        }
    }
}

/// The one-character text of the digit `d`.
fn digit_str(d: u64) -> (t: &'static str)
    requires
        d < 10,
    ensures
        t@ == seq![digit_char(d as nat)],
{
    if d == 0 {
        proof {
            reveal_strlit("0");
        }
        "0"
    } else if d == 1 {
        proof {
            reveal_strlit("1");
        }
        "1"
    } else if d == 2 {
        proof {
            reveal_strlit("2");
        }
        "2"
    } else if d == 3 {
        proof {
            reveal_strlit("3");
        }
        "3"
    } else if d == 4 {
        proof {
            reveal_strlit("4");
        }
        "4"
    } else if d == 5 {
        proof {
            reveal_strlit("5");
        }
        "5"
    } else if d == 6 {
        proof {
            reveal_strlit("6");
        }
        "6"
    } else if d == 7 {
        proof {
            reveal_strlit("7");
        }
        "7"
    } else if d == 8 {
        proof {
            reveal_strlit("8");
        }
        "8"
    } else {
        proof {
            reveal_strlit("9");
        }
        "9"
    }
}

/// Appends the decimal digits of `n`.
fn push_decimal(out: &mut String, n: u64)
    ensures
        final(out)@ == old(out)@ + decimal_digits(n as nat),
    decreases n,
{
    if n >= 10 {
        push_decimal(out, n / 10);
    }
    out.append(digit_str(n % 10));
    assert(out@ =~= old(out)@ + decimal_digits(n as nat));
}

/// Appends `x` as `Display` writes it.
pub fn push_i32(out: &mut String, x: i32)
    ensures
        final(out)@ == old(out)@ + i32_text(x),
{
    if x < 0 {
        proof {
            reveal_strlit("-");
        }
        out.append("-");
        push_decimal(out, (0i64 - x as i64) as u64);
        assert(out@ =~= old(out)@ + i32_text(x));
    } else {
        push_decimal(out, x as u64);
    }
}

/// Appends `x` as `Display` writes it.
pub fn push_u32(out: &mut String, x: u32)
    ensures
        final(out)@ == old(out)@ + u32_text(x),
{
    push_decimal(out, x as u64);
}

} // verus!
