use vstd::prelude::*;

verus! {

/// The smallest and largest values of a 32-bit signed integer.
pub open spec fn i32_min() -> int {
    -0x8000_0000
}

pub open spec fn i32_max() -> int {
    0x7fff_ffff
}

pub open spec fn is_digit(c: char) -> bool {
    '0' <= c && c <= '9'
}

pub open spec fn digit_value(c: char) -> nat {
    (c as nat - '0' as nat) as nat
}

pub open spec fn all_digits(s: Seq<char>) -> bool {
    forall|i: int| 0 <= i < s.len() ==> is_digit(#[trigger] s[i])
}

/// The value of a sequence of decimal digits, most significant first.
pub open spec fn digits_value(s: Seq<char>) -> nat
    decreases s.len(),
{
    if s.len() == 0 {
        0
    } else {
        digits_value(s.drop_last()) * 10 + digit_value(s.last())
    }
}

/// The digits that follow an optional leading sign.
pub open spec fn unsigned_part(s: Seq<char>) -> Seq<char> {
    if s.len() > 0 && (s[0] == '-' || s[0] == '+') {
        s.drop_first()
    } else {
        s
    }
}

pub open spec fn is_negative(s: Seq<char>) -> bool {
    s.len() > 0 && s[0] == '-'
}

/// A text read as a 32-bit signed decimal integer: an optional sign, then
/// one or more ASCII digits, the value within the range of `i32`.
pub open spec fn parsed_int(s: Seq<char>) -> Option<int> {
    let d = unsigned_part(s);
    let v: int = if is_negative(s) { -digits_value(d) } else { digits_value(d) as int };
    if d.len() > 0 && all_digits(d) && i32_min() <= v <= i32_max() {
        Some(v)
    } else {
        None
    }
}

/// The decimal digit for a value below ten.
pub open spec fn digit_char(n: nat) -> char {
    if n == 0 { '0' }
    else if n == 1 { '1' }
    else if n == 2 { '2' }
    else if n == 3 { '3' }
    else if n == 4 { '4' }
    else if n == 5 { '5' }
    else if n == 6 { '6' }
    else if n == 7 { '7' }
    else if n == 8 { '8' }
    else { '9' }
}

/// The canonical decimal text of a natural number: no sign, no leading zero.
pub open spec fn decimal_digits(n: nat) -> Seq<char>
    decreases n,
{
    if n < 10 {
        seq![digit_char(n)]
    } else {
        decimal_digits(n / 10).push(digit_char(n % 10))
    }
}

proof fn lemma_digits_value_grows(s: Seq<char>, k: int)
    requires
        all_digits(s),
        0 <= k <= s.len(),
    ensures
        digits_value(s.subrange(0, k)) <= digits_value(s),
    decreases s.len() - k,
{
    if k < s.len() {
        lemma_digits_value_grows(s, k + 1);
        let p = s.subrange(0, k + 1);
        assert(p.drop_last() =~= s.subrange(0, k));
    } else {
        assert(s.subrange(0, k) =~= s);
    }
}

/// Reads `s` as `str::parse::<i32>` does: `None` on a text that is no
/// decimal integer and on a value out of the range of `i32`.
pub fn parse_i32(s: &str) -> (r: Option<i32>)
    ensures
        match parsed_int(s@) {
            Some(v) => r == Some(v as i32),
            None => r is None,
        },
{
    let n = s.unicode_len();
    let ghost t = s@;
    if n == 0 {
        return None;
    }
    let first = s.get_char(0);
    let negative = first == '-';
    let start: usize = if first == '-' || first == '+' { 1 } else { 0 };
    let ghost d = unsigned_part(t);
    assert(d =~= t.subrange(start as int, n as int));
    if start == n {
        return None;
    }
    let limit: u64 = if negative { 0x8000_0000 } else { 0x7fff_ffff };
    let mut acc: u64 = 0;
    let mut i: usize = start;
    while i < n
        invariant
            t == s@,
            n == t.len(),
            start <= i <= n,
            d =~= t.subrange(start as int, n as int),
            all_digits(t.subrange(start as int, i as int)),
            acc == digits_value(t.subrange(start as int, i as int)),
            acc <= limit,
            limit == (if negative { 0x8000_0000u64 } else { 0x7fff_ffffu64 }),
            negative == is_negative(t),
            d == unsigned_part(t),
        decreases n - i,
    {
        let c = s.get_char(i);
        if !('0' <= c && c <= '9') {
            assert(d[i - start] == c);
            return None;
        }
        let ghost prev = t.subrange(start as int, i as int);
        let ghost next = t.subrange(start as int, i + 1);
        assert(next.drop_last() =~= prev);
        assert(next.last() == c);
        let dv: u64 = (c as u32 - '0' as u32) as u64;
        acc = acc * 10 + dv;
        i = i + 1;
        if acc > limit {
            proof {
                let rest = t.subrange(start as int, n as int);
                if all_digits(rest) {
                    assert(rest.subrange(0, i - start) =~= next);
                    lemma_digits_value_grows(rest, i - start);
                    assert(digits_value(d) > limit);
                }
            }
            return None;
        }
    }
    assert(t.subrange(start as int, i as int) =~= d);
    if negative {
        Some((0 - acc as i64) as i32)
    } else {
        Some(acc as i32)
    }
}

/// A digit's text for a value below ten.
fn digit_text(n: u32) -> (r: &'static str)
    requires
        n < 10,
    ensures
        r@ == seq![digit_char(n as nat)],
{
    proof {
        reveal_strlit("0");
        reveal_strlit("1");
        reveal_strlit("2");
        reveal_strlit("3");
        reveal_strlit("4");
        reveal_strlit("5");
        reveal_strlit("6");
        reveal_strlit("7");
        reveal_strlit("8");
        reveal_strlit("9");
    }
    match n {
        0 => "0",
        1 => "1",
        2 => "2",
        3 => "3",
        4 => "4",
        5 => "5",
        6 => "6",
        7 => "7",
        8 => "8",
        _ => "9",
    }
}

/// The canonical decimal text of a number below one thousand.
pub fn decimal_text(n: u32) -> (r: String)
    requires
        n < 1000,
    ensures
        r@ == decimal_digits(n as nat),
{
    let mut r = String::new();
    if n >= 100 {
        r.append(digit_text(n / 100));
    }
    if n >= 10 {
        r.append(digit_text((n / 10) % 10));
    }
    r.append(digit_text(n % 10));
    proof {
        let m = n as nat;
        if m >= 100 {
            assert(decimal_digits(m / 100) == seq![digit_char(m / 100)]);
            assert((m / 10) / 10 == m / 100);
            assert(decimal_digits(m / 10) == decimal_digits(m / 100).push(digit_char((m / 10) % 10)));
            assert(r@ =~= decimal_digits(m));
        } else if m >= 10 {
            assert(decimal_digits(m / 10) == seq![digit_char(m / 10)]);
            assert(r@ =~= decimal_digits(m));
        } else {
            assert(r@ =~= decimal_digits(m));
        }
    }
    r
}

} // verus!
