use vstd::prelude::*;
use crate::error::{error_text, outcome_is, to_outcome, ModeError};

verus! {

pub open spec fn is_octal_digit(c: char) -> bool {
    '0' <= c && c <= '7'
}

/// An octal mode: three digits '0'..='7' (owner, group, other).
pub open spec fn is_octal_mode(s: Seq<char>) -> bool {
    s.len() == 3 && forall|i: int| 0 <= i < 3 ==> is_octal_digit(#[trigger] s[i])
}

/// The triplet of an octal digit: bit 2 reads, bit 1 writes, bit 0 executes.
pub open spec fn triplet_of(d: char) -> Seq<char> {
    if d == '7' { seq!['r', 'w', 'x'] }
    else if d == '6' { seq!['r', 'w', '-'] }
    else if d == '5' { seq!['r', '-', 'x'] }
    else if d == '4' { seq!['r', '-', '-'] }
    else if d == '3' { seq!['-', 'w', 'x'] }
    else if d == '2' { seq!['-', 'w', '-'] }
    else if d == '1' { seq!['-', '-', 'x'] }
    else { seq!['-', '-', '-'] }
}

/// The octal digit of a triplet, if it is one of the eight permission triplets.
pub open spec fn digit_of_triplet(g: Seq<char>) -> Option<char> {
    if g == seq!['r', 'w', 'x'] { Some('7') }
    else if g == seq!['r', 'w', '-'] { Some('6') }
    else if g == seq!['r', '-', 'x'] { Some('5') }
    else if g == seq!['r', '-', '-'] { Some('4') }
    else if g == seq!['-', 'w', 'x'] { Some('3') }
    else if g == seq!['-', 'w', '-'] { Some('2') }
    else if g == seq!['-', '-', 'x'] { Some('1') }
    else if g == seq!['-', '-', '-'] { Some('0') }
    else { None }
}

/// The `k`-th group of three characters of a symbolic mode.
pub open spec fn group(s: Seq<char>, k: int) -> Seq<char> {
    s.subrange(3 * k, 3 * k + 3)
}

/// A symbolic mode: nine characters, each group of three a permission triplet.
pub open spec fn is_symbolic_mode(s: Seq<char>) -> bool {
    s.len() == 9 && forall|k: int| 0 <= k < 3 ==> #[trigger] digit_of_triplet(group(s, k)) is Some
}

/// The symbolic text of a three-character octal mode.
pub open spec fn symbolic_of(o: Seq<char>) -> Seq<char> {
    triplet_of(o[0]) + triplet_of(o[1]) + triplet_of(o[2])
}

/// The octal text of a nine-character symbolic mode.
pub open spec fn octal_of(s: Seq<char>) -> Seq<char> {
    seq![
        digit_of_triplet(group(s, 0))->0,
        digit_of_triplet(group(s, 1))->0,
        digit_of_triplet(group(s, 2))->0,
    ]
}

/// Octal to symbolic: a length other than three is an invalid value, a
/// character outside '0'..='7' an invalid character.
pub open spec fn octal_to_symbolic_outcome(o: Seq<char>) -> Result<Seq<char>, ModeError> {
    if o.len() != 3 {
        Err(ModeError::InvalidValue)
    } else if !is_octal_mode(o) {
        Err(ModeError::InvalidCharacter)
    } else {
        Ok(symbolic_of(o))
    }
}

/// Symbolic to octal: a length other than nine is an invalid value, a group
/// that is no permission triplet gives invalid characters.
pub open spec fn symbolic_to_octal_outcome(s: Seq<char>) -> Result<Seq<char>, ModeError> {
    if s.len() != 9 {
        Err(ModeError::InvalidValue)
    } else if !is_symbolic_mode(s) {
        Err(ModeError::InvalidCharacters)
    } else {
        Ok(octal_of(s))
    }
}

/// The triplet text of an octal digit, or `None` for another character.
fn digit_triplet(c: char) -> (r: Option<&'static str>)
    ensures
        is_octal_digit(c) ==> r is Some && r->0@ == triplet_of(c),
        !is_octal_digit(c) ==> r is None,
{
    proof {
        reveal_strlit("rwx");
        reveal_strlit("rw-");
        reveal_strlit("r-x");
        reveal_strlit("r--");
        reveal_strlit("-wx");
        reveal_strlit("-w-");
        reveal_strlit("--x");
        reveal_strlit("---");
    }
    match c {
        '7' => Some("rwx"),
        '6' => Some("rw-"),
        '5' => Some("r-x"),
        '4' => Some("r--"),
        '3' => Some("-wx"),
        '2' => Some("-w-"),
        '1' => Some("--x"),
        '0' => Some("---"),
        _ => None,
    }
}

/// The digit text of a triplet, or `None` where it is no permission triplet.
fn triplet_digit(a: char, b: char, c: char) -> (r: Option<&'static str>)
    ensures
        match digit_of_triplet(seq![a, b, c]) {
            Some(d) => r is Some && r->0@ == seq![d],
            None => r is None,
        },
{
    proof {
        reveal_strlit("7");
        reveal_strlit("6");
        reveal_strlit("5");
        reveal_strlit("4");
        reveal_strlit("3");
        reveal_strlit("2");
        reveal_strlit("1");
        reveal_strlit("0");
    }
    let ghost g = seq![a, b, c];
    assert(g[0] == a && g[1] == b && g[2] == c);
    match (a, b, c) {
        ('r', 'w', 'x') => Some("7"),
        ('r', 'w', '-') => Some("6"),
        ('r', '-', 'x') => Some("5"),
        ('r', '-', '-') => Some("4"),
        ('-', 'w', 'x') => Some("3"),
        ('-', 'w', '-') => Some("2"),
        ('-', '-', 'x') => Some("1"),
        ('-', '-', '-') => Some("0"),
        _ => None,
    }
}

fn octal_to_symbolic(input: &str) -> (r: Result<String, ModeError>)
    ensures
        match octal_to_symbolic_outcome(input@) {
            Ok(s) => r is Ok && r->Ok_0@ == s,
            Err(e) => r == Err::<String, ModeError>(e),
        },
{
    if input.unicode_len() != 3 {
        return Err(ModeError::InvalidValue);
    }
    let ghost o = input@;
    let mut out = String::new();
    let mut i: usize = 0;
    while i < 3
        invariant
            o == input@,
            o.len() == 3,
            0 <= i <= 3,
            forall|j: int| 0 <= j < i ==> is_octal_digit(#[trigger] o[j]),
            out@ == (if i == 0 { Seq::<char>::empty() }
                else if i == 1 { triplet_of(o[0]) }
                else if i == 2 { triplet_of(o[0]) + triplet_of(o[1]) }
                else { symbolic_of(o) }),
        decreases 3 - i,
    {
        let c = input.get_char(i);
        match digit_triplet(c) {
            Some(t) => {
                out.append(t);
            },
            None => {
                return Err(ModeError::InvalidCharacter);
            },
        }
        i = i + 1;
        proof {
            if i == 1 {
                assert(out@ =~= triplet_of(o[0]));
            }
        }
    }
    Ok(out)
}

/// Converts a three-digit octal mode to its symbolic text.
pub fn octal_string_to_rwx_string(input: String) -> (r: Result<String, &'static str>)
    ensures
        outcome_is(r, octal_to_symbolic_outcome(input@)),
{
    to_outcome(octal_to_symbolic(input.as_str()))
}

fn symbolic_to_octal(input: &str) -> (r: Result<String, ModeError>)
    ensures
        match symbolic_to_octal_outcome(input@) {
            Ok(s) => r is Ok && r->Ok_0@ == s,
            Err(e) => r == Err::<String, ModeError>(e),
        },
{
    if input.unicode_len() != 9 {
        return Err(ModeError::InvalidValue);
    }
    let ghost s = input@;
    let mut out = String::new();
    let mut k: usize = 0;
    while k < 3
        invariant
            s == input@,
            s.len() == 9,
            0 <= k <= 3,
            forall|j: int| 0 <= j < k ==> #[trigger] digit_of_triplet(group(s, j)) is Some,
            out@ == octal_of(s).subrange(0, k as int),
        decreases 3 - k,
    {
        let a = input.get_char(3 * k);
        let b = input.get_char(3 * k + 1);
        let c = input.get_char(3 * k + 2);
        assert(group(s, k as int) =~= seq![a, b, c]);
        match triplet_digit(a, b, c) {
            Some(d) => {
                out.append(d);
            },
            None => {
                return Err(ModeError::InvalidCharacters);
            },
        }
        k = k + 1;
        assert(out@ =~= octal_of(s).subrange(0, k as int));
    }
    assert(octal_of(s).subrange(0, 3) =~= octal_of(s));
    Ok(out)
}

/// Converts a nine-character symbolic mode to its three-digit octal text.
pub fn rwx_string_to_octal_string(input: String) -> (r: Result<String, &'static str>)
    ensures
        outcome_is(r, symbolic_to_octal_outcome(input@)),
{
    to_outcome(symbolic_to_octal(input.as_str()))
}

proof fn lemma_digit_triplet_inverse(d: char)
    requires
        is_octal_digit(d),
    ensures
        digit_of_triplet(triplet_of(d)) == Some(d),
{
}

proof fn lemma_triplet_digit_inverse(g: Seq<char>)
    requires
        digit_of_triplet(g) is Some,
    ensures
        triplet_of(digit_of_triplet(g)->0) == g,
        is_octal_digit(digit_of_triplet(g)->0),
{
}

/// Converting a valid octal mode to symbolic text never fails, and
/// converting that text back gives the octal mode again.
pub proof fn lemma_octal_round_trip(o: Seq<char>)
    requires
        is_octal_mode(o),
    ensures
        octal_to_symbolic_outcome(o) == Ok::<Seq<char>, ModeError>(symbolic_of(o)),
        symbolic_to_octal_outcome(symbolic_of(o)) == Ok::<Seq<char>, ModeError>(o),
{
    let s = symbolic_of(o);
    assert forall|k: int| 0 <= k < 3 implies group(s, k) == triplet_of(o[k]) by {
        assert(group(s, k) =~= triplet_of(o[k]));
    }
    assert forall|k: int| 0 <= k < 3 implies #[trigger] digit_of_triplet(group(s, k)) == Some(o[k]) by {
        assert(is_octal_digit(o[k]));
        lemma_digit_triplet_inverse(o[k]);
    }
    assert(octal_of(s) =~= o);
}

/// Converting a valid symbolic mode to octal text never fails, and
/// converting that text back gives the symbolic mode again.
pub proof fn lemma_symbolic_round_trip(s: Seq<char>)
    requires
        is_symbolic_mode(s),
    ensures
        symbolic_to_octal_outcome(s) == Ok::<Seq<char>, ModeError>(octal_of(s)),
        octal_to_symbolic_outcome(octal_of(s)) == Ok::<Seq<char>, ModeError>(s),
{
    let o = octal_of(s);
    assert forall|k: int| 0 <= k < 3 implies triplet_of(#[trigger] o[k]) == group(s, k) && is_octal_digit(o[k]) by {
        assert(digit_of_triplet(group(s, k)) is Some);
        lemma_triplet_digit_inverse(group(s, k));
    }
    assert(triplet_of(o[0]) == group(s, 0));
    assert(triplet_of(o[1]) == group(s, 1));
    assert(triplet_of(o[2]) == group(s, 2));
    assert(symbolic_of(o) =~= s);
}

/// Each of the 8 * 8 * 8 octal modes converts to symbolic text, and back
/// to the same three digits.
pub proof fn lemma_every_octal_mode_converts(owner: char, grp: char, other: char)
    requires
        is_octal_digit(owner),
        is_octal_digit(grp),
        is_octal_digit(other),
    ensures
        octal_to_symbolic_outcome(seq![owner, grp, other]) is Ok,
        symbolic_to_octal_outcome(octal_to_symbolic_outcome(seq![owner, grp, other])->Ok_0)
            == Ok::<Seq<char>, ModeError>(seq![owner, grp, other]),
{
    let o = seq![owner, grp, other];
    assert(o[0] == owner && o[1] == grp && o[2] == other);
    lemma_octal_round_trip(o);
}

} // verus!
