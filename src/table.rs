use vstd::prelude::*;
use crate::error::{outcome_is, to_outcome, ModeError};

verus! {

/// The table's marker for one character: 'x' for any of 'r', 'w', 'x',
/// a space for anything else.
pub open spec fn mark(c: char) -> char {
    if c == 'r' || c == 'w' || c == 'x' {
        'x'
    } else {
        ' '
    }
}

/// One row of the table: a label, then the markers of one permission kind
/// (0 read, 1 write, 2 execute) for owner, group and other.
pub open spec fn table_row(label: Seq<char>, s: Seq<char>, kind: int) -> Seq<char> {
    label + seq![mark(s[kind])] + "      "@ + seq![mark(s[3 + kind])] + "     "@
        + seq![mark(s[6 + kind])] + "\n"@
}

/// The table of the first nine characters of a symbolic text: a header,
/// then one row per permission kind, one column per subject.
pub open spec fn table_of(s: Seq<char>) -> Seq<char> {
    "        Owner  Group Other\n"@ + table_row("Read    "@, s, 0) + table_row("Write   "@, s, 1)
        + table_row("Execute "@, s, 2)
}

/// The table, or an error where fewer than nine characters are given.
pub open spec fn table_outcome(s: Seq<char>) -> Result<Seq<char>, ModeError> {
    if s.len() >= 9 {
        Ok(table_of(s))
    } else {
        Err(ModeError::NotEnoughCharacters)
    }
}

fn mark_text(c: char) -> (r: &'static str)
    ensures
        r@ == seq![mark(c)],
{
    proof {
        reveal_strlit("x");
        reveal_strlit(" ");
    }
    if c == 'r' || c == 'w' || c == 'x' {
        "x"
    } else {
        " "
    }
}

fn push_row(out: &mut String, label: &str, s: &str, kind: usize)
    requires
        kind < 3,
        s@.len() >= 9,
    ensures
        final(out)@ == old(out)@ + table_row(label@, s@, kind as int),
{
    let ghost start = out@;
    out.append(label);
    out.append(mark_text(s.get_char(kind)));
    out.append("      ");
    out.append(mark_text(s.get_char(3 + kind)));
    out.append("     ");
    out.append(mark_text(s.get_char(6 + kind)));
    out.append("\n");
    assert(out@ =~= start + table_row(label@, s@, kind as int));
}

fn symbolic_table(input: &str) -> (r: Result<String, ModeError>)
    ensures
        match table_outcome(input@) {
            Ok(t) => r is Ok && r->Ok_0@ == t,
            Err(e) => r == Err::<String, ModeError>(e),
        },
{
    if input.unicode_len() < 9 {
        return Err(ModeError::NotEnoughCharacters);
    }
    let mut out = String::new();
    out.append("        Owner  Group Other\n");
    push_row(&mut out, "Read    ", input, 0);
    push_row(&mut out, "Write   ", input, 1);
    push_row(&mut out, "Execute ", input, 2);
    assert(out@ =~= table_of(input@));
    Ok(out)
}

/// Renders a symbolic mode as a table of markers. Only the first nine
/// characters are read; fewer than nine give an error.
pub fn rwx_string_to_table(input: String) -> (r: Result<String, &'static str>)
    ensures
        outcome_is(r, table_outcome(input@)),
{
    to_outcome(symbolic_table(input.as_str()))
}

} // verus!
