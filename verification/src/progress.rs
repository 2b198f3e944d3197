//! Progress telemetry: the JSON event payload that a progress observer
//! emits to its client each time it reads the shared byte count.

use vstd::prelude::*;
use vstd::string::StringExecFns;

verus! {

/// The decimal digit character for a value below ten.
pub open spec fn digit_char(d: int) -> char {
    seq!['0', '1', '2', '3', '4', '5', '6', '7', '8', '9'][d]
}

/// Decimal rendering of a non-negative number, most significant digit
/// first, without leading zeros; zero renders as a single digit.
pub open spec fn spec_decimal(n: int) -> Seq<char>
    decreases n,
{
    if n < 10 {
        seq![digit_char(n)]
    } else {
        spec_decimal(n / 10).push(digit_char(n % 10))
    }
}

fn append_digit(s: &mut String, d: u64)
    requires
        d < 10,
    ensures
        final(s)@ == old(s)@.push(digit_char(d as int)),
{
    match d {
        0 => s.append("0"),
        1 => s.append("1"),
        2 => s.append("2"),
        3 => s.append("3"),
        4 => s.append("4"),
        5 => s.append("5"),
        6 => s.append("6"),
        7 => s.append("7"),
        8 => s.append("8"),
        _ => s.append("9"),
    }
    proof {
        reveal_strlit("0");
        reveal_strlit("1");
        reveal_strlit("2");
        reveal_strlit("3");
        reveal_strlit("4");
        reveal_strlit("5");
        reveal_strlit("6");
        reveal_strlit("7");
        reveal_strlit("8");
        reveal_strlit("9");
        assert(final(s)@ =~= old(s)@.push(digit_char(d as int)));
    }
}

/// Render a byte count in decimal.
pub fn decimal_string(n: u64) -> (s: String)
    ensures
        s@ == spec_decimal(n as int),
    decreases n,
{
    if n < 10 {
        let mut s = String::new();
        append_digit(&mut s, n);
        proof {
            assert(s@ =~= seq![digit_char(n as int)]);
        }
        s
    } else {
        let mut s = decimal_string(n / 10);
        append_digit(&mut s, n % 10);
        s
    }
}

/// The JSON payload of one progress event: the bytes processed so far by
/// the current or most recent ingestion.
pub open spec fn spec_progress_event(n: int) -> Seq<char> {
    "{\"processed_bytes\":"@ + spec_decimal(n) + "}"@
}

/// Render the progress event payload for an observed byte count.
pub fn progress_event(n: u64) -> (s: String)
    ensures
        s@ == spec_progress_event(n as int),
{
    let mut s = String::from_str("{\"processed_bytes\":");
    let digits = decimal_string(n);
    s.append(digits.as_str());
    s.append("}");
    s
}

} // verus!
