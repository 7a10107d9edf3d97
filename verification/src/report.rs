//! Human-facing report lines for the current resolver configuration.

use vstd::prelude::*;
use vstd::string::StringExecFns;

verus! {

/// The report lines for a configured state: a heading, then one bulleted
/// line per configured address, or a single line naming automatic (DHCP)
/// mode when none is configured.
pub open spec fn current_dns_report(state: Seq<Seq<char>>) -> Seq<Seq<char>> {
    if state.len() == 0 {
        seq!["Current DNS servers:"@, "  • Automatic (DHCP)"@]
    } else {
        seq!["Current DNS servers:"@] + Seq::new(state.len(), |i: int| "  • "@ + state[i])
    }
}

/// The character of one decimal digit.
pub open spec fn digit_char(d: nat) -> char {
    if d == 0 {
        '0'
    } else if d == 1 {
        '1'
    } else if d == 2 {
        '2'
    } else if d == 3 {
        '3'
    } else if d == 4 {
        '4'
    } else if d == 5 {
        '5'
    } else if d == 6 {
        '6'
    } else if d == 7 {
        '7'
    } else if d == 8 {
        '8'
    } else {
        '9'
    }
}

/// The decimal notation of `n`, most significant digit first, no leading
/// zeros (a single zero for zero).
pub open spec fn decimal_digits(n: nat) -> Seq<char>
    decreases n,
{
    if n < 10 {
        seq![digit_char(n)]
    } else {
        decimal_digits(n / 10).push(digit_char(n % 10))
    }
}

/// A latency in microseconds written as milliseconds with exactly two
/// decimals, e.g. 12345 microseconds as `12.34ms`.  The fraction truncates;
/// the unit is fixed at milliseconds.
pub open spec fn latency_text(micros: u64) -> Seq<char> {
    decimal_digits((micros / 1000) as nat) + seq!['.'] + seq![
        digit_char(((micros % 1000) / 100) as nat),
        digit_char((((micros % 1000) / 10) % 10) as nat),
    ] + "ms"@
}

/// One decimal digit as text.
fn digit_str(d: u64) -> (r: &'static str)
    requires
        d < 10,
    ensures
        r@ == seq![digit_char(d as nat)],
{
    proof {
        reveal_strlit("0");
        reveal_strlit("1");
        reveal_strlit("2");
        reveal_strlit("3");
        reveal_strlit("4");
        reveal_strlit("5");
        reveal_strlit("6");
        reveal_strlit("7");
        reveal_strlit("8");
        reveal_strlit("9");
    }
    let r = match d {
        0 => "0",
        1 => "1",
        2 => "2",
        3 => "3",
        4 => "4",
        5 => "5",
        6 => "6",
        7 => "7",
        8 => "8",
        _ => "9",
    };
    proof {
        assert(r@ =~= seq![digit_char(d as nat)]);
    }
    r
}

/// The decimal notation of `n`, computed.
pub fn u64_to_decimal(n: u64) -> (s: String)
    ensures
        s@ == decimal_digits(n as nat),
    decreases n,
{
    if n < 10 {
        String::from_str(digit_str(n))
    } else {
        let head = u64_to_decimal(n / 10);
        let s = head.concat(digit_str(n % 10));
        proof {
            assert(s@ =~= decimal_digits(n as nat));
        }
        s
    }
}

/// A latency in microseconds as milliseconds with two decimals.
pub fn format_latency_ms(micros: u64) -> (s: String)
    ensures
        s@ == latency_text(micros),
{
    let whole = u64_to_decimal(micros / 1000);
    let d1 = (micros % 1000) / 100;
    let d2 = ((micros % 1000) / 10) % 10;
    let s = whole.concat(".").concat(digit_str(d1)).concat(digit_str(d2)).concat("ms");
    proof {
        reveal_strlit(".");
        reveal_strlit("ms");
        assert(s@ =~= latency_text(micros));
    }
    s
}

/// Render the current resolver configuration as report lines.
pub fn print_current_dns(current: &Vec<String>) -> (lines: Vec<String>)
    ensures
        lines.deep_view() == current_dns_report(current.deep_view()),
{
    let mut lines: Vec<String> = Vec::new();
    lines.push(String::from_str("Current DNS servers:"));
    if current.len() == 0 {
        lines.push(String::from_str("  • Automatic (DHCP)"));
        proof {
            assert(lines.deep_view() =~= current_dns_report(current.deep_view()));
        }
    } else {
        let mut i: usize = 0;
        while i < current.len()
            invariant
                i <= current.len(),
                current@.len() > 0,
                lines@.len() == i + 1,
                lines@[0]@ == "Current DNS servers:"@,
                forall|j: int| 0 <= j < i ==> lines@[j + 1]@ == "  • "@ + current@[j]@,
            decreases current.len() - i,
        {
            let entry = String::from_str("  • ").concat(current[i].as_str());
            lines.push(entry);
            i += 1;
        }
        proof {
            assert(lines.deep_view() =~= current_dns_report(current.deep_view()));
        }
    }
    lines
}

} // verus!
