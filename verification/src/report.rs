//! Rendering the final report: one line per open port in ascending order,
//! or a single line saying that no port was open.

use vstd::prelude::*;
use vstd::string::StringExecFns;
use crate::collect::{sort_ports, sorted_of};

verus! {

/// The decimal digit character for `d`.
pub open spec fn spec_digit(d: int) -> char {
    if d == 0 {
        '0'
    } else if d == 1 {
        '1'
    } else if d == 2 {
        '2'
    } else if d == 3 {
        '3'
    } else if d == 4 {
        '4'
    } else if d == 5 {
        '5'
    } else if d == 6 {
        '6'
    } else if d == 7 {
        '7'
    } else if d == 8 {
        '8'
    } else {
        '9'
    }
}

/// The decimal text of `n`: most significant digit first, no leading zeros
/// (a single `'0'` for 0).
pub open spec fn spec_decimal(n: int) -> Seq<char>
    recommends
        n >= 0,
    decreases n,
{
    if n < 10 {
        seq![spec_digit(n)]
    } else {
        spec_decimal(n / 10).push(spec_digit(n % 10))
    }
}

/// One report line for an open port: `"<port> is Open"`.
pub open spec fn line_of(p: u16) -> Seq<char> {
    spec_decimal(p as int) + " is Open"@
}

/// The report when no port is open.
pub open spec fn no_open_ports_line() -> Seq<char> {
    "No open ports found"@
}

/// The one-character string for a decimal digit.
fn digit_str(d: u16) -> (s: &'static str)
    requires
        d < 10,
    ensures
        s@ == seq![spec_digit(d as int)],
{
    let s: &'static str = if d == 0 {
        "0"
    } else if d == 1 {
        "1"
    } else if d == 2 {
        "2"
    } else if d == 3 {
        "3"
    } else if d == 4 {
        "4"
    } else if d == 5 {
        "5"
    } else if d == 6 {
        "6"
    } else if d == 7 {
        "7"
    } else if d == 8 {
        "8"
    } else {
        "9"
    };
    proof {
        reveal_strlit("0");
        reveal_strlit("1");
        reveal_strlit("2");
        reveal_strlit("3");
        reveal_strlit("4");
        reveal_strlit("5");
        reveal_strlit("6");
        reveal_strlit("7");
        reveal_strlit("8");
        reveal_strlit("9");
        assert(s@ =~= seq![spec_digit(d as int)]);
    }
    s
}

/// The decimal text of a port number.
pub fn u16_to_string(n: u16) -> (s: String)
    ensures
        s@ == spec_decimal(n as int),
    decreases n,
{
    if n < 10 {
        String::from_str(digit_str(n))
    } else {
        let mut s = u16_to_string(n / 10);
        s.append(digit_str(n % 10));
        proof {
            assert(s@ =~= spec_decimal(n as int));
        }
        s
    }
}

/// The line reporting `p` as open.
pub fn report_line(p: u16) -> (s: String)
    ensures
        s@ == line_of(p),
{
    let s = u16_to_string(p);
    s.concat(" is Open")
}

/// The line reporting that no port was open.
pub fn no_open_ports_report() -> (s: String)
    ensures
        s@ == no_open_ports_line(),
{
    String::from_str("No open ports found")
}

/// Render a sorted result: one line `"<port> is Open"` per entry, or the
/// single line `"No open ports found"` when the result is empty.
pub fn render_report(ports: &Vec<u16>) -> (lines: Vec<String>)
    ensures
        ports@.len() == 0 ==> lines@.len() == 1 && lines@[0]@ == no_open_ports_line(),
        ports@.len() > 0 ==> lines@.len() == ports@.len() && forall|i: int|
            0 <= i < lines@.len() ==> #[trigger] lines@[i]@ == line_of(ports@[i]),
{
    let mut lines: Vec<String> = Vec::new();
    if ports.len() == 0 {
        lines.push(no_open_ports_report());
        return lines;
    }
    let mut i: usize = 0;
    while i < ports.len()
        invariant
            i <= ports@.len(),
            lines@.len() == i,
            forall|k: int| 0 <= k < i ==> #[trigger] lines@[k]@ == line_of(ports@[k]),
        decreases ports@.len() - i,
    {
        lines.push(report_line(ports[i]));
        i = i + 1;
    }
    lines
}

/// The whole collector: sort the reported ports ascending and render the
/// report. The lines are fixed by the multiset of reports alone — the order
/// in which the probe attempts reported cannot leak into them.
pub fn scan_report(reports: Vec<u16>) -> (lines: Vec<String>)
    ensures
        reports@.len() == 0 ==> lines@.len() == 1 && lines@[0]@ == no_open_ports_line(),
        reports@.len() > 0 ==> lines@.len() == reports@.len() && forall|i: int|
            0 <= i < lines@.len() ==> #[trigger] lines@[i]@ == line_of(sorted_of(reports@)[i]),
{
    let sorted = sort_ports(reports);
    render_report(&sorted)
}

} // verus!
