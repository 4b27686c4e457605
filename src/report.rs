//! One report line per hop: `<ttl> <responder> <status> <ms.xxx> ms`.

use vstd::prelude::*;
use vstd::string::StringExecFns;
use crate::status::HopStatus;
use crate::sweep::HopResult;

verus! {

/// The decimal digit `d` as a character.
pub open spec fn digit_char(d: int) -> char {
    ('0' as int + d) as char
}

/// The decimal digits of `n`, most significant first, without leading zeros.
pub open spec fn decimal(n: nat) -> Seq<char>
    decreases n,
{
    if n < 10 {
        seq![digit_char(n as int)]
    } else {
        decimal(n / 10) + seq![digit_char((n % 10) as int)]
    }
}

/// The name of a status as it is reported.
pub open spec fn status_name(s: HopStatus) -> Seq<char> {
    match s {
        HopStatus::InProgress => "InProgress"@,
        HopStatus::Reached => "Reached"@,
        HopStatus::Unreachable => "Unreachable"@,
        HopStatus::Failed => "Failed"@,
    }
}

/// A responder as it is reported: its address, or `*` where none is known.
pub open spec fn responder_text(r: Option<String>) -> Seq<char> {
    match r {
        Some(a) => a@,
        None => "*"@,
    }
}

/// Microseconds as milliseconds with exactly three decimals.
pub open spec fn millis_text(us: nat) -> Seq<char> {
    decimal(us / 1000) + seq!['.'] + decimal((us / 100) % 10) + decimal((us / 10) % 10)
        + decimal(us % 10)
}

/// The report line of a hop result.
pub open spec fn report_line(h: HopResult) -> Seq<char> {
    decimal(h.ttl as nat) + " "@ + responder_text(h.responder) + " "@ + status_name(h.status) + " "@
        + millis_text(h.elapsed_us as nat) + " ms"@
}

fn digit_str(d: u64) -> (r: &'static str)
    requires
        d < 10,
    ensures
        r@ == seq![digit_char(d as int)],
{
    proof {
        reveal_strlit("0");
        reveal_strlit("1");
        reveal_strlit("2");
        reveal_strlit("3");
        reveal_strlit("4");
        reveal_strlit("5");
        reveal_strlit("6");
        reveal_strlit("7");
        reveal_strlit("8");
        reveal_strlit("9");
    }
    match d {
        0 => "0",
        1 => "1",
        2 => "2",
        3 => "3",
        4 => "4",
        5 => "5",
        6 => "6",
        7 => "7",
        8 => "8",
        _ => "9",
    }
}

fn push_decimal(s: &mut String, n: u64)
    ensures
        final(s)@ == old(s)@ + decimal(n as nat),
    decreases n,
{
    if n >= 10 {
        push_decimal(s, n / 10);
    }
    s.append(digit_str(n % 10));
    assert(final(s)@ =~= old(s)@ + decimal(n as nat));
}

fn status_str(st: HopStatus) -> (r: &'static str)
    ensures
        r@ == status_name(st),
{
    proof {
        reveal_strlit("InProgress");
        reveal_strlit("Reached");
        reveal_strlit("Unreachable");
        reveal_strlit("Failed");
    }
    match st {
        HopStatus::InProgress => "InProgress",
        HopStatus::Reached => "Reached",
        HopStatus::Unreachable => "Unreachable",
        HopStatus::Failed => "Failed",
    }
}

impl HopResult {
    /// Renders the report line of this result.
    pub fn render(&self) -> (r: String)
        ensures
            r@ == report_line(*self),
    {
        proof {
            reveal_strlit(" ");
            reveal_strlit("*");
            reveal_strlit(".");
            reveal_strlit(" ms");
        }
        let mut s = String::new();
        push_decimal(&mut s, self.ttl as u64);
        s.append(" ");
        match &self.responder {
            Some(a) => s.append(a.as_str()),
            None => s.append("*"),
        }
        s.append(" ");
        s.append(status_str(self.status));
        s.append(" ");
        let us = self.elapsed_us;
        push_decimal(&mut s, us / 1000);
        s.append(".");
        push_decimal(&mut s, (us / 100) % 10);
        push_decimal(&mut s, (us / 10) % 10);
        push_decimal(&mut s, us % 10);
        s.append(" ms");
        assert(s@ =~= report_line(*self));
        s
    }
}

} // verus!
