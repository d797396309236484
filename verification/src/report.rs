//! What is said of each entry: one line with its id, the address of its
//! image and the outcome of saving it.

use vstd::prelude::*;
use vstd::string::StringExecFns;
use crate::error::{SaveError, SaveErrorView};
use crate::feed::FeedEntry;
use crate::save::saved_view;

verus! {

/// The decimal digit `d`.
pub open spec fn digit_char(d: nat) -> char {
    if d == 0 {
        '0'
    } else if d == 1 {
        '1'
    } else if d == 2 {
        '2'
    } else if d == 3 {
        '3'
    } else if d == 4 {
        '4'
    } else if d == 5 {
        '5'
    } else if d == 6 {
        '6'
    } else if d == 7 {
        '7'
    } else if d == 8 {
        '8'
    } else {
        '9'
    }
}

/// `n` in decimal, without leading zeros.
pub open spec fn decimal(n: nat) -> Seq<char>
    decreases n,
{
    if n < 10 {
        seq![digit_char(n)]
    } else {
        decimal(n / 10).push(digit_char(n % 10))
    }
}

/// The text of one decimal digit.
fn digit_text(d: u64) -> (r: &'static str)
    requires
        d < 10,
    ensures
        r@ == seq![digit_char(d as nat)],
{
    proof {
        reveal_strlit("0");
        reveal_strlit("1");
        reveal_strlit("2");
        reveal_strlit("3");
        reveal_strlit("4");
        reveal_strlit("5");
        reveal_strlit("6");
        reveal_strlit("7");
        reveal_strlit("8");
        reveal_strlit("9");
    }
    let r = if d == 0 {
        "0"
    } else if d == 1 {
        "1"
    } else if d == 2 {
        "2"
    } else if d == 3 {
        "3"
    } else if d == 4 {
        "4"
    } else if d == 5 {
        "5"
    } else if d == 6 {
        "6"
    } else if d == 7 {
        "7"
    } else if d == 8 {
        "8"
    } else {
        "9"
    };
    assert(r@ =~= seq![digit_char(d as nat)]);
    r
}

/// Writes `n` in decimal.
pub fn decimal_text(n: u64) -> (r: String)
    ensures
        r@ == decimal(n as nat),
    decreases n,
{
    if n < 10 {
        String::from_str(digit_text(n))
    } else {
        let mut out = decimal_text(n / 10);
        out.append(digit_text(n % 10));
        assert(out@ =~= decimal((n / 10) as nat).push(digit_char((n % 10) as nat)));
        out
    }
}

/// What is said of an attempt to save an image: the bytes written, or the
/// failure by name and detail.
pub open spec fn outcome_text(outcome: Result<u64, SaveErrorView>) -> Seq<char> {
    match outcome {
        Ok(n) => "saved "@ + decimal(n as nat) + " bytes"@,
        Err(e) => e.text(),
    }
}

/// The line that reports one entry: its id (a dash where it has none), the
/// address of its image, and the outcome.
pub open spec fn report_of(
    id: Option<Seq<char>>,
    url: Seq<char>,
    outcome: Result<u64, SaveErrorView>,
) -> Seq<char> {
    let name = match id {
        Some(i) => i,
        None => "-"@,
    };
    name + ", "@ + url + ", "@ + outcome_text(outcome)
}

/// Writes the line that reports one entry.
pub fn report_line(entry: &FeedEntry, url: &str, outcome: &Result<u64, SaveError>) -> (r: String)
    ensures
        r@ == report_of(entry@.id, url@, saved_view(*outcome)),
{
    let mut out = match &entry.id {
        Some(id) => String::from_str(id.as_str()),
        None => String::from_str("-"),
    };
    out.append(", ");
    out.append(url);
    out.append(", ");
    let ghost head = out@;
    match outcome {
        Ok(n) => {
            out.append("saved ");
            let digits = decimal_text(*n);
            out.append(digits.as_str());
            out.append(" bytes");
            assert(out@ =~= head + ("saved "@ + decimal(*n as nat) + " bytes"@));
        },
        Err(e) => {
            let text = e.to_text();
            out.append(text.as_str());
        },
    }
    out
}

} // verus!
