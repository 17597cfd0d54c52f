//! Small text builders: decimal numbers and the status lines the reader and
//! the task views show.

use vstd::prelude::*;

verus! {

/// The character of a decimal digit.
pub open spec fn digit_char(d: int) -> char {
    if d == 0 {
        '0'
    } else if d == 1 {
        '1'
    } else if d == 2 {
        '2'
    } else if d == 3 {
        '3'
    } else if d == 4 {
        '4'
    } else if d == 5 {
        '5'
    } else if d == 6 {
        '6'
    } else if d == 7 {
        '7'
    } else if d == 8 {
        '8'
    } else {
        '9'
    }
}

/// The decimal notation of `n`, without leading zeros.
pub open spec fn spec_decimal(n: nat) -> Seq<char>
    decreases n,
{
    if n < 10 {
        seq![digit_char(n as int)]
    } else {
        spec_decimal(n / 10).push(digit_char((n % 10) as int))
    }
}

fn digit_str(d: u64) -> (r: &'static str)
    requires
        d < 10,
    ensures
        r@ == seq![digit_char(d as int)],
{
    proof {
        reveal_strlit("0");
        reveal_strlit("1");
        reveal_strlit("2");
        reveal_strlit("3");
        reveal_strlit("4");
        reveal_strlit("5");
        reveal_strlit("6");
        reveal_strlit("7");
        reveal_strlit("8");
        reveal_strlit("9");
    }
    match d {
        0 => "0",
        1 => "1",
        2 => "2",
        3 => "3",
        4 => "4",
        5 => "5",
        6 => "6",
        7 => "7",
        8 => "8",
        _ => "9",
    }
}

/// The decimal notation of `n`.
pub fn decimal(n: u64) -> (r: String)
    ensures
        r@ == spec_decimal(n as nat),
    decreases n,
{
    if n < 10 {
        String::from_str(digit_str(n))
    } else {
        let mut s = decimal(n / 10);
        s.append(digit_str(n % 10));
        s
    }
}

/// The decimal notation of a count.
pub fn decimal_usize(n: usize) -> (r: String)
    ensures
        r@ == spec_decimal(n as nat),
{
    decimal(n as u64)
}

/// The reader's page counter: "Page 3 of 20", or "No pages".
pub open spec fn spec_page_subtitle(page: nat, page_count: nat) -> Seq<char> {
    if page_count == 0 {
        "No pages"@
    } else {
        "Page "@ + spec_decimal(page + 1) + " of "@ + spec_decimal(page_count)
    }
}

pub fn page_subtitle(page: usize, page_count: usize) -> (r: String)
    requires
        page < usize::MAX,
    ensures
        r@ == spec_page_subtitle(page as nat, page_count as nat),
{
    if page_count == 0 {
        return String::from_str("No pages");
    }
    let mut s = String::from_str("Page ");
    s.append(decimal_usize(page + 1).as_str());
    s.append(" of ");
    s.append(decimal_usize(page_count).as_str());
    s
}

} // verus!
