//! Timestamps of records and folder names, from the fields of a local time.
use vstd::prelude::*;
use crate::text::{decimal, push_decimal, push_two_digits, string_of, two_digits};

verus! {

/// A broken-down local time.
#[derive(Clone, Copy, Debug, PartialEq, Eq, Structural)]
pub struct LocalTime {
    pub year: u32,
    pub month: u8,
    pub day: u8,
    pub hour: u8,
    pub minute: u8,
    pub second: u8,
}

/// The year in at least four digits.
pub open spec fn year_digits(y: nat) -> Seq<char> {
    if y < 10 {
        "000"@ + decimal(y)
    } else if y < 100 {
        "00"@ + decimal(y)
    } else if y < 1000 {
        "0"@ + decimal(y)
    } else {
        decimal(y)
    }
}

/// `YYYY-MM-DD`.
pub open spec fn date_text(t: LocalTime) -> Seq<char> {
    year_digits(t.year as nat) + seq!['-'] + two_digits(t.month as nat) + seq!['-'] + two_digits(
        t.day as nat,
    )
}

/// `YYYY-MM-DDTHH:MM:SS`, the `ts` of a record.
pub open spec fn timestamp_text(t: LocalTime) -> Seq<char> {
    date_text(t) + seq!['T'] + two_digits(t.hour as nat) + seq![':'] + two_digits(t.minute as nat)
        + seq![':'] + two_digits(t.second as nat)
}

/// `YYYYMMDD-HHMMSS`, the stamp of a generated folder or capture name.
pub open spec fn filename_timestamp_text(t: LocalTime) -> Seq<char> {
    year_digits(t.year as nat) + two_digits(t.month as nat) + two_digits(t.day as nat) + seq!['-']
        + two_digits(t.hour as nat) + two_digits(t.minute as nat) + two_digits(t.second as nat)
}

fn push_year(out: &mut Vec<char>, y: u32)
    ensures
        final(out)@ == old(out)@ + year_digits(y as nat),
{
    let ghost start = out@;
    if y < 10 {
        out.push('0');
        out.push('0');
        out.push('0');
        push_decimal(out, y as u128);
        assert(out@ =~= start + ("000"@ + decimal(y as nat))) by {
            assert(start.push('0').push('0').push('0') =~= start + "000"@) by {
                reveal_strlit("000");
            }
        }
    } else if y < 100 {
        out.push('0');
        out.push('0');
        push_decimal(out, y as u128);
        assert(out@ =~= start + ("00"@ + decimal(y as nat))) by {
            assert(start.push('0').push('0') =~= start + "00"@) by {
                reveal_strlit("00");
            }
        }
    } else if y < 1000 {
        out.push('0');
        push_decimal(out, y as u128);
        assert(out@ =~= start + ("0"@ + decimal(y as nat))) by {
            assert(start.push('0') =~= start + "0"@) by {
                reveal_strlit("0");
            }
        }
    } else {
        push_decimal(out, y as u128);
    }
}

fn push_date(out: &mut Vec<char>, t: &LocalTime)
    ensures
        final(out)@ == old(out)@ + date_text(*t),
{
    let ghost start = out@;
    push_year(out, t.year);
    out.push('-');
    push_two_digits(out, t.month as u64);
    out.push('-');
    push_two_digits(out, t.day as u64);
    assert(out@ =~= start + date_text(*t));
}

/// Today's date, `YYYY-MM-DD`.
pub fn today(t: &LocalTime) -> (r: String)
    ensures
        r@ == date_text(*t),
{
    let mut out: Vec<char> = Vec::new();
    push_date(&mut out, t);
    assert(out@ =~= date_text(*t));
    string_of(&out)
}

/// The `ts` of a record, `YYYY-MM-DDTHH:MM:SS`.
pub fn timestamp(t: &LocalTime) -> (r: String)
    ensures
        r@ == timestamp_text(*t),
{
    let mut out: Vec<char> = Vec::new();
    push_date(&mut out, t);
    out.push('T');
    push_two_digits(&mut out, t.hour as u64);
    out.push(':');
    push_two_digits(&mut out, t.minute as u64);
    out.push(':');
    push_two_digits(&mut out, t.second as u64);
    assert(out@ =~= timestamp_text(*t));
    string_of(&out)
}

/// The stamp of a generated folder or file name, `YYYYMMDD-HHMMSS`.
pub fn filename_timestamp(t: &LocalTime) -> (r: String)
    ensures
        r@ == filename_timestamp_text(*t),
{
    let mut out: Vec<char> = Vec::new();
    push_year(&mut out, t.year);
    push_two_digits(&mut out, t.month as u64);
    push_two_digits(&mut out, t.day as u64);
    out.push('-');
    push_two_digits(&mut out, t.hour as u64);
    push_two_digits(&mut out, t.minute as u64);
    push_two_digits(&mut out, t.second as u64);
    assert(out@ =~= filename_timestamp_text(*t));
    string_of(&out)
}

} // verus!
