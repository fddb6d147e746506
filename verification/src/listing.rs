//! The directory listing formatter: one line per entry in the fixed
//! textual format generic clients consume.

use vstd::prelude::*;

use crate::digits::{dec_chars, push_dec_chars};
use vstd::utf8::encode_utf8;

verus! {

/// The month column for a month number between 1 and 12.
pub open spec fn month_name(m: u8) -> Seq<char> {
    if m == 1 {
        "Jan"@
    } else if m == 2 {
        "Feb"@
    } else if m == 3 {
        "Mar"@
    } else if m == 4 {
        "Apr"@
    } else if m == 5 {
        "May"@
    } else if m == 6 {
        "Jun"@
    } else if m == 7 {
        "Jul"@
    } else if m == 8 {
        "Aug"@
    } else if m == 9 {
        "Sep"@
    } else if m == 10 {
        "Oct"@
    } else if m == 11 {
        "Nov"@
    } else {
        "Dec"@
    }
}

/// The month column for a month number between 1 and 12.
pub fn month_str(m: u8) -> (r: &'static str)
    ensures
        r@ == month_name(m),
{
    if m == 1 {
        "Jan"
    } else if m == 2 {
        "Feb"
    } else if m == 3 {
        "Mar"
    } else if m == 4 {
        "Apr"
    } else if m == 5 {
        "May"
    } else if m == 6 {
        "Jun"
    } else if m == 7 {
        "Jul"
    } else if m == 8 {
        "Aug"
    } else if m == 9 {
        "Sep"
    } else if m == 10 {
        "Oct"
    } else if m == 11 {
        "Nov"
    } else {
        "Dec"
    }
}

/// One listing line: a directory flag, a synthetic permission string, a
/// constant link count and owner/group, the size, a month/day/hour:minute
/// stamp, the base name, a trailing separator for directories, and CRLF.
pub open spec fn spec_entry_line(
    name: Seq<char>,
    is_dir: bool,
    readonly: bool,
    size: u64,
    month: u8,
    day: u8,
    hour: u8,
    minute: u8,
) -> Seq<char> {
    (if is_dir {
        "d"@
    } else {
        "-"@
    }) + (if readonly {
        "r--r--r--"@
    } else {
        "rw-rw-rw-"@
    }) + " 1 anonymous anonymous "@ + dec_chars(size as nat) + " "@ + month_name(month) + " "@
        + dec_chars(day as nat) + " "@ + dec_chars(hour as nat) + ":"@ + dec_chars(minute as nat)
        + " "@ + name + (if is_dir {
        "/"@
    } else {
        Seq::<char>::empty()
    }) + "\r\n"@
}

/// Render one listing line.
pub fn format_entry(
    name: &str,
    is_dir: bool,
    readonly: bool,
    size: u64,
    month: u8,
    day: u8,
    hour: u8,
    minute: u8,
) -> (line: String)
    ensures
        line@ == spec_entry_line(name@, is_dir, readonly, size, month, day, hour, minute),
{
    let mut line = (if is_dir {
        "d"
    } else {
        "-"
    }).to_owned();
    line.append(
        if readonly {
            "r--r--r--"
        } else {
            "rw-rw-rw-"
        },
    );
    line.append(" 1 anonymous anonymous ");
    push_dec_chars(&mut line, size);
    line.append(" ");
    line.append(month_str(month));
    line.append(" ");
    push_dec_chars(&mut line, day as u64);
    line.append(" ");
    push_dec_chars(&mut line, hour as u64);
    line.append(":");
    push_dec_chars(&mut line, minute as u64);
    line.append(" ");
    line.append(name);
    if is_dir {
        line.append("/");
    }
    line.append("\r\n");
    assert(line@ =~= spec_entry_line(name@, is_dir, readonly, size, month, day, hour, minute));
    line
}

/// The UTC calendar fields (month, day, hour, minute) of a Unix time, or
/// nothing for a time outside the representable range. The value is fixed
/// by the `time` crate's calendar arithmetic; the wrapper below relies on
/// it.
pub uninterp spec fn utc_fields(secs: i64) -> Option<(u8, u8, u8, u8)>;

/// Relies on `time::OffsetDateTime::from_unix_timestamp` and its `month`,
/// `day`, `hour` and `minute` accessors: the UTC calendar fields of the
/// given Unix time, a function of the timestamp alone; month is 1 to 12,
/// day 1 to 31, hour below 24, minute below 60, as the crate documents.
#[verifier::external_body]
fn datetime_fields(secs: i64) -> (r: Option<(u8, u8, u8, u8)>)
    ensures
        r == utc_fields(secs),
        r matches Some(f) ==> 1 <= f.0 <= 12 && 1 <= f.1 <= 31 && f.2 <= 23 && f.3 <= 59,
{
    let dt = match time::OffsetDateTime::from_unix_timestamp(secs) {
        Ok(d) => d,
        Err(_) => return None,
    };
    Some((u8::from(dt.month()), dt.day(), dt.hour(), dt.minute()))
}

/// The timestamp columns for a modification time: its UTC calendar
/// fields, or the epoch's for a time outside the representable range.
pub open spec fn stamp_fields(secs: i64) -> (u8, u8, u8, u8) {
    match utc_fields(secs) {
        Some(f) => f,
        None => (1u8, 1u8, 0u8, 0u8),
    }
}

/// Append one entry's listing line to `out`, stamping it with the entry's
/// last-modified time.
pub fn add_file_info(
    name: &str,
    is_dir: bool,
    readonly: bool,
    size: u64,
    mtime_secs: i64,
    out: &mut Vec<u8>,
)
    ensures
        final(out)@ == old(out)@ + encode_utf8(
            spec_entry_line(
                name@,
                is_dir,
                readonly,
                size,
                stamp_fields(mtime_secs).0,
                stamp_fields(mtime_secs).1,
                stamp_fields(mtime_secs).2,
                stamp_fields(mtime_secs).3,
            ),
        ),
{
    let (month, day, hour, minute) = match datetime_fields(mtime_secs) {
        Some(f) => f,
        None => (1, 1, 0, 0),
    };
    let line = format_entry(name, is_dir, readonly, size, month, day, hour, minute);
    let bs = line.as_str().as_bytes();
    out.extend_from_slice(bs);
}

} // verus!
