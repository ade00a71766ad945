//! The hardware clock reading, decoded from the RTC driver file.

use vstd::prelude::*;

use crate::error::ProbeError;
use crate::scan::{
    spec_next_u32, spec_parse_i32, spec_parse_u64, span_spaces, span_until, tok_end, Cursor,
};

verus! {

/// A calendar date with a time of day, as the real-time clock reports it.
/// A value of this type always denotes a real calendar instant: the
/// constructor rejects anything else.
#[derive(Debug, Clone, Copy, PartialEq, Eq, Structural)]
pub struct RtcDateTime {
    pub year: i32,
    pub month: u8,
    pub day: u8,
    pub hour: u8,
    pub minute: u8,
    pub second: u8,
}

/// A year with an extra day in February.
pub open spec fn spec_is_leap_year(y: int) -> bool {
    (y % 4 == 0 && y % 100 != 0) || y % 400 == 0
}

/// How many days the given month of the given year has; zero for a month
/// outside `1 ..= 12`.
pub open spec fn spec_days_in_month(y: int, m: int) -> int {
    if m == 1 || m == 3 || m == 5 || m == 7 || m == 8 || m == 10 || m == 12 {
        31
    } else if m == 4 || m == 6 || m == 9 || m == 11 {
        30
    } else if m == 2 {
        if spec_is_leap_year(y) {
            29
        } else {
            28
        }
    } else {
        0
    }
}

/// A field combination that denotes a real calendar instant.
pub open spec fn spec_valid_date_time(
    year: int,
    month: int,
    day: int,
    hour: int,
    minute: int,
    second: int,
) -> bool {
    1 <= month <= 12 && 1 <= day <= spec_days_in_month(year, month) && hour <= 23 && minute <= 59
        && second <= 59 && 0 <= hour && 0 <= minute && 0 <= second
}

/// Executable test for `spec_is_leap_year`.
pub fn is_leap_year(y: i32) -> (r: bool)
    ensures
        r == spec_is_leap_year(y as int),
{
    (y % 4 == 0 && y % 100 != 0) || y % 400 == 0
}

/// Executable count of the days in a month.
pub fn days_in_month(y: i32, m: u32) -> (r: u32)
    ensures
        r == spec_days_in_month(y as int, m as int),
{
    if m == 1 || m == 3 || m == 5 || m == 7 || m == 8 || m == 10 || m == 12 {
        31
    } else if m == 4 || m == 6 || m == 9 || m == 11 {
        30
    } else if m == 2 {
        if is_leap_year(y) {
            29
        } else {
            28
        }
    } else {
        0
    }
}

impl RtcDateTime {
    /// Assemble a date and time, rejecting any combination that is not a
    /// real calendar instant.
    pub fn new(year: i32, month: u32, day: u32, hour: u32, minute: u32, second: u32) -> (r:
        Result<RtcDateTime, ProbeError>)
        ensures
            r is Ok == spec_valid_date_time(
                year as int,
                month as int,
                day as int,
                hour as int,
                minute as int,
                second as int,
            ),
            r matches Ok(v) ==> v == (RtcDateTime {
                year,
                month: month as u8,
                day: day as u8,
                hour: hour as u8,
                minute: minute as u8,
                second: second as u8,
            }),
            r is Err ==> r == Err::<RtcDateTime, ProbeError>(ProbeError::InvalidData),
    {
        if 1 <= month && month <= 12 && 1 <= day && day <= days_in_month(year, month) && hour
            <= 23 && minute <= 59 && second <= 59 {
            Ok(
                RtcDateTime {
                    year,
                    month: month as u8,
                    day: day as u8,
                    hour: hour as u8,
                    minute: minute as u8,
                    second: second as u8,
                },
            )
        } else {
            Err(ProbeError::InvalidData)
        }
    }

    /// Every constructed value denotes a real calendar instant.
    pub open spec fn valid(self) -> bool {
        spec_valid_date_time(
            self.year as int,
            self.month as int,
            self.day as int,
            self.hour as int,
            self.minute as int,
            self.second as int,
        )
    }
}

/// The delimited unsigned reading that starts at position `i`: the bytes
/// from the first non-space up to the delimiter `d`, as a 32-bit numeral,
/// paired with the position after the delimiter.
pub open spec fn spec_u32_until(s: Seq<u8>, i: int, d: u8) -> Result<(u32, int), ProbeError> {
    let start = span_spaces(s, i);
    let j = span_until(s, start, d);
    if j >= s.len() {
        Err(ProbeError::UnexpectedEof)
    } else {
        match spec_parse_u64(s.subrange(start, j)) {
            Ok(v) => if v <= u32::MAX {
                Ok((v as u32, j + 1))
            } else {
                Err(ProbeError::InvalidData)
            },
            Err(e) => Err(e),
        }
    }
}

/// The delimited signed reading, analogously.
pub open spec fn spec_i32_until(s: Seq<u8>, i: int, d: u8) -> Result<(i32, int), ProbeError> {
    let start = span_spaces(s, i);
    let j = span_until(s, start, d);
    if j >= s.len() {
        Err(ProbeError::UnexpectedEof)
    } else {
        match spec_parse_i32(s.subrange(start, j)) {
            Ok(v) => Ok((v, j + 1)),
            Err(e) => Err(e),
        }
    }
}

/// The position after dropping everything up to and including the next
/// colon, or `None` when no colon is left.
pub open spec fn spec_after_colon(s: Seq<u8>, i: int) -> Option<int> {
    let j = span_until(s, span_spaces(s, i), 58);
    if j >= s.len() {
        None
    } else {
        Some(j + 1)
    }
}

/// What decoding the RTC driver file yields: the time line's three
/// colon-separated fields, then the date line's three dash-separated
/// fields, each line entered by skipping its eight-byte label and the text
/// up to its colon.  A combination that is not a real calendar instant is
/// rejected.
pub open spec fn spec_get_rtc_date_time(s: Seq<u8>) -> Result<RtcDateTime, ProbeError> {
    if s.len() < 8 {
        Err(ProbeError::UnexpectedEof)
    } else {
        match spec_after_colon(s, 8) {
            None => Err(ProbeError::UnexpectedEof),
            Some(p1) => match spec_u32_until(s, p1, 58) {
                Err(e) => Err(e),
                Ok((hour, p2)) => match spec_u32_until(s, p2, 58) {
                    Err(e) => Err(e),
                    Ok((minute, p3)) => match spec_next_u32(s, p3) {
                        Err(e) => Err(e),
                        Ok(second) => {
                            let p4 = tok_end(s, p3);
                            if p4 + 8 > s.len() {
                                Err(ProbeError::UnexpectedEof)
                            } else {
                                match spec_after_colon(s, p4 + 8) {
                                    None => Err(ProbeError::UnexpectedEof),
                                    Some(p5) => match spec_i32_until(s, p5, 45) {
                                        Err(e) => Err(e),
                                        Ok((year, p6)) => match spec_u32_until(s, p6, 45) {
                                            Err(e) => Err(e),
                                            Ok((month, p7)) => match spec_next_u32(s, p7) {
                                                Err(e) => Err(e),
                                                Ok(day) => {
                                                    if spec_valid_date_time(
                                                        year as int,
                                                        month as int,
                                                        day as int,
                                                        hour as int,
                                                        minute as int,
                                                        second as int,
                                                    ) {
                                                        Ok(
                                                            RtcDateTime {
                                                                year,
                                                                month: month as u8,
                                                                day: day as u8,
                                                                hour: hour as u8,
                                                                minute: minute as u8,
                                                                second: second as u8,
                                                            },
                                                        )
                                                    } else {
                                                        Err(ProbeError::InvalidData)
                                                    }
                                                },
                                            },
                                        },
                                    },
                                }
                            }
                        },
                    },
                },
            },
        }
    }
}

/// Decode the hardware clock reading from the contents of the RTC driver
/// file.
pub fn get_rtc_date_time(data: Vec<u8>) -> (r: Result<RtcDateTime, ProbeError>)
    ensures
        r == spec_get_rtc_date_time(data@),
{
    let mut cur = Cursor::new(data);
    match cur.skip_bytes(8) {
        Err(e) => {
            return Err(e);
        },
        Ok(()) => {},
    }
    match cur.next_until_byte(58) {
        None => {
            return Err(ProbeError::UnexpectedEof);
        },
        Some(_) => {},
    }
    let hour = match cur.next_u32_until(58) {
        Err(e) => {
            return Err(e);
        },
        Ok(v) => v,
    };
    let minute = match cur.next_u32_until(58) {
        Err(e) => {
            return Err(e);
        },
        Ok(v) => v,
    };
    let second = match cur.next_u32() {
        Err(e) => {
            return Err(e);
        },
        Ok(v) => v,
    };
    match cur.skip_bytes(8) {
        Err(e) => {
            return Err(e);
        },
        Ok(()) => {},
    }
    match cur.next_until_byte(58) {
        None => {
            return Err(ProbeError::UnexpectedEof);
        },
        Some(_) => {},
    }
    let year = match cur.next_i32_until(45) {
        Err(e) => {
            return Err(e);
        },
        Ok(v) => v,
    };
    let month = match cur.next_u32_until(45) {
        Err(e) => {
            return Err(e);
        },
        Ok(v) => v,
    };
    let day = match cur.next_u32() {
        Err(e) => {
            return Err(e);
        },
        Ok(v) => v,
    };
    RtcDateTime::new(year, month, day, hour, minute, second)
}

} // verus!
