//! Points in time that are packed into 64 bits.
//!
//! From the highest bits down, a packed time holds the number
//! `13 * year + month`, five bits for the day, five for the hour, six for the
//! minute, six for the second and 24 for the microseconds.
use vstd::prelude::*;
use vstd::string::*;
use crate::clock::{civil_micros, TimeParts};
use crate::text::append_padded;

verus! {

/// The parts of a packed time. The month zero stands for the last month of the
/// year before.
pub open spec fn unpacked(packed: u64) -> TimeParts {
    let year_month = packed / 0x4000_0000_0000;
    let zero = year_month % 13 == 0;
    TimeParts {
        year: (year_month / 13 - if zero { 1int } else { 0int }) as i32,
        month: if zero { 12 } else { (year_month % 13) as i32 },
        day: ((packed / 0x200_0000_0000) % 32) as i32,
        hour: ((packed / 0x10_0000_0000) % 32) as i32,
        minute: ((packed / 0x4000_0000) % 64) as i32,
        second: ((packed / 0x100_0000) % 64) as i32,
    }
}

/// What a packed time is written as. The packed time zero, and one with a part out
/// of its range, is written as the zero time.
pub open spec fn packed_text(packed: u64) -> Seq<char> {
    if packed != 0 && unpacked(packed).in_range() {
        unpacked(packed).text()
    } else {
        "0000-00-00 00:00:00"@
    }
}

/// The microseconds between the beginning of the year 1970 and the packed time,
/// taken as UTC, where it is a point in time.
pub open spec fn packed_micros(packed: u64) -> Option<i64> {
    if packed != 0 {
        unpacked(packed).micros()
    } else {
        None
    }
}

/// The parts of a packed time.
pub fn parse_fields(packed: u64) -> (r: TimeParts)
    ensures
        r == unpacked(packed),
{
    let date_time: u64 = packed >> 24;
    let date: u64 = date_time >> 17;
    let day: u64 = date & 31;
    let year_month: u64 = date >> 5;
    let time: u64 = date_time & 0x1FFFF;
    let second: u64 = time & 63;
    let minute: u64 = (time >> 6) & 63;
    let hour: u64 = time >> 12;
    proof {
        assert(year_month == packed / 0x4000_0000_0000 && year_month < 0x40000) by (bit_vector)
            requires
                year_month == ((packed >> 24) >> 17) >> 5,
        ;
        assert(day == (packed / 0x200_0000_0000) % 32) by (bit_vector)
            requires
                day == ((packed >> 24) >> 17) & 31,
        ;
        assert(hour == (packed / 0x10_0000_0000) % 32) by (bit_vector)
            requires
                hour == ((packed >> 24) & 0x1FFFF) >> 12,
        ;
        assert(minute == (packed / 0x4000_0000) % 64) by (bit_vector)
            requires
                minute == (((packed >> 24) & 0x1FFFF) >> 6) & 63,
        ;
        assert(second == (packed / 0x100_0000) % 64) by (bit_vector)
            requires
                second == ((packed >> 24) & 0x1FFFF) & 63,
        ;
    }
    let mut year: i32 = (year_month / 13) as i32;
    let mut month: i32 = (year_month % 13) as i32;
    if month == 0 {
        month = 12;
        year -= 1;
    }
    TimeParts {
        year,
        month,
        day: day as i32,
        hour: hour as i32,
        minute: minute as i32,
        second: second as i32,
    }
}

/// Whether each part is in the range that it has in a date and a time of day.
pub fn valid(p: &TimeParts) -> (r: bool)
    ensures
        r == p.in_range(),
{
    0 <= p.year && p.year <= 9999 && 1 <= p.month && p.month <= 12 && 1 <= p.day && p.day <= 31
        && 0 <= p.hour && p.hour <= 23 && 0 <= p.minute && p.minute <= 59 && 0 <= p.second
        && p.second <= 59
}

/// What a packed time is written as.
pub fn decode_packed_time_to_string(packed: u64) -> (r: String)
    ensures
        r@ == packed_text(packed),
{
    if packed == 0 {
        return "0000-00-00 00:00:00".to_string();
    }
    let p = parse_fields(packed);
    if valid(&p) {
        let mut out = String::new();
        append_padded(&mut out, p.year as u64, 4);
        out.append("-");
        append_padded(&mut out, p.month as u64, 2);
        out.append("-");
        append_padded(&mut out, p.day as u64, 2);
        out.append(" ");
        append_padded(&mut out, p.hour as u64, 2);
        out.append(":");
        append_padded(&mut out, p.minute as u64, 2);
        out.append(":");
        append_padded(&mut out, p.second as u64, 2);
        assert(out@ =~= p.text());
        return out;
    }
    "0000-00-00 00:00:00".to_string()
}

/// The microseconds between the beginning of the year 1970 and the packed time,
/// taken as UTC, where it is a point in time.
pub fn decode_packed_time_to_microseconds(packed: u64) -> (r: Option<i64>)
    ensures
        r == packed_micros(packed),
{
    if packed == 0 {
        return None;
    }
    let p = parse_fields(packed);
    if valid(&p) {
        civil_micros(
            p.year,
            p.month as u32,
            p.day as u32,
            p.hour as u32,
            p.minute as u32,
            p.second as u32,
        )
    } else {
        None
    }
}

} // verus!
