//! Field validators applied before any record is written, and the sanitiser
//! for export file names.
use vstd::prelude::*;
use vstd::string::*;

use crate::error::AppError;
use crate::text::{
    cat, digit_value, int_text, int_to_text, is_digit, nat_text, nat_to_text, trim_text, trimmed,
};

verus! {

/// Longest accepted name, in bytes.
pub const MAX_NAME_LENGTH: usize = 255;

/// Longest accepted description, in bytes.
pub const MAX_DESCRIPTION_LENGTH: usize = 5000;

/// Regulatory maximum of days away from work or on restricted work.
pub const MAX_OSHA_DAYS: i64 = 180;

/// Earliest reporting year accepted.
pub const MIN_YEAR: i64 = 1970;

/// Latest reporting year accepted.
pub const MAX_YEAR: i64 = 2100;

/// Largest plausible average employee count.
pub const MAX_EMPLOYEE_COUNT: i64 = 1000000;

/// Largest plausible number of hours worked in a year.
pub const MAX_HOURS_WORKED: i64 = 2100000000;

/// An error that is a validation failure.
pub open spec fn is_validation_error(r: Result<(), AppError>) -> bool {
    r matches Err(AppError::Validation(_))
}

/// Accepts a day count from 0 to `MAX_OSHA_DAYS`.
pub fn validate_days_count(days: i64, field_name: &str) -> (r: Result<(), AppError>)
    ensures
        r is Ok <==> 0 <= days <= MAX_OSHA_DAYS,
        r is Err ==> is_validation_error(r),
        days < 0 ==> (r matches Err(AppError::Validation(m)) && m@ == field_name@
            + " cannot be negative (got: "@ + int_text(days as int) + ")"@),
        days > MAX_OSHA_DAYS ==> (r matches Err(AppError::Validation(m)) && m@ == field_name@
            + " exceeds OSHA maximum of 180 days (got: "@ + int_text(days as int) + ")"@),
{
    if days < 0 {
        let m = cat(field_name, " cannot be negative (got: ");
        let m = cat(m.as_str(), int_to_text(days).as_str());
        return Err(AppError::Validation(cat(m.as_str(), ")")));
    }
    if days > MAX_OSHA_DAYS {
        let m = cat(field_name, " exceeds OSHA maximum of 180 days (got: ");
        let m = cat(m.as_str(), int_to_text(days).as_str());
        return Err(AppError::Validation(cat(m.as_str(), ")")));
    }
    Ok(())
}

/// Accepts a year from `MIN_YEAR` to `MAX_YEAR`.
pub fn validate_year(year: i64) -> (r: Result<(), AppError>)
    ensures
        r is Ok <==> MIN_YEAR <= year <= MAX_YEAR,
        r is Err ==> is_validation_error(r),
{
    if year < MIN_YEAR || year > MAX_YEAR {
        let m = cat("Year must be between 1970 and 2100 (got: ", int_to_text(year).as_str());
        return Err(AppError::Validation(cat(m.as_str(), ")")));
    }
    Ok(())
}

/// Accepts an average employee count from 0 to `MAX_EMPLOYEE_COUNT`.
pub fn validate_employee_count(count: i64) -> (r: Result<(), AppError>)
    ensures
        r is Ok <==> 0 <= count <= MAX_EMPLOYEE_COUNT,
        r is Err ==> is_validation_error(r),
{
    if count < 0 {
        let m = cat("Employee count cannot be negative (got: ", int_to_text(count).as_str());
        return Err(AppError::Validation(cat(m.as_str(), ")")));
    }
    if count > MAX_EMPLOYEE_COUNT {
        let m = cat("Employee count seems unrealistic (got: ", int_to_text(count).as_str());
        return Err(AppError::Validation(cat(m.as_str(), ")")));
    }
    Ok(())
}

/// Accepts a yearly total of hours worked from 0 to `MAX_HOURS_WORKED`.
pub fn validate_hours_worked(hours: i64) -> (r: Result<(), AppError>)
    ensures
        r is Ok <==> 0 <= hours <= MAX_HOURS_WORKED,
        r is Err ==> is_validation_error(r),
{
    if hours < 0 {
        let m = cat("Total hours worked cannot be negative (got: ", int_to_text(hours).as_str());
        return Err(AppError::Validation(cat(m.as_str(), ")")));
    }
    if hours > MAX_HOURS_WORKED {
        let m = cat("Total hours worked seems unrealistic (got: ", int_to_text(hours).as_str());
        return Err(AppError::Validation(cat(m.as_str(), ")")));
    }
    Ok(())
}

/// Accepts a string of at most `max_length` bytes.
pub fn validate_string_length(s: &str, max_length: usize, field_name: &str) -> (r: Result<
    (),
    AppError,
>)
    ensures
        r is Ok <==> s.spec_bytes().len() <= max_length,
        r is Err ==> is_validation_error(r),
        r matches Err(AppError::Validation(m)) ==> m@ == field_name@
            + " exceeds maximum length of "@ + nat_text(max_length as nat) + " characters"@,
{
    if s.as_bytes().len() > max_length {
        let m = cat(field_name, " exceeds maximum length of ");
        let m = cat(m.as_str(), nat_to_text(max_length as u64).as_str());
        let m = cat(m.as_str(), " characters");
        return Err(AppError::Validation(m));
    }
    Ok(())
}

/// Accepts a string that holds something besides white space.
pub fn validate_not_empty(s: &str, field_name: &str) -> (r: Result<(), AppError>)
    ensures
        r is Ok <==> trimmed(s@).len() > 0,
        r is Err ==> is_validation_error(r),
{
    let t = trim_text(s);
    if t.as_str().is_empty() {
        return Err(AppError::Validation(cat(field_name, " cannot be empty")));
    }
    Ok(())
}

pub open spec fn is_leap_year(y: int) -> bool {
    y % 4 == 0 && (y % 100 != 0 || y % 400 == 0)
}

/// Number of days in month `m` of year `y`.
pub open spec fn days_in_month(y: int, m: int) -> int {
    if m == 2 {
        if is_leap_year(y) {
            29
        } else {
            28
        }
    } else if m == 4 || m == 6 || m == 9 || m == 11 {
        30
    } else {
        31
    }
}

/// `s` has the shape `YYYY-MM-DD`: ten characters, dashes at positions 4 and
/// 7, and ASCII digits everywhere else.
pub open spec fn date_shape(s: Seq<char>) -> bool {
    &&& s.len() == 10
    &&& s[4] == '-'
    &&& s[7] == '-'
    &&& forall|i: int| 0 <= i < 10 && i != 4 && i != 7 ==> is_digit(#[trigger] s[i])
}

/// The year, month and day that the digits of a `YYYY-MM-DD` text spell.
pub open spec fn date_fields(s: Seq<char>) -> (int, int, int) {
    (
        digit_value(s[0]) * 1000 + digit_value(s[1]) * 100 + digit_value(s[2]) * 10
            + digit_value(s[3]),
        digit_value(s[5]) * 10 + digit_value(s[6]),
        digit_value(s[8]) * 10 + digit_value(s[9]),
    )
}

/// A calendar date written `YYYY-MM-DD`, with a year from 1970 to 2100, a
/// month from 01 to 12 and a day that exists in that month.
pub open spec fn is_valid_date(s: Seq<char>) -> bool {
    date_shape(s) && {
        let (y, m, d) = date_fields(s);
        MIN_YEAR <= y <= MAX_YEAR && 1 <= m <= 12 && 1 <= d <= days_in_month(y, m)
    }
}

fn digit_at(s: &str, i: usize) -> (r: Option<i64>)
    requires
        i < s@.len(),
    ensures
        r is Some <==> is_digit(s@[i as int]),
        r matches Some(v) ==> v == digit_value(s@[i as int]) && 0 <= v <= 9,
{
    let c = s.get_char(i);
    if '0' <= c && c <= '9' {
        Some((c as u32 - '0' as u32) as i64)
    } else {
        None
    }
}

/// Reads the year, month and day of a text shaped `YYYY-MM-DD`; no range is
/// checked.
pub fn read_date(date: &str) -> (r: Option<(i64, i64, i64)>)
    ensures
        r is Some <==> date_shape(date@),
        r matches Some(f) ==> (f.0 as int, f.1 as int, f.2 as int) == date_fields(date@),
{
    if date.unicode_len() != 10 {
        return None;
    }
    if date.get_char(4) != '-' || date.get_char(7) != '-' {
        return None;
    }
    let d0 = match digit_at(date, 0) {
        Some(v) => v,
        None => return None,
    };
    let d1 = match digit_at(date, 1) {
        Some(v) => v,
        None => return None,
    };
    let d2 = match digit_at(date, 2) {
        Some(v) => v,
        None => return None,
    };
    let d3 = match digit_at(date, 3) {
        Some(v) => v,
        None => return None,
    };
    let d5 = match digit_at(date, 5) {
        Some(v) => v,
        None => return None,
    };
    let d6 = match digit_at(date, 6) {
        Some(v) => v,
        None => return None,
    };
    let d8 = match digit_at(date, 8) {
        Some(v) => v,
        None => return None,
    };
    let d9 = match digit_at(date, 9) {
        Some(v) => v,
        None => return None,
    };
    assert forall|i: int| 0 <= i < 10 && i != 4 && i != 7 implies is_digit(#[trigger] date@[i]) by {
        assert(i == 0 || i == 1 || i == 2 || i == 3 || i == 5 || i == 6 || i == 8 || i == 9);
    }
    Some((d0 * 1000 + d1 * 100 + d2 * 10 + d3, d5 * 10 + d6, d8 * 10 + d9))
}

/// Accepts a date written `YYYY-MM-DD` that exists in the calendar, within
/// the accepted years.
pub fn validate_date_format(date: &str, field_name: &str) -> (r: Result<(), AppError>)
    ensures
        r is Ok <==> is_valid_date(date@),
        r is Err ==> is_validation_error(r),
{
    let (year, month, day) = match read_date(date) {
        Some(f) => f,
        None => {
            let m = cat(field_name, " must be in YYYY-MM-DD format (got: ");
            let m = cat(m.as_str(), date);
            return Err(AppError::Validation(cat(m.as_str(), ")")));
        },
    };
    if year < MIN_YEAR || year > MAX_YEAR {
        return Err(
            AppError::Validation(cat("Year must be between 1970 and 2100 in ", field_name)),
        );
    }
    if month < 1 || month > 12 {
        return Err(
            AppError::Validation(cat("Month must be between 01 and 12 in ", field_name)),
        );
    }
    let leap = year % 4 == 0 && (year % 100 != 0 || year % 400 == 0);
    let max_day: i64 = if month == 2 {
        if leap {
            29
        } else {
            28
        }
    } else if month == 4 || month == 6 || month == 9 || month == 11 {
        30
    } else {
        31
    };
    if day < 1 || day > max_day {
        return Err(AppError::Validation(cat("Invalid day for month in ", field_name)));
    }
    Ok(())
}

/// Characters that never survive in an export file name: path separators, the
/// null character and the characters that shells and file systems treat
/// specially.
pub open spec fn is_forbidden_in_file_name(c: char) -> bool {
    c == '/' || c == '\\' || c == '\0' || c == ':' || c == '*' || c == '?' || c == '"' || c == '<'
        || c == '>' || c == '|'
}

/// `s` without its forbidden characters.
pub open spec fn strip_forbidden(s: Seq<char>) -> Seq<char>
    decreases s.len(),
{
    if s.len() == 0 {
        s
    } else {
        let p = strip_forbidden(s.drop_last());
        if is_forbidden_in_file_name(s.last()) {
            p
        } else {
            p.push(s.last())
        }
    }
}

/// The first `MAX_NAME_LENGTH` characters of `s`.
pub open spec fn cap_name(s: Seq<char>) -> Seq<char> {
    if s.len() > MAX_NAME_LENGTH {
        s.subrange(0, MAX_NAME_LENGTH as int)
    } else {
        s
    }
}

/// `s` with each `..` removed, scanning from the left without overlap.
pub open spec fn remove_double_dots(s: Seq<char>) -> Seq<char>
    decreases s.len(),
{
    if s.len() >= 2 && s[0] == '.' && s[1] == '.' {
        remove_double_dots(s.subrange(2, s.len() as int))
    } else if s.len() == 0 {
        s
    } else {
        seq![s[0]] + remove_double_dots(s.drop_first())
    }
}

/// The sanitised form of a proposed file name.
pub open spec fn sanitized_name(s: Seq<char>) -> Seq<char> {
    trimmed(remove_double_dots(cap_name(strip_forbidden(s))))
}

fn is_forbidden_char(c: char) -> (r: bool)
    ensures
        r == is_forbidden_in_file_name(c),
{
    c == '/' || c == '\\' || c == '\0' || c == ':' || c == '*' || c == '?' || c == '"' || c == '<'
        || c == '>' || c == '|'
}

fn keep_allowed(name: &str) -> (r: String)
    ensures
        r@ == cap_name(strip_forbidden(name@)),
{
    let n = name.unicode_len();
    let mut out = String::new();
    let mut kept: usize = 0;
    let mut i: usize = 0;
    assert(name@.subrange(0, 0) =~= Seq::<char>::empty());
    while i < n
        invariant
            n == name@.len(),
            i <= n,
            out@ == cap_name(strip_forbidden(name@.subrange(0, i as int))),
            kept == out@.len(),
        decreases n - i,
    {
        let ghost prefix = name@.subrange(0, i as int);
        let ghost next = name@.subrange(0, i + 1);
        assert(next.drop_last() =~= prefix);
        let c = name.get_char(i);
        if !is_forbidden_char(c) {
            let ghost p = strip_forbidden(prefix);
            if kept < MAX_NAME_LENGTH {
                let piece = name.substring_char(i, i + 1);
                assert(piece@ =~= seq![c]);
                out.append(piece);
                kept = kept + 1;
                assert(out@ =~= cap_name(p.push(c)));
            } else {
                assert(cap_name(p.push(c)) =~= cap_name(p));
            }
        }
        i = i + 1;
    }
    assert(name@.subrange(0, n as int) =~= name@);
    out
}

fn without_double_dots(s: &str) -> (r: String)
    ensures
        r@ == remove_double_dots(s@),
{
    let n = s.unicode_len();
    let mut out = String::new();
    let mut i: usize = 0;
    assert(s@.subrange(0, n as int) =~= s@);
    while i < n
        invariant
            n == s@.len(),
            i <= n,
            out@ + remove_double_dots(s@.subrange(i as int, n as int)) == remove_double_dots(s@),
        decreases n - i,
    {
        let ghost rest = s@.subrange(i as int, n as int);
        if i + 1 < n && s.get_char(i) == '.' && s.get_char(i + 1) == '.' {
            assert(rest.subrange(2, rest.len() as int) =~= s@.subrange(i + 2, n as int));
            i = i + 2;
        } else {
            let piece = s.substring_char(i, i + 1);
            assert(rest.drop_first() =~= s@.subrange(i + 1, n as int));
            assert(piece@ =~= seq![rest[0]]);
            assert(out@ + piece@ + remove_double_dots(s@.subrange(i + 1, n as int)) =~= out@
                + remove_double_dots(rest));
            out.append(piece);
            i = i + 1;
        }
    }
    assert(remove_double_dots(s@.subrange(n as int, n as int)) =~= Seq::<char>::empty());
    assert(out@ =~= out@ + Seq::<char>::empty());
    out
}

/// Makes a proposed file name safe: drops path separators, the null character
/// and shell metacharacters, keeps at most `MAX_NAME_LENGTH` characters,
/// removes each `..` and trims surrounding white space.
pub fn sanitize_filename(name: &str) -> (r: String)
    ensures
        r@ == sanitized_name(name@),
{
    let kept = keep_allowed(name);
    let no_dots = without_double_dots(kept.as_str());
    trim_text(no_dots.as_str())
}

/// `s` without its leading dots.
pub open spec fn strip_leading_dots(s: Seq<char>) -> Seq<char>
    decreases s.len(),
{
    if s.len() > 0 && s[0] == '.' {
        strip_leading_dots(s.drop_first())
    } else {
        s
    }
}

/// The file name under which an export is written: the sanitised base name,
/// a dot and the extension without its leading dots. Fails when nothing of the
/// base name survives sanitising.
pub fn export_file_name(base_name: &str, extension: &str) -> (r: Result<String, AppError>)
    ensures
        sanitized_name(base_name@).len() == 0 <==> r is Err,
        r is Err ==> r matches Err(AppError::Validation(_)),
        r matches Ok(f) ==> f@ == sanitized_name(base_name@) + seq!['.'] + strip_leading_dots(
            extension@,
        ),
{
    let sanitized = sanitize_filename(base_name);
    if sanitized.as_str().is_empty() {
        return Err(AppError::Validation(String::from_str("Filename would be empty after sanitization")));
    }
    let n = extension.unicode_len();
    let mut i: usize = 0;
    assert(extension@.subrange(0, n as int) =~= extension@);
    while i < n && extension.get_char(i) == '.'
        invariant
            n == extension@.len(),
            i <= n,
            strip_leading_dots(extension@) == strip_leading_dots(
                extension@.subrange(i as int, n as int),
            ),
        decreases n - i,
    {
        assert(extension@.subrange(i as int, n as int).drop_first() =~= extension@.subrange(
            i + 1,
            n as int,
        ));
        i = i + 1;
    }
    let ext = extension.substring_char(i, n);
    proof {
        reveal_strlit(".");
    }
    let with_dot = cat(sanitized.as_str(), ".");
    Ok(cat(with_dot.as_str(), ext))
}

/// Reads a valid `YYYY-MM-DD` date into its year, month and day.
pub fn parse_date(date: &str) -> (r: Option<(i64, i64, i64)>)
    ensures
        r is Some <==> is_valid_date(date@),
        r matches Some(f) ==> (f.0 as int, f.1 as int, f.2 as int) == date_fields(date@),
{
    if validate_date_format(date, "date").is_err() {
        return None;
    }
    read_date(date)
}

/// Days in the years before year `y`, counted from the start of year 1.
pub open spec fn days_before_year(y: int) -> int {
    365 * (y - 1) + (y - 1) / 4 - (y - 1) / 100 + (y - 1) / 400
}

/// Days in the months of year `y` before month `m`.
pub open spec fn days_before_month(y: int, m: int) -> int {
    let base: int = if m == 1 {
        0
    } else if m == 2 {
        31
    } else if m == 3 {
        59
    } else if m == 4 {
        90
    } else if m == 5 {
        120
    } else if m == 6 {
        151
    } else if m == 7 {
        181
    } else if m == 8 {
        212
    } else if m == 9 {
        243
    } else if m == 10 {
        273
    } else if m == 11 {
        304
    } else {
        334
    };
    if m > 2 && is_leap_year(y) {
        base + 1
    } else {
        base
    }
}

/// The position of a date in the calendar, in days.
pub open spec fn day_number(y: int, m: int, d: int) -> int {
    days_before_year(y) + days_before_month(y, m) + d
}

/// Counts the days from the start of year 1 to the given date.
pub fn day_number_of(y: i64, m: i64, d: i64) -> (r: i64)
    requires
        MIN_YEAR <= y <= MAX_YEAR,
        1 <= m <= 12,
        1 <= d <= 31,
    ensures
        r == day_number(y as int, m as int, d as int),
{
    let base: i64 = if m == 1 {
        0
    } else if m == 2 {
        31
    } else if m == 3 {
        59
    } else if m == 4 {
        90
    } else if m == 5 {
        120
    } else if m == 6 {
        151
    } else if m == 7 {
        181
    } else if m == 8 {
        212
    } else if m == 9 {
        243
    } else if m == 10 {
        273
    } else if m == 11 {
        304
    } else {
        334
    };
    let leap = y % 4 == 0 && (y % 100 != 0 || y % 400 == 0);
    let month_days = if m > 2 && leap {
        base + 1
    } else {
        base
    };
    365 * (y - 1) + (y - 1) / 4 - (y - 1) / 100 + (y - 1) / 400 + month_days + d
}

} // verus!
