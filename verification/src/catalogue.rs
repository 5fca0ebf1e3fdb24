//! The catalogue's writer lease, its timestamps, and the removal boundary.
//!
//! Only one writer may operate on a workspace catalogue at a time: the lease says
//! who, and a heartbeat says since when nobody has heard of them. Removal of a
//! registered workspace is refused in every case: no supported platform can move
//! the independently rooted files away all at once.
use vstd::prelude::*;

pub use crate::unregister::{
    application_unregister_preview, unregister_preview, ApplicationUnregisterPage, UnregisterFault,
    UnregisterManifestEntry, UnregisterPage, UnregisterPathKind, UnregisterTarget,
    IRREVERSIBLE_CONFIRMATION,
};

use crate::context_ir;
use crate::context_ir::debug_text;
use crate::digest;
use crate::error::AtlasError;
use crate::text;
use crate::text::{append_decimal, join2, text_eq};

verus! {

/// The schema version that a connection must present to write.
pub const SCHEMA_WRITER_VERSION: i64 = 4;

/// How long a writer lease lasts, in seconds: longer than a normal reconcile, short
/// enough to recover after a crash.
pub const DEFAULT_LEASE_DURATION_SECS: u64 = 300;

/// The age of a heartbeat, in seconds, from which another writer may take over.
pub const DEFAULT_HEARTBEAT_STALE_SECS: u64 = 60;

// ---------------------------------------------------------------------------
// Timestamps
// ---------------------------------------------------------------------------

/// A leap year of the Gregorian calendar.
pub open spec fn leap_year(year: int) -> bool {
    year % 4 == 0 && (year % 100 != 0 || year % 400 == 0)
}

/// The days of a year.
pub open spec fn year_days(year: int) -> int {
    if leap_year(year) {
        366
    } else {
        365
    }
}

/// The days of a month.
pub open spec fn month_days(year: int, month: int) -> int {
    if month == 2 {
        if leap_year(year) {
            29
        } else {
            28
        }
    } else if month == 4 || month == 6 || month == 9 || month == 11 {
        30
    } else {
        31
    }
}

/// The days from the first day of year one to the first day of a year.
pub open spec fn days_before_year(year: int) -> int {
    365 * (year - 1) + (year - 1) / 4 - (year - 1) / 100 + (year - 1) / 400
}

/// The days from the first day of a year to the first day of a month of it.
pub open spec fn days_before_month(year: int, month: int) -> int
    decreases month,
{
    if month <= 1 {
        0
    } else {
        days_before_month(year, month - 1) + month_days(year, month - 1)
    }
}

/// A date.
pub ghost struct DateView {
    pub year: int,
    pub month: int,
    pub day: int,
}

impl DateView {
    /// The date exists in the Gregorian calendar.
    pub open spec fn exists_in_calendar(self) -> bool {
        1 <= self.month <= 12 && 1 <= self.day <= month_days(self.year, self.month)
    }

    /// The days from the first day of 1970 to the date.
    pub open spec fn unix_day(self) -> int {
        days_before_year(self.year) - days_before_year(1970) + days_before_month(
            self.year,
            self.month,
        ) + self.day - 1
    }
}

pub proof fn lemma_next_year(year: int)
    ensures
        days_before_year(year + 1) == days_before_year(year) + year_days(year),
{
    let p = year - 1;
    assert((p + 1) / 4 == p / 4 + (if (p + 1) % 4 == 0 {
        1int
    } else {
        0
    }));
    assert((p + 1) / 100 == p / 100 + (if (p + 1) % 100 == 0 {
        1int
    } else {
        0
    }));
    assert((p + 1) / 400 == p / 400 + (if (p + 1) % 400 == 0 {
        1int
    } else {
        0
    }));
    assert((p + 1) % 400 == 0 ==> (p + 1) % 100 == 0);
    assert((p + 1) % 100 == 0 ==> (p + 1) % 4 == 0);
}

proof fn lemma_era(year: int, eras: int)
    ensures
        days_before_year(year + 400 * eras) == days_before_year(year) + 146_097 * eras,
{
    let p = year - 1;
    assert((p + 400 * eras) / 4 == p / 4 + 100 * eras);
    assert((p + 400 * eras) / 100 == p / 100 + 4 * eras);
    assert((p + 400 * eras) / 400 == p / 400 + eras);
}

/// A date of the calendar.
#[derive(Debug, Clone, Copy, PartialEq, Eq, Structural)]
pub struct CivilDate {
    pub year: u64,
    pub month: u64,
    pub day: u64,
}

impl View for CivilDate {
    type V = DateView;

    open spec fn view(&self) -> DateView {
        DateView { year: self.year as int, month: self.month as int, day: self.day as int }
    }
}

fn is_leap_year(year: u64) -> (r: bool)
    ensures
        r == leap_year(year as int),
{
    year % 4 == 0 && (year % 100 != 0 || year % 400 == 0)
}

fn days_of_month(year: u64, month: u64) -> (r: u64)
    ensures
        r == month_days(year as int, month as int),
{
    if month == 2 {
        if is_leap_year(year) {
            29
        } else {
            28
        }
    } else if month == 4 || month == 6 || month == 9 || month == 11 {
        30
    } else {
        31
    }
}

pub proof fn lemma_months_fill_the_year(year: int)
    ensures
        days_before_month(year, 13) == year_days(year),
{
    reveal_with_fuel(days_before_month, 14);
}

/// The date of a day, counted from the first day of 1970.
pub fn civil_from_unix_day(unix_day: u64) -> (r: CivilDate)
    requires
        unix_day <= 400_000_000_000,
    ensures
        r@.exists_in_calendar(),
        r@.unix_day() == unix_day,
{
    let eras: u64 = unix_day / 146_097;
    let mut left: u64 = unix_day % 146_097;
    let start: u64 = 1970 + 400 * eras;
    let mut year: u64 = start;
    proof {
        lemma_era(1970, eras as int);
        lemma_era(start as int, 1);
    }
    while left >= 366 || (left == 365 && !is_leap_year(year))
        invariant
            start <= year <= start + 400,
            start <= 2_000_000_000_000,
            days_before_year(start as int + 400) == days_before_year(start as int) + 146_097,
            days_before_year(year as int) + left == days_before_year(start as int) + unix_day
                % 146_097,
            unix_day % 146_097 < 146_097,
        decreases left,
    {
        let days: u64 = if is_leap_year(year) {
            366
        } else {
            365
        };
        proof {
            lemma_next_year(year as int);
            if year == start + 400 {
                assert(left < 0);
            }
        }
        left = left - days;
        year = year + 1;
    }
    let mut month: u64 = 1;
    while month < 12 && left >= days_of_month(year, month)
        invariant
            1 <= month <= 12,
            days_before_month(year as int, month as int) + left < year_days(year as int),
            days_before_year(year as int) + days_before_month(year as int, month as int) + left
                == days_before_year(start as int) + unix_day % 146_097,
        ensures
            1 <= month <= 12,
            days_before_month(year as int, month as int) + left < year_days(year as int),
            days_before_year(year as int) + days_before_month(year as int, month as int) + left
                == days_before_year(start as int) + unix_day % 146_097,
            month < 12 ==> left < month_days(year as int, month as int),
        decreases 12 - month,
    {
        left = left - days_of_month(year, month);
        month = month + 1;
    }
    proof {
        lemma_months_fill_the_year(year as int);
        if month == 12 {
            assert(days_before_month(year as int, 13) == days_before_month(year as int, 12)
                + month_days(year as int, 12));
        }
    }
    CivilDate { year, month, day: left + 1 }
}

/// A date has one day number: two dates of the calendar with the same one are the
/// same date.
pub proof fn law_unix_days_name_one_date(a: DateView, b: DateView)
    requires
        a.exists_in_calendar(),
        b.exists_in_calendar(),
        a.unix_day() == b.unix_day(),
    ensures
        a == b,
{
    lemma_within_year(a);
    lemma_within_year(b);
    if a.year < b.year {
        lemma_years_grow(a.year + 1, b.year);
        lemma_next_year(a.year);
    } else if b.year < a.year {
        lemma_years_grow(b.year + 1, a.year);
        lemma_next_year(b.year);
    }
    assert(a.year == b.year);
    if a.month < b.month {
        lemma_months_grow(a.year, a.month + 1, b.month);
    } else if b.month < a.month {
        lemma_months_grow(a.year, b.month + 1, a.month);
    }
}

proof fn lemma_years_grow(from: int, to: int)
    requires
        from <= to,
    ensures
        days_before_year(from) <= days_before_year(to),
    decreases to - from,
{
    if from < to {
        lemma_years_grow(from, to - 1);
        lemma_next_year(to - 1);
    }
}

proof fn lemma_months_grow(year: int, from: int, to: int)
    requires
        1 <= from <= to,
    ensures
        days_before_month(year, from) <= days_before_month(year, to),
    decreases to - from,
{
    if from < to {
        lemma_months_grow(year, from, to - 1);
    }
}

proof fn lemma_within_year(d: DateView)
    requires
        d.exists_in_calendar(),
    ensures
        0 <= days_before_month(d.year, d.month) + d.day - 1 < year_days(d.year),
{
    lemma_months_fill_the_year(d.year);
    lemma_months_grow(d.year, 1, d.month);
    lemma_months_grow(d.year, d.month + 1, 13);
}

/// A numeral with leading zeros up to a width.
pub open spec fn padded(n: nat, width: nat) -> Seq<char> {
    let digits = text::decimal(n);
    if digits.len() >= width {
        digits
    } else {
        Seq::new((width - digits.len()) as nat, |i: int| '0') + digits
    }
}

fn append_padded(out: &mut String, n: u64, width: usize)
    requires
        width <= 8,
    ensures
        final(out)@ == old(out)@ + padded(n as nat, width as nat),
{
    let mut digits = String::new();
    append_decimal(&mut digits, n);
    assert(digits@ =~= text::decimal(n as nat));
    let chars = text::chars_of(digits.as_str());
    let mut missing: usize = if chars.len() < width {
        width - chars.len()
    } else {
        0
    };
    let ghost total = missing as int;
    let ghost zeros = Seq::new(missing as nat, |i: int| '0');
    assert(zeros.skip(total) =~= Seq::empty());
    assert(out@ + zeros.take(0) =~= old(out)@);
    while missing > 0
        invariant
            0 <= missing <= total,
            total == zeros.len(),
            forall|i: int| 0 <= i < total ==> zeros[i] == '0',
            out@ == old(out)@ + zeros.take(total - missing),
        decreases missing,
    {
        let ghost done = total - missing;
        out.push('0');
        assert(zeros.take(done + 1) =~= zeros.take(done).push('0'));
        assert(out@ =~= old(out)@ + zeros.take(done + 1));
        missing = missing - 1;
    }
    assert(zeros.take(total) =~= zeros);
    out.append(digits.as_str());
    assert(out@ =~= old(out)@ + padded(n as nat, width as nat));
}

/// The ISO 8601 text of a moment of a date.
pub open spec fn timestamp_text(date: DateView, ms_of_day: int) -> Seq<char> {
    let seconds = ms_of_day / 1000;
    padded(date.year as nat, 4) + "-"@ + padded(date.month as nat, 2) + "-"@ + padded(
        date.day as nat,
        2,
    ) + "T"@ + padded((seconds / 3600) as nat, 2) + ":"@ + padded(
        ((seconds % 3600) / 60) as nat,
        2,
    ) + ":"@ + padded((seconds % 60) as nat, 2) + "."@ + padded((ms_of_day % 1000) as nat, 3)
        + "Z"@
}

/// The ISO 8601 text of a moment, given in milliseconds since the start of 1970.
pub fn iso8601_from_unix_millis(total_ms: u64) -> (r: String)
    ensures
        exists|date: DateView|
            #![trigger date.unix_day()]
            date.exists_in_calendar() && date.unix_day() == total_ms as int / 86_400_000 && r@
                == timestamp_text(date, total_ms as int % 86_400_000),
{
    let day: u64 = total_ms / 86_400_000;
    let ms_of_day: u64 = total_ms % 86_400_000;
    let seconds: u64 = ms_of_day / 1000;
    let date = civil_from_unix_day(day);
    let mut out = String::new();
    append_padded(&mut out, date.year, 4);
    out.append("-");
    append_padded(&mut out, date.month, 2);
    out.append("-");
    append_padded(&mut out, date.day, 2);
    out.append("T");
    append_padded(&mut out, seconds / 3600, 2);
    out.append(":");
    append_padded(&mut out, (seconds % 3600) / 60, 2);
    out.append(":");
    append_padded(&mut out, seconds % 60, 2);
    out.append(".");
    append_padded(&mut out, ms_of_day % 1000, 3);
    out.append("Z");
    proof {
        let d = date@;
        assert(d.unix_day() == total_ms as int / 86_400_000);
        assert(out@ =~= timestamp_text(d, total_ms as int % 86_400_000));
    }
    out
}

// ---------------------------------------------------------------------------
// Writer lease
// ---------------------------------------------------------------------------

/// The whole nanoseconds of a duration.
pub uninterp spec fn whole_nanos(duration: std::time::Duration) -> u128;

/// `Duration::as_nanos`: the whole nanoseconds of the duration.
pub assume_specification[ std::time::Duration::as_nanos ](duration: &std::time::Duration) -> (r: u128)
    ensures
        r == whole_nanos(*duration),
;

/// What `chrono::DateTime::parse_from_rfc3339` reads: the seconds since the start
/// of 1970 and the nanoseconds on top, or why the text is no timestamp.
pub uninterp spec fn rfc3339_reading(s: Seq<char>) -> Result<(int, int), Seq<char>>;

/// Calls `chrono::DateTime::parse_from_rfc3339`. What it reads is decided by the
/// text alone.
#[verifier::external_body]
fn read_rfc3339(s: &str) -> (r: Result<(i64, u32), String>)
    ensures
        match r {
            Ok((secs, nanos)) => rfc3339_reading(s@) == Ok::<(int, int), Seq<char>>(
                (secs as int, nanos as int),
            ),
            Err(message) => rfc3339_reading(s@) == Err::<(int, int), Seq<char>>(message@),
        },
{
    chrono::DateTime::parse_from_rfc3339(s)
        .map(|t| (t.timestamp(), t.timestamp_subsec_nanos()))
        .map_err(|error| error.to_string())
}

/// What `chrono`'s `signed_duration_since` finds between two moments: whole seconds
/// and nanoseconds, of one sign. None where a moment is outside its calendar.
pub uninterp spec fn utc_age(now: (int, int), since: (int, int)) -> Option<(int, int)>;

/// Calls `chrono::DateTime::signed_duration_since` on two moments that
/// `chrono::DateTime::from_timestamp` makes. Away from leap seconds the age is the
/// difference of the two.
#[verifier::external_body]
fn age_between(now: (i64, u32), since: (i64, u32)) -> (r: Option<(i64, i32)>)
    ensures
        match r {
            Some((secs, nanos)) => utc_age(
                (now.0 as int, now.1 as int),
                (since.0 as int, since.1 as int),
            ) == Some((secs as int, nanos as int)),
            None => utc_age((now.0 as int, now.1 as int), (since.0 as int, since.1 as int)) is None,
        },
        now.1 < 1_000_000_000 && since.1 < 1_000_000_000 ==> (r matches Some((secs, nanos))
            ==> secs * 1_000_000_000 + nanos == (now.0 - since.0) * 1_000_000_000 + (now.1
            - since.1)),
{
    let later = chrono::DateTime::from_timestamp(now.0, now.1)?;
    let earlier = chrono::DateTime::from_timestamp(since.0, since.1)?;
    let age = later.signed_duration_since(earlier);
    Some((age.num_seconds(), age.subsec_nanos()))
}

/// Calls `chrono::Utc::now`. Nothing is promised of the present moment.
#[verifier::external_body]
fn utc_now() -> (r: (i64, u32)) {
    let now = chrono::Utc::now();
    (now.timestamp(), now.timestamp_subsec_nanos())
}

/// The age from which a heartbeat is stale, in nanoseconds: the given one, or a
/// minute where it is longer than any age can be.
pub open spec fn stale_limit(stale_after: std::time::Duration) -> int {
    if whole_nanos(stale_after) <= 9_223_372_036_854_775_807_000_000 {
        whole_nanos(stale_after) as int
    } else {
        60_000_000_000
    }
}

/// Whether a timestamp is older than a limit at a moment; an error message where it
/// is no timestamp.
pub open spec fn stale_at(
    iso: Seq<char>,
    now: (int, int),
    stale_after: std::time::Duration,
) -> Result<bool, Seq<char>> {
    match rfc3339_reading(iso) {
        Err(problem) => Err(
            "invalid timestamp "@ + context_ir::debug_quoted(iso) + ": "@ + problem,
        ),
        Ok(since) => match utc_age(now, since) {
            Some((secs, nanos)) => Ok(
                secs * 1_000_000_000 + nanos > stale_limit(stale_after),
            ),
            None => Err("the present moment is outside the calendar"@),
        },
    }
}

/// The result is the one that a staleness decision gives.
pub open spec fn stale_result(r: Result<bool, AtlasError>, spec: Result<bool, Seq<char>>) -> bool {
    match spec {
        Ok(b) => r == Ok::<bool, AtlasError>(b),
        Err(message) => r matches Err(AtlasError::Other(m)) && m@ == message,
    }
}

/// Whether a heartbeat is stale at a moment.
pub fn heartbeat_is_stale(iso: &str, now: (i64, u32), stale_after: std::time::Duration) -> (r:
    Result<bool, AtlasError>)
    ensures
        stale_result(r, stale_at(iso@, (now.0 as int, now.1 as int), stale_after)),
{
    match read_rfc3339(iso) {
        Err(problem) => {
            let mut message = join2("invalid timestamp ", debug_text(iso).as_str());
            message.append(": ");
            message.append(problem.as_str());
            Err(AtlasError::Other(message))
        },
        Ok(since) => {
            let nanos: u128 = stale_after.as_nanos();
            let limit: i128 = if nanos <= 9_223_372_036_854_775_807_000_000 {
                nanos as i128
            } else {
                60_000_000_000
            };
            match age_between(now, since) {
                Some((secs, rest)) => Ok((secs as i128) * 1_000_000_000 + (rest as i128) > limit),
                None => Err(
                    AtlasError::Other("the present moment is outside the calendar".to_string()),
                ),
            }
        },
    }
}

/// Whether a heartbeat is stale now. A text that is no timestamp is an error
/// whatever the time.
pub fn iso8601_age_seconds(iso: &str, stale_after: std::time::Duration) -> (r: Result<
    bool,
    AtlasError,
>)
    ensures
        exists|secs: i64, nanos: u32|
            #[trigger] stale_result(r, stale_at(iso@, (secs as int, nanos as int), stale_after)),
        rfc3339_reading(iso@) matches Err(problem) ==> r matches Err(AtlasError::Other(m)) && m@
            == "invalid timestamp "@ + context_ir::debug_quoted(iso@) + ": "@ + problem,
{
    let now = utc_now();
    let r = heartbeat_is_stale(iso, now, stale_after);
    assert(stale_result(r, stale_at(iso@, (now.0 as int, now.1 as int), stale_after)));
    r
}

/// The lease as the catalogue stores it.
#[derive(Debug)]
pub struct LeaseRow {
    pub holder_id: String,
    pub acquired_at: String,
    pub expires_at: String,
    pub heartbeat_at: String,
    pub schema_writer_version: i64,
}

/// The values of a stored lease.
pub ghost struct LeaseView {
    pub holder_id: Seq<char>,
    pub acquired_at: Seq<char>,
    pub expires_at: Seq<char>,
    pub heartbeat_at: Seq<char>,
    pub schema_writer_version: int,
}

impl View for LeaseRow {
    type V = LeaseView;

    open spec fn view(&self) -> LeaseView {
        LeaseView {
            holder_id: self.holder_id@,
            acquired_at: self.acquired_at@,
            expires_at: self.expires_at@,
            heartbeat_at: self.heartbeat_at@,
            schema_writer_version: self.schema_writer_version as int,
        }
    }
}

/// The values of a lease that may be absent.
pub open spec fn lease_view(row: Option<LeaseRow>) -> Option<LeaseView> {
    match row {
        Some(lease) => Some(lease@),
        None => None,
    }
}

/// A lease that has been acquired.
#[derive(Debug)]
pub struct WriterLeaseGuard {
    pub holder_id: String,
    pub workspace_id: String,
    pub acquired_at: String,
    pub expires_at: String,
}

/// A moment, as text and in seconds and nanoseconds since the start of 1970.
#[derive(Debug)]
pub struct LeaseClock {
    pub text: String,
    pub unix: (i64, u32),
}

impl LeaseClock {
    /// The moment in seconds and nanoseconds.
    pub open spec fn moment(self) -> (int, int) {
        (self.unix.0 as int, self.unix.1 as int)
    }
}

/// What becomes of a request for the lease.
pub ghost enum LeaseDecision {
    Granted,
    Held { holder: Seq<char> },
    Unreadable { message: Seq<char> },
}

/// The lease is granted where there is none, to the one who holds it, and to
/// anyone once its heartbeat is stale.
pub open spec fn lease_decision(
    existing: Option<LeaseView>,
    holder: Seq<char>,
    now: (int, int),
    heartbeat_stale: std::time::Duration,
) -> LeaseDecision {
    match existing {
        None => LeaseDecision::Granted,
        Some(row) => if row.holder_id == holder {
            LeaseDecision::Granted
        } else {
            match stale_at(row.heartbeat_at, now, heartbeat_stale) {
                Err(message) => LeaseDecision::Unreadable { message },
                Ok(true) => LeaseDecision::Granted,
                Ok(false) => LeaseDecision::Held { holder: row.holder_id },
            }
        },
    }
}

/// The lease as it is stored for a new holder.
pub open spec fn granted_lease(holder: Seq<char>, now: Seq<char>, expires: Seq<char>) -> LeaseView {
    LeaseView {
        holder_id: holder,
        acquired_at: now,
        expires_at: expires,
        heartbeat_at: now,
        schema_writer_version: SCHEMA_WRITER_VERSION as int,
    }
}

/// Requests the writer lease of a workspace. What comes back is the lease to store,
/// in place of the existing one, and the guard of its holder.
pub fn acquire_writer_lease(
    existing: &Option<LeaseRow>,
    workspace_id: &str,
    holder_id: &str,
    now: &LeaseClock,
    expires_at: &str,
    heartbeat_stale: std::time::Duration,
) -> (r: Result<(LeaseRow, WriterLeaseGuard), AtlasError>)
    ensures
        match lease_decision(lease_view(*existing), holder_id@, now.moment(), heartbeat_stale) {
            LeaseDecision::Granted => r matches Ok((row, guard)) && row@ == granted_lease(
                holder_id@,
                now.text@,
                expires_at@,
            ) && guard.holder_id@ == holder_id@ && guard.workspace_id@ == workspace_id@
                && guard.acquired_at@ == now.text@ && guard.expires_at@ == expires_at@,
            LeaseDecision::Held { holder } => r matches Err(
                AtlasError::WriterLeaseHeld { holder: found },
            ) && found@ == holder,
            LeaseDecision::Unreadable { message } => r matches Err(AtlasError::Other(m)) && m@
                == message,
        },
{
    if let Some(row) = existing {
        if !text_eq(row.holder_id.as_str(), holder_id) {
            match heartbeat_is_stale(row.heartbeat_at.as_str(), now.unix, heartbeat_stale) {
                Err(problem) => return Err(problem),
                Ok(stale) => if !stale {
                    return Err(AtlasError::WriterLeaseHeld { holder: row.holder_id.clone() });
                },
            }
        }
    }
    let row = LeaseRow {
        holder_id: holder_id.to_string(),
        acquired_at: now.text.clone(),
        expires_at: expires_at.to_string(),
        heartbeat_at: now.text.clone(),
        schema_writer_version: SCHEMA_WRITER_VERSION,
    };
    let guard = WriterLeaseGuard {
        holder_id: holder_id.to_string(),
        workspace_id: workspace_id.to_string(),
        acquired_at: now.text.clone(),
        expires_at: expires_at.to_string(),
    };
    Ok((row, guard))
}

/// Refreshes the heartbeat of a lease. Only its holder can.
pub fn heartbeat_writer_lease(
    existing: Option<LeaseRow>,
    holder_id: &str,
    now: &str,
    expires_at: &str,
) -> (r: Result<LeaseRow, AtlasError>)
    ensures
        match lease_view(existing) {
            Some(row) => if row.holder_id == holder_id@ {
                r matches Ok(kept) && kept@ == (LeaseView {
                    heartbeat_at: now@,
                    expires_at: expires_at@,
                    ..row
                })
            } else {
                r matches Err(AtlasError::WriterLeaseExpired { stale_secs }) && stale_secs == 0
            },
            None => r matches Err(AtlasError::WriterLeaseExpired { stale_secs }) && stale_secs == 0,
        },
{
    match existing {
        Some(row) => if text_eq(row.holder_id.as_str(), holder_id) {
            Ok(
                LeaseRow {
                    holder_id: row.holder_id,
                    acquired_at: row.acquired_at,
                    expires_at: expires_at.to_string(),
                    heartbeat_at: now.to_string(),
                    schema_writer_version: row.schema_writer_version,
                },
            )
        } else {
            Err(AtlasError::WriterLeaseExpired { stale_secs: 0 })
        },
        None => Err(AtlasError::WriterLeaseExpired { stale_secs: 0 }),
    }
}

/// Releases a lease. Only succeeds for the holder that the row names; anyone else is
/// told who holds the lease, and the row stays as it is.
pub fn release_writer_lease(lease: &mut Option<LeaseRow>, holder_id: &str) -> (r: Result<
    (),
    AtlasError,
>)
    ensures
        match lease_view(*old(lease)) {
            Some(row) => if row.holder_id == holder_id@ {
                r is Ok && *final(lease) is None
            } else {
                &&& r matches Err(AtlasError::WriterLeaseHeld { holder }) && holder@
                    == row.holder_id
                &&& *final(lease) == *old(lease)
            },
            None => {
                &&& r matches Err(AtlasError::WriterLeaseExpired { stale_secs }) && stale_secs == 0
                &&& *final(lease) is None
            },
        },
{
    match &*lease {
        Some(row) => if !text_eq(row.holder_id.as_str(), holder_id) {
            return Err(AtlasError::WriterLeaseHeld { holder: row.holder_id.clone() });
        },
        None => return Err(AtlasError::WriterLeaseExpired { stale_secs: 0 }),
    }
    *lease = None;
    Ok(())
}

/// One writer at a time: whoever was granted the lease keeps it against everyone
/// else for as long as its heartbeat is not stale, and may renew it at any time.
pub proof fn law_one_writer_at_a_time(
    holder: Seq<char>,
    other: Seq<char>,
    granted_at: Seq<char>,
    expires: Seq<char>,
    later: (int, int),
    heartbeat_stale: std::time::Duration,
)
    requires
        other != holder,
        stale_at(granted_at, later, heartbeat_stale) == Ok::<bool, Seq<char>>(false),
    ensures
        ({
            let stored = Some(granted_lease(holder, granted_at, expires));
            &&& lease_decision(stored, other, later, heartbeat_stale) == (LeaseDecision::Held {
                holder,
            })
            &&& lease_decision(stored, holder, later, heartbeat_stale) == LeaseDecision::Granted
        }),
{
}

/// A lease whose heartbeat is stale can be taken over, and a lease that was
/// released can be acquired, by anyone.
pub proof fn law_leases_can_be_recovered(
    stored: LeaseView,
    other: Seq<char>,
    now: (int, int),
    heartbeat_stale: std::time::Duration,
)
    ensures
        stale_at(stored.heartbeat_at, now, heartbeat_stale) == Ok::<bool, Seq<char>>(true)
            ==> lease_decision(Some(stored), other, now, heartbeat_stale) == LeaseDecision::Granted,
        lease_decision(None, other, now, heartbeat_stale) == LeaseDecision::Granted,
{
}

/// The lower-case hexadecimal numeral of a natural number, without leading zeros.
pub open spec fn hexadecimal(n: nat) -> Seq<char>
    decreases n,
{
    if n < 16 {
        seq![digest::hex_digit(n as int)]
    } else {
        hexadecimal(n / 16).push(digest::hex_digit((n % 16) as int))
    }
}

fn append_hexadecimal(out: &mut String, n: u128)
    ensures
        final(out)@ == old(out)@ + hexadecimal(n as nat),
    decreases n,
{
    if n >= 16 {
        append_hexadecimal(out, n / 16);
    }
    let d: u8 = (n % 16) as u8;
    let c: char = if d < 10 {
        (48 + d) as char
    } else {
        (87 + d) as char
    };
    out.push(c);
    proof {
        if n >= 16 {
            assert(old(out)@ + hexadecimal((n / 16) as nat) + seq![c] =~= old(out)@ + hexadecimal(
                n as nat,
            ));
        } else {
            assert(out@ =~= old(out)@ + hexadecimal(n as nat));
        }
    }
}

/// Who holds a lease: the host, the process and the moment in nanoseconds.
pub fn holder_id(hostname: &str, pid: u32, nanos: u128) -> (r: String)
    ensures
        r@ == hostname@ + "-"@ + text::decimal(pid as nat) + "-"@ + hexadecimal(nanos as nat),
{
    let mut out = join2(hostname, "-");
    append_decimal(&mut out, pid as u64);
    out.append("-");
    append_hexadecimal(&mut out, nanos);
    out
}

proof fn lemma_hexadecimal_injective(a: nat, b: nat)
    requires
        hexadecimal(a) == hexadecimal(b),
    ensures
        a == b,
    decreases a,
{
    let x = hexadecimal(a);
    let y = hexadecimal(b);
    lemma_hexadecimal_len(a);
    lemma_hexadecimal_len(b);
    assert(x.last() == y.last());
    let da = (a % 16) as int;
    let db = (b % 16) as int;
    if a < 16 || b < 16 {
        assert(a < 16 && b < 16);
        assert(x.last() == digest::hex_digit(a as int));
        assert(y.last() == digest::hex_digit(b as int));
        assert(digest::hex_value(digest::hex_digit(a as int)) == Some(a as int));
        assert(digest::hex_value(digest::hex_digit(b as int)) == Some(b as int));
    } else {
        assert(x == hexadecimal(a / 16).push(digest::hex_digit(da)));
        assert(y == hexadecimal(b / 16).push(digest::hex_digit(db)));
        assert(x.drop_last() =~= hexadecimal(a / 16));
        assert(y.drop_last() =~= hexadecimal(b / 16));
        lemma_hexadecimal_injective(a / 16, b / 16);
        assert(x.last() == digest::hex_digit(da));
        assert(y.last() == digest::hex_digit(db));
        assert(digest::hex_value(digest::hex_digit(da)) == Some(da));
        assert(digest::hex_value(digest::hex_digit(db)) == Some(db));
        assert(da == db);
        assert(a == 16 * (a / 16) + a % 16);
        assert(b == 16 * (b / 16) + b % 16);
    }
}

proof fn lemma_hexadecimal_len(n: nat)
    ensures
        hexadecimal(n).len() >= 1,
        n >= 16 ==> hexadecimal(n).len() >= 2,
    decreases n,
{
    if n >= 16 {
        lemma_hexadecimal_len(n / 16);
    }
}

/// Holders of one process at two moments have two identities.
pub proof fn law_holder_ids_differ(hostname: Seq<char>, pid: nat, a: nat, b: nat)
    requires
        a != b,
    ensures
        hostname + "-"@ + text::decimal(pid) + "-"@ + hexadecimal(a) != hostname + "-"@
            + text::decimal(pid) + "-"@ + hexadecimal(b),
{
    let head = hostname + "-"@ + text::decimal(pid) + "-"@;
    if head + hexadecimal(a) == head + hexadecimal(b) {
        assert((head + hexadecimal(a)).skip(head.len() as int) =~= hexadecimal(a));
        assert((head + hexadecimal(b)).skip(head.len() as int) =~= hexadecimal(b));
        lemma_hexadecimal_injective(a, b);
    }
}

} // verus!
