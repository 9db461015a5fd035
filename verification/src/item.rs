//! The normalized record for one directory entry, and its validating
//! factory: a raw entry's plain metadata values go in, a well-formed
//! [`DirectoryItem`] or a typed error comes out.

use vstd::prelude::*;

verus! {

use crate::text::{dec_seq, lpad, push_char, push_repeat, u64_to_string, repeat_char};
use crate::utils::{is_file_hidden, is_hidden_name, is_perm_char, mode_to_rwx, rwx_seq};
use vstd::string::{StrSliceExecFns, StringExecFns};

/// A calendar date, no time of day: the year, month and day as plain
/// values. The year is held as a `u16`, so only years 0 through 65535 are
/// representable — a creation time outside them counts as missing and its
/// entry is omitted — and a year above 9999 widens the rendered date by a
/// digit.
#[derive(Clone, Copy, Debug, PartialEq, Eq, Structural)]
pub struct Date {
    pub year: u16,
    pub month: u8,
    pub day: u8,
}

impl Date {
    /// A well-formed date: month and day within calendar bounds.
    pub open spec fn wf(self) -> bool {
        1 <= self.month <= 12 && 1 <= self.day <= 31
    }

    /// Validating constructor: `Some` exactly when month and day are within
    /// calendar bounds.
    pub fn new(year: u16, month: u8, day: u8) -> (r: Option<Date>)
        ensures
            r matches Some(d) ==> d == (Date { year, month, day }) && d.wf(),
            r is Some <==> (Date { year, month, day }).wf(),
    {
        if 1 <= month && month <= 12 && 1 <= day && day <= 31 {
            Some(Date { year, month, day })
        } else {
            None
        }
    }
}

/// The rendering of a date as `YYYY-MM-DD`: year zero-padded to four
/// digits, month and day to two.
pub open spec fn date_seq(d: Date) -> Seq<char> {
    lpad('0', dec_seq(d.year as int), 4) + seq!['-'] + lpad('0', dec_seq(d.month as int), 2)
        + seq!['-'] + lpad('0', dec_seq(d.day as int), 2)
}

/// Appends a decimal rendering of `n`, zero-padded on the left to `w`
/// digits.
fn push_padded_number(out: &mut String, n: u64, w: usize)
    ensures
        final(out)@ == old(out)@ + lpad('0', dec_seq(n as int), w as int),
{
    let digits = u64_to_string(n);
    let len = digits.as_str().unicode_len();
    if len < w {
        push_repeat(out, '0', w - len);
    } else {
        proof {
            assert(repeat_char('0', w - dec_seq(n as int).len()) =~= Seq::<char>::empty());
        }
    }
    out.append(digits.as_str());
    proof {
        assert(old(out)@ + (repeat_char('0', w - dec_seq(n as int).len()) + dec_seq(n as int))
            =~= (old(out)@ + repeat_char('0', w - dec_seq(n as int).len())) + dec_seq(n as int));
    }
}

/// The `YYYY-MM-DD` rendering of a date.
pub fn date_string(d: &Date) -> (r: String)
    ensures
        r@ == date_seq(*d),
{
    let mut out = String::new();
    push_padded_number(&mut out, d.year as u64, 4);
    push_char(&mut out, '-');
    push_padded_number(&mut out, d.month as u64, 2);
    push_char(&mut out, '-');
    push_padded_number(&mut out, d.day as u64, 2);
    proof {
        assert(out@ =~= date_seq(*d));
    }
    out
}

/// Why one directory entry could not be normalized. A failure of this kind
/// is recoverable: the entry is omitted, the listing goes on.
#[derive(Clone, Copy, Debug, PartialEq, Eq, Structural)]
pub enum MetadataError {
    /// The entry's name could not be decoded as text (or was empty).
    InvalidName,
    /// The filesystem exposes no creation time for the entry.
    MissingCreationTime,
}

/// One normalized directory entry: immutable once constructed.
#[derive(Debug, PartialEq)]
pub struct DirectoryItem {
    /// Name of the item within the directory.
    pub name: String,
    /// Whether the item is a directory.
    pub is_dir: bool,
    /// Whether the item is hidden, that is, its name begins with `.`.
    pub is_hidden: bool,
    /// File permissions decoded as nine `rwx`/`-` characters.
    pub file_permissions: String,
    /// The calendar date the item was created on, in local time.
    pub created_at: Date,
    /// Total file size in bytes.
    pub size: u64,
}

impl DirectoryItem {
    /// A well-formed record: non-empty name, the hidden flag derived from
    /// the name, a nine-character permission string, a well-formed date.
    pub open spec fn wf(self) -> bool {
        &&& self.name@.len() > 0
        &&& self.is_hidden == is_hidden_name(self.name@)
        &&& self.file_permissions@.len() == 9
        &&& forall|i: int|
            0 <= i < self.file_permissions@.len() ==> is_perm_char(self.file_permissions@[i])
        &&& self.created_at.wf()
    }
}

/// Normalize one raw directory entry from its plain metadata values: the
/// name as decoded text (`None` when undecodable), the directory flag, the
/// platform mode bits, the size, and the creation date (`None` when the
/// filesystem exposes none). An undecodable or empty name is rejected as
/// [`MetadataError::InvalidName`], a missing creation date as
/// [`MetadataError::MissingCreationTime`]; on every other input the
/// normalized record is returned, its hidden flag and permission string
/// derived from the name and the mode bits.
pub fn enrich(
    name: Option<String>,
    is_dir: bool,
    mode: u32,
    size: u64,
    created_at: Option<Date>,
) -> (r: Result<DirectoryItem, MetadataError>)
    ensures
        r is Ok <==> (name matches Some(n) && n@.len() > 0 && created_at is Some),
        r matches Ok(item) ==> {
            &&& item.name@ == name.unwrap()@
            &&& item.is_dir == is_dir
            &&& item.is_hidden == is_hidden_name(name.unwrap()@)
            &&& item.file_permissions@ == rwx_seq(mode)
            &&& item.created_at == created_at.unwrap()
            &&& item.size == size
            &&& created_at.unwrap().wf() ==> item.wf()
        },
        r matches Err(e) ==> {
            &&& (e == MetadataError::InvalidName <==> (name is None || name.unwrap()@.len()
                == 0))
            &&& (e == MetadataError::MissingCreationTime <==> (name matches Some(n) && n@.len()
                > 0 && created_at is None))
        },
{
    let n = match name {
        Some(n) => n,
        None => {
            return Err(MetadataError::InvalidName);
        },
    };
    if n.as_str().unicode_len() == 0 {
        return Err(MetadataError::InvalidName);
    }
    let d = match created_at {
        Some(d) => d,
        None => {
            return Err(MetadataError::MissingCreationTime);
        },
    };
    let hidden = is_file_hidden(&n);
    let perms = mode_to_rwx(mode);
    Ok(
        DirectoryItem {
            name: n,
            is_dir,
            is_hidden: hidden,
            file_permissions: perms,
            created_at: d,
            size,
        },
    )
}

/// Normalize one raw directory entry whose creation time is still the raw
/// filesystem timestamp: the timestamp is first converted to a local
/// calendar date. The date depends on the machine's time zone, so of the
/// returned record everything but the date value itself is pinned; the
/// date is at least well-formed. A failing timestamp conversion counts as
/// a missing creation time.
pub fn enrich_with_system_time(
    name: Option<String>,
    is_dir: bool,
    mode: u32,
    size: u64,
    created_at: Option<std::time::SystemTime>,
) -> (r: Result<DirectoryItem, MetadataError>)
    ensures
        r matches Ok(item) ==> {
            &&& name matches Some(n) && n@.len() > 0
            &&& created_at is Some
            &&& item.name@ == name.unwrap()@
            &&& item.is_dir == is_dir
            &&& item.is_hidden == is_hidden_name(name.unwrap()@)
            &&& item.file_permissions@ == rwx_seq(mode)
            &&& item.size == size
            &&& item.wf()
        },
        r == Err::<DirectoryItem, MetadataError>(MetadataError::InvalidName) <==> (name is None
            || name.unwrap()@.len() == 0),
        name matches Some(n) && n@.len() > 0 && created_at is None ==> r == Err::<
            DirectoryItem,
            MetadataError,
        >(MetadataError::MissingCreationTime),
{
    let date = match created_at {
        Some(t) => system_time_to_local_date(t),
        None => None,
    };
    enrich(name, is_dir, mode, size, date)
}

#[verifier::external_type_specification]
#[verifier::external_body]
pub struct ExSystemTime(std::time::SystemTime);

#[verifier::external_type_specification]
#[verifier::external_body]
pub struct ExSystemTimeError(std::time::SystemTimeError);

/// Relies on std's `SystemTime::duration_since`, measured against the unix
/// epoch: the span since the epoch, or the error carrying the span by
/// which the time precedes it. It never panics.
#[verifier::external_body]
fn epoch_delta(t: std::time::SystemTime) -> Result<std::time::Duration, std::time::SystemTimeError> {
    t.duration_since(std::time::UNIX_EPOCH)
}

/// Relies on std's `Duration::as_secs`: the whole seconds of the span.
#[verifier::external_body]
fn duration_secs(d: &std::time::Duration) -> u64 {
    d.as_secs()
}

/// Relies on std's `Duration::subsec_nanos`: the fractional part of the
/// span in nanoseconds, documented to be less than one billion.
#[verifier::external_body]
fn duration_subsec_nanos(d: &std::time::Duration) -> (r: u32)
    ensures
        r < 1_000_000_000,
{
    d.subsec_nanos()
}

/// Relies on std's `SystemTimeError::duration`: the positive span by which
/// the measured time precedes its reference.
#[verifier::external_body]
fn error_duration(e: &std::time::SystemTimeError) -> std::time::Duration {
    e.duration()
}

/// Relies on chrono: `DateTime::from_timestamp` builds the UTC time for a
/// unix timestamp, returning `None` (never panicking) for one outside its
/// representable range, `with_timezone(&Local)` moves it to local time,
/// `date_naive` takes the date component, and `Datelike::year`/`month`/
/// `day` read it out, with `month` documented in `1..=12` and `day` in
/// `1..=31`, so the returned date is well-formed. `None` also when the
/// year falls outside the range a `u16` holds. The caller keeps the
/// timestamp far from the ends of chrono's range, where the shift to
/// local time could overflow. The result depends on the machine's time
/// zone, so the date itself is not pinned.
#[verifier::external_body]
fn timestamp_to_local_date(secs: i64, nanos: u32) -> (r: Option<Date>)
    requires
        -2_200_000_000_000 <= secs <= 2_200_000_000_000,
        nanos < 1_000_000_000,
    ensures
        r matches Some(d) ==> d.wf(),
{
    let utc = chrono::DateTime::from_timestamp(secs, nanos)?;
    let date = utc.with_timezone(&chrono::Local).date_naive();
    match u16::try_from(chrono::Datelike::year(&date)) {
        Ok(year) => Some(
            Date {
                year,
                month: chrono::Datelike::month(&date) as u8,
                day: chrono::Datelike::day(&date) as u8,
            },
        ),
        Err(_) => None,
    }
}

/// Convert a filesystem timestamp into the calendar date it falls on in
/// the machine's local time zone. `None` when the date's year would fall
/// outside the range the [`Date`] model holds (0 through 65535): such a
/// timestamp counts as a missing creation time, so the entry is omitted
/// rather than the listing failing on it.
pub fn system_time_to_local_date(system_time: std::time::SystemTime) -> (r: Option<Date>)
    ensures
        r matches Some(d) ==> d.wf(),
{
    let (neg, secs, nanos) = match epoch_delta(system_time) {
        Ok(d) => (false, duration_secs(&d), duration_subsec_nanos(&d)),
        Err(e) => {
            let d = error_duration(&e);
            (true, duration_secs(&d), duration_subsec_nanos(&d))
        },
    };
    // every date of year 0 through 65535 lies within 2.1e12 seconds of the
    // epoch; beyond that the year cannot fit the model, and chrono's own
    // range ends further out still
    if secs > 2_100_000_000_000u64 {
        return None;
    }
    if !neg {
        timestamp_to_local_date(secs as i64, nanos)
    } else if nanos == 0 {
        timestamp_to_local_date(-(secs as i64), 0)
    } else {
        timestamp_to_local_date(-(secs as i64) - 1, 1_000_000_000 - nanos)
    }
}

} // verus!
