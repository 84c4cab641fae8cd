//! The system clock.
use vstd::prelude::*;
use crate::calendar::{iso_from_unix, iso_text};
use crate::text::{decimal, opt_text, u64_text};
use std::time::{Duration, SystemTime, SystemTimeError};

verus! {

#[verifier::external_type_specification]
#[verifier::external_body]
pub struct ExSystemTime(SystemTime);

#[verifier::external_type_specification]
#[verifier::external_body]
pub struct ExSystemTimeError(SystemTimeError);

/// `SystemTime::now` of std: the time by the clock of the machine.
pub assume_specification[ SystemTime::now ]() -> SystemTime
;

/// `SystemTime::duration_since` of std, from the Unix epoch on: an error where the time is
/// before it.
#[verifier::external_body]
fn since_epoch(t: SystemTime) -> Result<Duration, SystemTimeError> {
    t.duration_since(std::time::UNIX_EPOCH)
}

/// `Duration::as_secs` of std: the whole seconds.
#[verifier::external_body]
fn whole_seconds(d: Duration) -> u64 {
    d.as_secs()
}

/// The whole seconds since 1970; nothing where the clock stands before it. Nothing is known
/// of a reading: what is made of it is said of the functions that take one.
pub fn clock_seconds() -> Option<u64> {
    match since_epoch(SystemTime::now()) {
        Ok(d) => Some(whole_seconds(d)),
        Err(_) => None,
    }
}

/// The timestamp of a reading of the clock.
pub fn timestamp_of(secs: Option<u64>) -> (r: Option<i64>)
    ensures
        r == match secs {
            Some(s) => Some(s as i64),
            None => None::<i64>,
        },
{
    match secs {
        Some(s) => Some(s as i64),
        None => None,
    }
}

/// The current time in seconds since 1970; nothing where the clock stands before it.
pub fn unix_timestamp() -> Option<i64> {
    timestamp_of(clock_seconds())
}

/// The current time in seconds since 1970, as the farm reads it.
pub fn unix_now() -> Option<i64> {
    unix_timestamp()
}

/// The date and time of a reading of the clock. A clock before 1970 counts as 1970.
pub fn iso_of(secs: Option<u64>) -> (r: String)
    ensures
        r@ == iso_text(
            match secs {
                Some(s) => s as int,
                None => 0,
            },
        ),
{
    match secs {
        Some(s) => iso_from_unix(s),
        None => iso_from_unix(0),
    }
}

/// The current UTC time as `YYYY-MM-DDTHH:MM:SSZ`.
pub fn unix_timestamp_iso() -> (r: String)
    ensures
        exists|s: u64| r@ == #[trigger] iso_text(s as int),
{
    let secs = clock_seconds();
    let r = iso_of(secs);
    proof {
        let s: u64 = match secs {
            Some(s) => s,
            None => 0,
        };
        assert(r@ == iso_text(s as int));
    }
    r
}

/// The decimal text of a reading of the clock.
pub fn seconds_text(secs: Option<u64>) -> (r: Option<String>)
    ensures
        opt_text(r) == match secs {
            Some(s) => Some(decimal(s as nat)),
            None => None::<Seq<char>>,
        },
{
    match secs {
        Some(s) => Some(u64_text(s)),
        None => None,
    }
}

/// The current time in seconds since 1970, in decimal; nothing where the clock stands
/// before it.
pub fn chrono_now() -> (r: Option<String>)
    ensures
        r matches Some(t) ==> exists|s: u64| t@ == #[trigger] decimal(s as nat),
{
    seconds_text(clock_seconds())
}

/// What is made of a reading of the clock is that reading: as a timestamp, as a date and as
/// digits. A clock that stands before 1970 gives no timestamp and no digits.
pub proof fn a_reading_is_what_is_told(
    secs: Option<u64>,
    t: Option<i64>,
    iso: String,
    text: Option<String>,
    again: String,
    digits: String,
)
    requires
        call_ensures(timestamp_of, (secs,), t),
        call_ensures(iso_of, (secs,), iso),
        call_ensures(seconds_text, (secs,), text),
        call_ensures(
            iso_from_unix,
            (match secs {
                Some(s) => s,
                None => 0u64,
            },),
            again,
        ),
        call_ensures(
            u64_text,
            (match secs {
                Some(s) => s,
                None => 0u64,
            },),
            digits,
        ),
    ensures
        t is Some <==> secs is Some,
        secs matches Some(s) ==> (s <= i64::MAX ==> t->0 == s),
        iso@ == again@,
        text is Some <==> secs is Some,
        text matches Some(d) ==> d@ == digits@,
{
}

} // verus!
