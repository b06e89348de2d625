//! Times of day and durations as text.
use crate::numerals;
use crate::numerals::decimal_two_text;
use std::time::{Duration, SystemTime, SystemTimeError};
use vstd::prelude::*;
use vstd::string::*;

verus! {

#[verifier::external_type_specification]
#[verifier::external_body]
pub struct ExSystemTime(SystemTime);

#[verifier::external_type_specification]
#[verifier::external_body]
pub struct ExSystemTimeError(SystemTimeError);

/// `std::time::SystemTime::now`: the time that the machine's clock shows. Nothing is claimed of it.
#[verifier::external_body]
fn now() -> SystemTime {
    SystemTime::now()
}

/// `SystemTime::duration_since` the Unix epoch: how long after the epoch `t` lies, or an error where
/// it lies before. Nothing is claimed of either: both rest on the machine's clock.
#[verifier::external_body]
fn since_epoch(t: SystemTime) -> Result<Duration, SystemTimeError> {
    t.duration_since(std::time::UNIX_EPOCH)
}

/// `hh:mm:ss` of the day that `secs` seconds after the epoch fall in, in UTC.
pub open spec fn clock_text(secs: nat) -> Seq<char> {
    numerals::decimal_two(secs % 86400 / 3600) + seq![':'] + numerals::decimal_two(secs % 3600 / 60)
        + seq![':'] + numerals::decimal_two(secs % 60)
}

/// `mm:ss` of a duration; the minutes may pass 59.
pub open spec fn minutes_text(secs: nat) -> Seq<char> {
    numerals::decimal_two(secs / 60) + seq![':'] + numerals::decimal_two(secs % 60)
}

/// `Duration::as_secs`: the whole seconds of `d`. Nothing is claimed of the number: it comes from
/// the machine's clock.
#[verifier::external_body]
fn whole_secs(d: Duration) -> u64 {
    d.as_secs()
}

/// The text of the time of day that `secs` seconds after the epoch fall on.
pub fn clock_at(secs: u64) -> (r: String)
    ensures
        r@ == clock_text(secs as nat),
{
    proof {
        reveal_strlit(":");
    }
    let mut out: String = decimal_two_text(secs % 86400 / 3600);
    out.append(":");
    out.append(decimal_two_text(secs % 3600 / 60).as_str());
    out.append(":");
    out.append(decimal_two_text(secs % 60).as_str());
    assert(out@ =~= clock_text(secs as nat));
    out
}

/// The text of a duration in minutes and seconds.
pub fn minutes_at(secs: u64) -> (r: String)
    ensures
        r@ == minutes_text(secs as nat),
{
    proof {
        reveal_strlit(":");
    }
    let mut out: String = decimal_two_text(secs / 60);
    out.append(":");
    out.append(decimal_two_text(secs % 60).as_str());
    assert(out@ =~= minutes_text(secs as nat));
    out
}

/// The text of what a clock shows, in seconds after the epoch; midnight where it stands before the
/// epoch.
pub fn timestamp_of(reading: Option<u64>) -> (r: String)
    ensures
        r@ == clock_text(
            match reading {
                Some(s) => s as nat,
                None => 0,
            },
        ),
{
    match reading {
        Some(s) => clock_at(s),
        None => clock_at(0),
    }
}

/// The time of day that the machine's clock shows, in UTC; midnight where the clock stands before
/// the epoch.
pub fn timestamp() -> (r: String)
    ensures
        exists|secs: u64| r@ == #[trigger] clock_text(secs as nat),
{
    let reading: Option<u64> = match since_epoch(now()) {
        Ok(d) => Some(whole_secs(d)),
        Err(_) => None,
    };
    proof {
        // The second that is shown where the clock stands before the epoch.
        let midnight: u64 = 0;
        assert(clock_text(midnight as nat) == clock_text(0));
    }
    timestamp_of(reading)
}

/// A time of day has two digits for the hour, the minute and the second, each in its range.
pub proof fn law_clock_text_shape(secs: nat)
    ensures
        clock_text(secs).len() == 8,
        clock_text(secs)[2] == ':',
        clock_text(secs)[5] == ':',
        numerals::number_in(clock_text(secs).subrange(0, 2)) == Some(secs % 86400 / 3600),
        numerals::number_in(clock_text(secs).subrange(3, 5)) == Some(secs % 3600 / 60),
        numerals::number_in(clock_text(secs).subrange(6, 8)) == Some(secs % 60),
        secs % 86400 / 3600 < 24,
        secs % 3600 / 60 < 60,
        secs % 60 < 60,
{
    let h = secs % 86400 / 3600;
    let m = secs % 3600 / 60;
    let s = secs % 60;
    numerals::lemma_decimal_two(h);
    numerals::lemma_decimal_two(m);
    numerals::lemma_decimal_two(s);
    assert(clock_text(secs).subrange(0, 2) =~= numerals::decimal_two(h));
    assert(clock_text(secs).subrange(3, 5) =~= numerals::decimal_two(m));
    assert(clock_text(secs).subrange(6, 8) =~= numerals::decimal_two(s));
}

/// A clock text repeats after a day and not before: it names the second of the day.
pub proof fn law_clock_text_names_second_of_day(a: nat, b: nat)
    ensures
        clock_text(a) == clock_text(b) <==> a % 86400 == b % 86400,
{
    law_clock_text_shape(a);
    law_clock_text_shape(b);
    lemma_second_of_day(a);
    lemma_second_of_day(b);
}

/// The second of the day from the hour, the minute and the second.
proof fn lemma_second_of_day(secs: nat)
    ensures
        secs % 86400 == secs % 86400 / 3600 * 3600 + secs % 3600 / 60 * 60 + secs % 60,
        secs % 3600 == secs % 86400 % 3600,
        secs % 60 == secs % 86400 % 60,
{
}

/// A duration names its minutes and seconds: what stands before the colon is the minutes, however many,
/// with at least two digits, and the two digits behind it are the seconds.
pub proof fn law_minutes_text_names_the_duration(minutes: nat, seconds: nat)
    requires
        seconds < 60,
    ensures
        ({
            let t = minutes_text(60 * minutes + seconds);
            &&& t.len() >= 5
            &&& t[t.len() - 3] == ':'
            &&& numerals::number_in(t.subrange(0, t.len() - 3)) == Some(minutes)
            &&& numerals::number_in(t.subrange(t.len() - 2, t.len() as int)) == Some(seconds)
        }),
{
    let secs = 60 * minutes + seconds;
    let t = minutes_text(secs);
    assert(secs / 60 == minutes && secs % 60 == seconds);
    numerals::lemma_decimal_two(seconds);
    numerals::lemma_decimal(minutes);
    if minutes < 100 {
        numerals::lemma_decimal_two(minutes);
    } else {
        assert(numerals::decimal(minutes).len() >= 2) by {
            assert(numerals::decimal(minutes) == numerals::decimal(minutes / 10).push(
                numerals::digit(minutes % 10),
            ));
            numerals::lemma_decimal(minutes / 10);
        }
    }
    assert(t.subrange(0, t.len() - 3) =~= numerals::decimal_two(minutes));
    assert(t.subrange(t.len() - 2, t.len() as int) =~= numerals::decimal_two(seconds));
}

} // verus!
