//! The ordered log of measurement samples.
//!
//! Samples are taken in acquisition runs. Each run numbers its samples from
//! zero: the ordinal a sample carries is its position within its own run,
//! not within the whole log.

use vstd::prelude::*;

use crate::text::csv_plain;

verus! {

/// Holds when every character of a timestamp belongs to the alphabet that
/// calendar formatting emits: digits, signs, and the date separators.
pub open spec fn timestamp_chars(s: Seq<char>) -> bool {
    forall|i: int|
        0 <= i < s.len() ==> ('0' <= s[i] <= '9' || s[i] == '-' || s[i] == '+' || s[i] == ' '
            || s[i] == ':' || s[i] == '.')
}

/// A decimal digit.
pub open spec fn ts_digit(c: char) -> bool {
    '0' <= c <= '9'
}

/// The year part of a timestamp: at least four digits, either unsigned or
/// after a single leading sign.
pub open spec fn year_digits(y: Seq<char>) -> bool {
    (y.len() >= 4 && forall|i: int| 0 <= i < y.len() ==> ts_digit(y[i])) || (y.len() >= 5 && (
    y[0] == '+' || y[0] == '-') && forall|i: int| 1 <= i < y.len() ==> ts_digit(y[i]))
}

/// A timestamp of the shape `year-month-day hour:minute:second.nanoseconds`:
/// the year as `year_digits`, then two-digit month, day, hour, minute and
/// second and nine digits of nanoseconds at fixed separators.
pub open spec fn timestamp_shape(s: Seq<char>) -> bool {
    let k = s.len() - 25;
    s.len() >= 29 && year_digits(s.subrange(0, k)) && s[k] == '-' && ts_digit(s[k + 1]) && ts_digit(
        s[k + 2],
    ) && s[k + 3] == '-' && ts_digit(s[k + 4]) && ts_digit(s[k + 5]) && s[k + 6] == ' ' && ts_digit(
        s[k + 7],
    ) && ts_digit(s[k + 8]) && s[k + 9] == ':' && ts_digit(s[k + 10]) && ts_digit(s[k + 11]) && s[k
        + 12] == ':' && ts_digit(s[k + 13]) && ts_digit(s[k + 14]) && s[k + 15] == '.' && (forall|
        j: int,
    |
        k + 16 <= j < k + 25 ==> ts_digit(s[j]))
}

/// A timestamp of that shape uses only the calendar alphabet.
pub proof fn lemma_shape_chars(s: Seq<char>)
    requires
        timestamp_shape(s),
    ensures
        timestamp_chars(s),
        s.len() >= 29,
{
    let k = s.len() - 25;
    let y = s.subrange(0, k);
    assert forall|i: int| 0 <= i < s.len() implies ('0' <= s[i] <= '9' || s[i] == '-' || s[i]
        == '+' || s[i] == ' ' || s[i] == ':' || s[i] == '.') by {
        if i < k {
            assert(s[i] == y[i]);
        }
    }
}

/// A timestamp is free of delimiters, quotes, and line breaks.
pub proof fn lemma_timestamp_plain(s: Seq<char>)
    requires
        timestamp_chars(s),
    ensures
        csv_plain(s),
{
}

/// Relies on chrono's `Local::now` and `DateTime::format` with the layout
/// `%Y-%m-%d %H:%M:%S.%f`: the year is written as at least four decimal
/// digits, signed only outside the years 0 through 9999; month, day, hour,
/// minute and second as two digits each; the nanoseconds as nine digits;
/// joined by the literal `-`, ` `, `:` and `.` separators.
#[verifier::external_body]
fn local_timestamp() -> (r: String)
    ensures
        timestamp_shape(r@),
{
    chrono::Local::now().format("%Y-%m-%d %H:%M:%S.%f").to_string()
}

/// One sample: its ordinal within its acquisition run, the moment it was
/// taken, and the measured length in micrometres.
pub struct Measurement {
    pub number: usize,
    pub timestamp: String,
    pub value_um: u64,
}

/// The samples taken so far, in the order they were taken, and the position
/// where the current acquisition run began.
pub struct MeasurementLog {
    measurements: Vec<Measurement>,
    batch_start: usize,
}

impl MeasurementLog {
    /// The samples the log holds, oldest first.
    pub closed spec fn view(&self) -> Seq<Measurement> {
        self.measurements@
    }

    /// The position where the current acquisition run began: the samples
    /// from here on belong to it and are numbered from zero.
    pub closed spec fn batch_start(&self) -> nat {
        self.batch_start as nat
    }

    /// The current run lies within the log, its samples carry their
    /// position within the run as their ordinal, and every timestamp is
    /// made only of calendar characters.
    pub open spec fn wf(&self) -> bool {
        self.batch_start() <= self@.len() && (forall|i: int|
            self.batch_start() <= i < self@.len() ==> (#[trigger] self@[i]).number == i
                - self.batch_start()) && (forall|i: int|
            0 <= i < self@.len() ==> timestamp_chars((#[trigger] self@[i]).timestamp@))
    }

    /// An empty log.
    pub fn new() -> (r: MeasurementLog)
        ensures
            r@ =~= Seq::<Measurement>::empty(),
            r.batch_start() == 0,
            r.wf(),
    {
        MeasurementLog { measurements: Vec::new(), batch_start: 0 }
    }

    /// How many samples the log holds.
    pub fn len(&self) -> (r: usize)
        ensures
            r == self@.len(),
    {
        self.measurements.len()
    }

    /// The sample at position `i`.
    pub fn get(&self, i: usize) -> (r: &Measurement)
        requires
            i < self@.len(),
        ensures
            *r == self@[i as int],
    {
        &self.measurements[i]
    }

    /// Begins a new acquisition run: the samples recorded from now on are
    /// numbered from zero again, whatever the log already holds.
    pub fn start_acquisition(&mut self)
        requires
            old(self).wf(),
        ensures
            final(self).wf(),
            final(self)@ == old(self)@,
            final(self).batch_start() == old(self)@.len(),
    {
        self.batch_start = self.measurements.len();
    }

    /// Appends a sample taken at `timestamp`; its ordinal is the count of
    /// samples the current run took before it.
    pub fn record(&mut self, timestamp: String, value_um: u64)
        requires
            old(self).wf(),
            timestamp_chars(timestamp@),
        ensures
            final(self).wf(),
            final(self).batch_start() == old(self).batch_start(),
            final(self)@ =~= old(self)@.push(
                Measurement {
                    number: (old(self)@.len() - old(self).batch_start()) as usize,
                    timestamp,
                    value_um,
                },
            ),
    {
        let number = self.measurements.len() - self.batch_start;
        self.measurements.push(Measurement { number, timestamp, value_um });
    }

    /// Appends a sample taken now: the timestamp comes from the system
    /// clock, so of the new entry only its ordinal, its value, and the
    /// shape of its timestamp are pinned down.
    pub fn record_now(&mut self, value_um: u64)
        requires
            old(self).wf(),
        ensures
            final(self).wf(),
            final(self).batch_start() == old(self).batch_start(),
            final(self)@.len() == old(self)@.len() + 1,
            final(self)@.subrange(0, old(self)@.len() as int) =~= old(self)@,
            final(self)@.last().number == old(self)@.len() - old(self).batch_start(),
            final(self)@.last().value_um == value_um,
            timestamp_shape(final(self)@.last().timestamp@),
            final(self)@.last().timestamp@.len() > 0,
    {
        let timestamp = local_timestamp();
        proof {
            lemma_shape_chars(timestamp@);
        }
        self.record(timestamp, value_um);
    }
}

} // verus!
