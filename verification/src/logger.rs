//! What a log printer decides for the log records that a device sends:
//! which records are new, and how long ago each was written.

use vstd::prelude::*;

verus! {

/// For how long a device has been up.
#[derive(Debug, Clone, Copy, PartialEq, Eq, Structural)]
pub struct Uptime {
    pub days: u64,
    pub hours: u64,
    pub mins: u64,
}

/// The uptime of a device whose clock shows `curr_ts` milliseconds.
pub fn uptime(curr_ts: u64) -> (r: Uptime)
    ensures
        r.days == curr_ts / 86_400_000,
        r.hours == curr_ts / 3_600_000 % 24,
        r.mins == curr_ts / 60_000 % 60,
{
    Uptime { days: curr_ts / 86_400_000, hours: curr_ts / 3_600_000 % 24, mins: curr_ts / 60_000 % 60 }
}

/// Whether a character ends a line of a log text.
pub fn ends_line(c: char) -> (r: bool)
    ensures
        r == (c == '\n' || c == '\r'),
{
    c == '\n' || c == '\r'
}

/// What a printer does with one message of log records.
#[derive(Debug, Clone, PartialEq, Eq)]
pub struct LogBatch {
    /// The device's clock went back: it has started anew.
    pub restarted: bool,
    /// For each record of the message, how many milliseconds ago it was
    /// written, or nothing if the record is not new.
    pub ages: Vec<Option<i64>>,
}

/// The time up to which records were shown, once a message with the
/// device time `curr_ts` has come: a clock that went back starts at 0.
pub open spec fn shown_up_to(last_ts: u64, curr_ts: u64) -> u64 {
    if last_ts > curr_ts {
        0
    } else {
        last_ts
    }
}

/// How long before `curr_ts` a record of time `ts` was written; a record
/// from after `curr_ts`, or from longer ago than fits, counts as written
/// at `curr_ts`.
pub open spec fn age_of(curr_ts: u64, ts: u64) -> i64 {
    if ts <= curr_ts && curr_ts - ts <= i64::MAX {
        (curr_ts - ts) as i64
    } else {
        0
    }
}

/// What is done with a record of time `ts`: one from before what was
/// shown is left out, any other is shown with its age.
pub open spec fn age_if_new(from: u64, curr_ts: u64, ts: u64) -> Option<i64> {
    if ts < from {
        None
    } else {
        Some(age_of(curr_ts, ts))
    }
}

/// The time of the last message of a device.
pub struct LogCursor {
    pub last_ts: u64,
}

impl LogCursor {
    /// The cursor of a device that has sent nothing.
    pub fn new() -> (r: LogCursor)
        ensures
            r.last_ts == 0,
    {
        LogCursor { last_ts: 0 }
    }

    /// Takes in a message with the device time `curr_ts` and the times
    /// `stamps` of its records, and moves on to `curr_ts`.
    pub fn advance(&mut self, curr_ts: u64, stamps: &[u64]) -> (r: LogBatch)
        ensures
            final(self).last_ts == curr_ts,
            r.restarted == (old(self).last_ts > curr_ts),
            r.ages@.len() == stamps@.len(),
            forall|i: int|
                0 <= i < stamps@.len() ==> #[trigger] r.ages@[i] == age_if_new(
                    shown_up_to(old(self).last_ts, curr_ts),
                    curr_ts,
                    stamps@[i],
                ),
    {
        let restarted = self.last_ts > curr_ts;
        let from: u64 = if restarted {
            0
        } else {
            self.last_ts
        };
        let mut ages: Vec<Option<i64>> = Vec::new();
        let mut i: usize = 0;
        while i < stamps.len()
            invariant
                i <= stamps@.len(),
                ages@.len() == i,
                from == shown_up_to(old(self).last_ts, curr_ts),
                forall|j: int|
                    0 <= j < i ==> #[trigger] ages@[j] == age_if_new(from, curr_ts, stamps@[j]),
            decreases stamps@.len() - i,
        {
            let ts = stamps[i];
            let age: Option<i64> = if ts < from {
                None
            } else if ts <= curr_ts && curr_ts - ts <= 0x7fff_ffff_ffff_ffff {
                Some((curr_ts - ts) as i64)
            } else {
                Some(0)
            };
            ages.push(age);
            i = i + 1;
        }
        self.last_ts = curr_ts;
        LogBatch { restarted, ages }
    }
}

} // verus!
