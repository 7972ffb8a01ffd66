//! Presentation state: the consumer's copy of the records, the table
//! selection, and the status classifications the rendering layer shows.
//!
//! Rendering itself (layout, styling, terminal handling) lives outside the
//! library; everything here is the decision logic behind it.

use vstd::prelude::*;

verus! {

use crate::datapoint::{Datapoint, DatapointView};

/// The records' mathematical content, in order.
pub open spec fn views_of(s: Seq<Datapoint>) -> Seq<DatapointView> {
    Seq::new(s.len(), |i: int| s[i]@)
}

/// How many records currently carry an error.
pub open spec fn count_errors(s: Seq<DatapointView>) -> nat
    decreases s.len(),
{
    if s.len() == 0 {
        0
    } else {
        count_errors(s.drop_last()) + (if s.last().error is Some {
            1nat
        } else {
            0nat
        })
    }
}

/// How many records currently carry a value.
pub open spec fn count_ok(s: Seq<DatapointView>) -> nat
    decreases s.len(),
{
    if s.len() == 0 {
        0
    } else {
        count_ok(s.drop_last()) + (if s.last().value is Some {
            1nat
        } else {
            0nat
        })
    }
}

/// The headline connection status shown over the table.
#[derive(Debug, Clone, Copy, PartialEq, Eq, Structural)]
pub enum HeaderStatus {
    /// Every record is in error (and there is at least one).
    AllErrors,
    /// Some records are in error; the count is carried along.
    SomeErrors(usize),
    /// No errors and at least one value has arrived.
    Connected,
    /// Nothing has arrived yet.
    Waiting,
}

/// Which headline status a set of records calls for.
pub open spec fn header_status_spec(s: Seq<DatapointView>) -> HeaderStatus {
    if count_errors(s) == s.len() && s.len() > 0 {
        HeaderStatus::AllErrors
    } else if count_errors(s) > 0 {
        HeaderStatus::SomeErrors(count_errors(s) as usize)
    } else if count_ok(s) > 0 {
        HeaderStatus::Connected
    } else {
        HeaderStatus::Waiting
    }
}

/// The status text shown for one record's table row: its error class while
/// erroring, "OK" once a value is held, "WAITING" before either.
pub open spec fn status_text_spec(d: DatapointView) -> Seq<char> {
    match d.error {
        Some(e) => e.kind.label_spec(),
        None => match d.value {
            Some(_) => "OK"@,
            None => "WAITING"@,
        },
    }
}

/// The status text for one record's table row.
pub fn status_text(dp: &Datapoint) -> (r: &'static str)
    ensures
        r@ == status_text_spec(dp@),
{
    match &dp.error {
        Some(e) => e.kind.label(),
        None => match &dp.value {
            Some(_) => "OK",
            None => "WAITING",
        },
    }
}

/// The table row the selection moves to on a downward step: wraps to the
/// top past the last row; an empty or untouched table selects the first.
pub open spec fn next_selection(sel: Option<usize>, len: nat) -> usize {
    match sel {
        Some(i) => if len == 0 || i >= len - 1 {
            0
        } else {
            (i + 1) as usize
        },
        None => 0,
    }
}

/// The table row the selection moves to on an upward step: wraps to the
/// bottom from the first row; an empty or untouched table selects the
/// first.
pub open spec fn previous_selection(sel: Option<usize>, len: nat) -> usize {
    match sel {
        Some(i) => if i == 0 {
            if len == 0 {
                0
            } else {
                (len - 1) as usize
            }
        } else {
            (i - 1) as usize
        },
        None => 0,
    }
}

/// Presentation state: the consumer's latest copied records plus what the
/// table currently highlights.
pub struct App {
    pub datapoints: Vec<Datapoint>,
    pub selected: Option<usize>,
    pub server_info: String,
    pub scan_interval: u64,
}

impl App {
    pub fn new(server_info: String, scan_interval: u64) -> (r: App)
        ensures
            r.datapoints@.len() == 0,
            r.selected is None,
            r.server_info == server_info,
            r.scan_interval == scan_interval,
    {
        App { datapoints: Vec::new(), selected: None, server_info, scan_interval }
    }

    /// Replace the displayed records with a fresh snapshot.
    pub fn update_datapoints(&mut self, datapoints: Vec<Datapoint>)
        ensures
            final(self).datapoints == datapoints,
            final(self).selected == old(self).selected,
            final(self).server_info == old(self).server_info,
            final(self).scan_interval == old(self).scan_interval,
    {
        self.datapoints = datapoints;
    }

    /// Move the selection one row down, wrapping past the end.
    pub fn next(&mut self)
        ensures
            final(self).selected == Some(
                next_selection(old(self).selected, old(self).datapoints@.len()),
            ),
            final(self).datapoints == old(self).datapoints,
            final(self).server_info == old(self).server_info,
            final(self).scan_interval == old(self).scan_interval,
    {
        let i = match self.selected {
            Some(i) => {
                if i >= self.datapoints.len().saturating_sub(1) {
                    0
                } else {
                    i + 1
                }
            },
            None => 0,
        };
        self.selected = Some(i);
    }

    /// Move the selection one row up, wrapping to the end.
    pub fn previous(&mut self)
        ensures
            final(self).selected == Some(
                previous_selection(old(self).selected, old(self).datapoints@.len()),
            ),
            final(self).datapoints == old(self).datapoints,
            final(self).server_info == old(self).server_info,
            final(self).scan_interval == old(self).scan_interval,
    {
        let i = match self.selected {
            Some(i) => {
                if i == 0 {
                    self.datapoints.len().saturating_sub(1)
                } else {
                    i - 1
                }
            },
            None => 0,
        };
        self.selected = Some(i);
    }

    /// Classify the headline status from the displayed records.
    pub fn header_status(&self) -> (r: HeaderStatus)
        ensures
            r == header_status_spec(views_of(self.datapoints@)),
    {
        let ghost all = views_of(self.datapoints@);
        let n = self.datapoints.len();
        let mut errors: usize = 0;
        let mut ok: usize = 0;
        let mut i: usize = 0;
        while i < n
            invariant
                i <= n,
                n == self.datapoints@.len(),
                all == views_of(self.datapoints@),
                errors == count_errors(all.take(i as int)),
                ok == count_ok(all.take(i as int)),
                errors <= i,
                ok <= i,
            decreases n - i,
        {
            proof {
                assert(all.take(i + 1).drop_last() =~= all.take(i as int));
                assert(all.take(i + 1).last() == all[i as int]);
            }
            if self.datapoints[i].error.is_some() {
                errors = errors + 1;
            }
            if self.datapoints[i].value.is_some() {
                ok = ok + 1;
            }
            i = i + 1;
        }
        proof {
            assert(all.take(n as int) =~= all);
        }
        if errors == n && n > 0 {
            HeaderStatus::AllErrors
        } else if errors > 0 {
            HeaderStatus::SomeErrors(errors)
        } else if ok > 0 {
            HeaderStatus::Connected
        } else {
            HeaderStatus::Waiting
        }
    }
}

} // verus!
