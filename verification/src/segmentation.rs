//! Segmentation of stored readings into activities.
//!
//! A pass looks at the readings that carry no label yet, proposes a label
//! for each, and writes the labels back. How a label is found is a policy
//! that is handed in as a value; this module's policy goes by the heart
//! rate alone. Whatever the policy, a reading that has a label keeps it.

use crate::history::{assign_labels, labelled_rows, reading_views, stored_bpm};
use crate::history::{HeartRateReading, ReadingView};
use vstd::prelude::*;

verus! {

/// What the wearer was doing.
#[derive(Clone, Copy, Debug, PartialEq, Eq, Structural)]
pub enum Activity {
    Inactive,
    Active,
    Sleep,
}

/// The number under which `activity` is stored.
pub open spec fn activity_code(activity: Activity) -> i64 {
    match activity {
        Activity::Inactive => 0,
        Activity::Active => 1,
        Activity::Sleep => 2,
    }
}

/// The heart rates that part sleep from rest and rest from activity.
#[derive(Clone, Copy, Debug, PartialEq, Eq, Structural)]
pub struct ActivityPolicy {
    /// A heart rate below this counts as sleep.
    pub sleep_below: u8,
    /// A heart rate of this or more, and not below `sleep_below`, counts as
    /// activity.
    pub active_from: u8,
}

/// The activity that `policy` sees in a heart rate of `bpm`.
pub open spec fn classified(policy: ActivityPolicy, bpm: u8) -> Activity {
    if bpm < policy.sleep_below {
        Activity::Sleep
    } else if bpm >= policy.active_from {
        Activity::Active
    } else {
        Activity::Inactive
    }
}

/// The label that `policy` proposes for `row`.
pub open spec fn proposed_label(policy: ActivityPolicy, row: ReadingView) -> i64 {
    activity_code(classified(policy, stored_bpm(row.bpm)))
}

/// The labels that `policy` proposes for `rows`, one for each row.
pub open spec fn proposed_labels(policy: ActivityPolicy, rows: Seq<ReadingView>) -> Seq<i64> {
    Seq::new(rows.len(), |i: int| proposed_label(policy, rows[i]))
}

impl Activity {
    /// The number under which this activity is stored.
    pub fn code(self) -> (code: i64)
        ensures
            code == activity_code(self),
    {
        match self {
            Activity::Inactive => 0,
            Activity::Active => 1,
            Activity::Sleep => 2,
        }
    }

    /// The activity stored under `code`, if there is one.
    pub fn from_code(code: i64) -> (activity: Option<Activity>)
        ensures
            match activity {
                Some(a) => activity_code(a) == code,
                None => code < 0 || code > 2,
            },
    {
        match code {
            0 => Some(Activity::Inactive),
            1 => Some(Activity::Active),
            2 => Some(Activity::Sleep),
            _ => None,
        }
    }
}

impl ActivityPolicy {
    /// The policy used where none is given: asleep below 50 beats a
    /// minute, active from 100.
    pub fn standard() -> (policy: ActivityPolicy)
        ensures
            policy == (ActivityPolicy { sleep_below: 50, active_from: 100 }),
    {
        ActivityPolicy { sleep_below: 50, active_from: 100 }
    }

    /// The activity that this policy sees in a heart rate of `bpm`.
    pub fn classify(&self, bpm: u8) -> (activity: Activity)
        ensures
            activity == classified(*self, bpm),
    {
        if bpm < self.sleep_below {
            Activity::Sleep
        } else if bpm >= self.active_from {
            Activity::Active
        } else {
            Activity::Inactive
        }
    }
}

/// Runs one segmentation pass over `rows`.
///
/// Every reading that is late enough and carries no label receives the
/// label that `policy` proposes for it. A reading that carries a label is
/// left as it is, so that a second pass finds nothing to do.
pub fn detect_events(rows: &mut Vec<HeartRateReading>, from: Option<i64>, policy: ActivityPolicy)
    ensures
        reading_views(final(rows)@) == labelled_rows(
            reading_views(old(rows)@),
            from,
            proposed_labels(policy, reading_views(old(rows)@)),
        ),
{
    let mut labels: Vec<i64> = Vec::new();
    let mut i: usize = 0;
    while i < rows.len()
        invariant
            i <= rows@.len(),
            rows@ == old(rows)@,
            labels@.len() == i,
            forall|k: int|
                0 <= k < i ==> #[trigger] labels@[k] == proposed_label(policy, rows@[k]@),
        decreases rows@.len() - i,
    {
        let stored = rows[i].bpm;
        let bpm: u8 = if 0 <= stored && stored <= 255 {
            stored as u8
        } else {
            u8::MAX
        };
        labels.push(policy.classify(bpm).code());
        i += 1;
    }
    assign_labels(rows, from, &labels);
}

/// Segmentation is deterministic and idempotent: the outcome of a pass is
/// a function of the rows, the bound and the policy, and a second pass,
/// under whatever policy, changes nothing.
pub proof fn lemma_detection_idempotent(
    rows: Seq<ReadingView>,
    from: Option<i64>,
    policy: ActivityPolicy,
    later: ActivityPolicy,
)
    ensures
        ({
            let once = labelled_rows(rows, from, proposed_labels(policy, rows));
            labelled_rows(once, from, proposed_labels(later, once)) == once
        }),
{
}

} // verus!
