//! Scanning where the host hides device addresses.

use crate::discovery::{display_name, key_of, seen_keys, sighting_views};
use crate::discovery::{SeenDevices, Sighting, SightingView};
use crate::names::{same_ignoring_ascii_case, sanitize_name, sanitized};
use crate::scanner::{Platform, ScanError, ScanPlan};
use vstd::prelude::*;

verus! {

/// Whether sighting `i` of `round` is a match: the first sighting of its
/// device, the sightings of `earlier` polls counted, and of the name
/// `target` but for the case of ASCII letters.
pub open spec fn is_fresh_match(
    earlier: Seq<SightingView>,
    round: Seq<SightingView>,
    target: Seq<char>,
    i: int,
) -> bool {
    &&& !seen_keys(earlier + round.take(i)).contains(key_of(round[i]))
    &&& same_ignoring_ascii_case(display_name(round[i].local_name), sanitized(target))
}

/// The positions below `upto` of the matches in `round`, in rising order.
pub open spec fn fresh_matches(
    earlier: Seq<SightingView>,
    round: Seq<SightingView>,
    target: Seq<char>,
    upto: int,
) -> Seq<int>
    decreases upto,
{
    if upto <= 0 {
        Seq::empty()
    } else if is_fresh_match(earlier, round, target, upto - 1) {
        fresh_matches(earlier, round, target, upto - 1).push(upto - 1)
    } else {
        fresh_matches(earlier, round, target, upto - 1)
    }
}

/// What one poll contributes to a scan by name: every match of the poll
/// where the scan is interactive, and the first match alone where it is
/// not.
pub open spec fn round_matches(
    earlier: Seq<SightingView>,
    round: Seq<SightingView>,
    target: Seq<char>,
    interactive: bool,
) -> Seq<int> {
    let all = fresh_matches(earlier, round, target, round.len() as int);
    if interactive || all.len() == 0 {
        all
    } else {
        seq![all[0]]
    }
}

/// Looks through one poll of the adapter for devices of the name `target`.
///
/// `earlier` holds what the polls before this one reported, `round` what
/// this one reports. A device counts once, at its first sighting. Returns
/// the positions in `round` of the devices found: all of them where the
/// scan is interactive, the first alone where it is not. Where the result
/// is not empty the scan is over; where it is empty the adapter is polled
/// again after the usual pause, while the time of the scan lasts.
pub fn scan_for_device_by_name(
    earlier: &Vec<Sighting>,
    round: &Vec<Sighting>,
    target: &str,
    interactive: bool,
) -> (matches: Vec<usize>)
    ensures
        matches@.map_values(|i: usize| i as int) == round_matches(
            sighting_views(earlier@),
            sighting_views(round@),
            target@,
            interactive,
        ),
{
    let ghost before = sighting_views(earlier@);
    let ghost now = sighting_views(round@);
    let sanitized_target = sanitize_name(target);
    let mut seen = SeenDevices::new();
    let mut e: usize = 0;
    while e < earlier.len()
        invariant
            e <= earlier@.len(),
            before == sighting_views(earlier@),
            seen.wf(),
            seen.keys() == seen_keys(before.take(e as int)),
        decreases earlier@.len() - e,
    {
        proof {
            assert(before.take(e + 1).drop_last() =~= before.take(e as int));
        }
        seen.insert(earlier[e].key());
        e += 1;
    }
    proof {
        assert(before.take(e as int) =~= before);
    }
    let mut matches: Vec<usize> = Vec::new();
    let mut i: usize = 0;
    while i < round.len()
        invariant
            i <= round@.len(),
            before == sighting_views(earlier@),
            now == sighting_views(round@),
            sanitized_target@ == sanitized(target@),
            seen.wf(),
            seen.keys() == seen_keys(before + now.take(i as int)),
            matches@.map_values(|i: usize| i as int) == fresh_matches(
                before,
                now,
                target@,
                i as int,
            ),
            interactive || matches@.len() == 0,
        decreases round@.len() - i,
    {
        proof {
            let grown = before + now.take(i + 1);
            assert(grown.drop_last() =~= before + now.take(i as int));
        }
        let name = round[i].shown_name();
        let fresh = seen.insert(round[i].key());
        if fresh && name.as_str().eq_ignore_ascii_case(sanitized_target.as_str()) {
            matches.push(i);
            if !interactive {
                proof {
                    assert(fresh_matches(before, now, target@, i + 1) =~= seq![i as int]);
                    lemma_first_match_stays(before, now, target@, i as int, round@.len() as int);
                }
                return matches;
            }
        }
        i += 1;
    }
    matches
}

/// The matches found among the first sightings of a poll stay the first
/// matches when more of the poll is looked at.
proof fn lemma_first_match_stays(
    earlier: Seq<SightingView>,
    round: Seq<SightingView>,
    target: Seq<char>,
    at: int,
    upto: int,
)
    requires
        0 <= at < upto,
        fresh_matches(earlier, round, target, at + 1) == seq![at],
    ensures
        fresh_matches(earlier, round, target, upto).len() > 0,
        fresh_matches(earlier, round, target, upto)[0] == at,
    decreases upto - at,
{
    if upto > at + 1 {
        lemma_first_match_stays(earlier, round, target, at, upto - 1);
    }
}

/// Plans the scan.
///
/// With a name, the scan looks for devices of that name; without, it
/// collects what it sees and lets the user pick. Planning never fails.
pub fn scan_device(device_name: Option<String>, interactive: bool) -> (plan: Result<
    ScanPlan,
    ScanError,
>)
    ensures
        match device_name {
            Some(wanted) => plan matches Ok(ScanPlan::ScanByName { name, interactive: asks })
                && name@ == wanted@ && asks == interactive,
            None => plan matches Ok(ScanPlan::CollectAndAsk { platform: Platform::MacOs }),
        },
{
    match device_name {
        Some(name) => Ok(ScanPlan::ScanByName { name, interactive }),
        None => Ok(ScanPlan::CollectAndAsk { platform: Platform::MacOs }),
    }
}

} // verus!
