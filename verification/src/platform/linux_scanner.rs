//! Scanning where the host reports device addresses.

use crate::discovery::{sighting_views, Sighting, SightingView};
use crate::scanner::{Platform, ScanError, ScanPlan};
use vstd::prelude::*;

verus! {

/// What was given to name the device.
#[derive(Clone, Copy, Debug)]
pub enum AddressArg {
    /// Nothing was given.
    Missing,
    /// Something was given that is no device address.
    Invalid,
    /// The six bytes of the address given.
    Parsed([u8; 6]),
}

/// Plans the scan.
///
/// An interactive scan collects what it sees and lets the user pick; what
/// was given as the address plays no part. Otherwise an address is needed:
/// the scan fails at once where none was given or where what was given is
/// no address, and else waits for the device with that address.
pub fn scan_device(device_identifier: AddressArg, interactive: bool) -> (plan: Result<
    ScanPlan,
    ScanError,
>)
    ensures
        interactive ==> plan matches Ok(ScanPlan::CollectAndAsk { platform: Platform::Linux }),
        !interactive ==> match device_identifier {
            AddressArg::Missing => plan matches Err(ScanError::MissingAddress),
            AddressArg::Invalid => plan matches Err(ScanError::InvalidAddress),
            AddressArg::Parsed(wanted) => plan matches Ok(ScanPlan::AwaitAddress { address })
                && address == wanted,
        },
{
    if interactive {
        Ok(ScanPlan::CollectAndAsk { platform: Platform::Linux })
    } else {
        match device_identifier {
            AddressArg::Missing => Err(ScanError::MissingAddress),
            AddressArg::Invalid => Err(ScanError::InvalidAddress),
            AddressArg::Parsed(address) => Ok(ScanPlan::AwaitAddress { address }),
        }
    }
}

/// Whether `at` is the position of the first device in `round` whose
/// address is `address`.
pub open spec fn is_first_with_address(round: Seq<SightingView>, address: Seq<u8>, at: int)
    -> bool {
    &&& 0 <= at < round.len()
    &&& round[at].address == address
    &&& forall|j: int| 0 <= j < at ==> (#[trigger] round[j]).address != address
}

fn same_address(a: &[u8; 6], b: &[u8; 6]) -> (same: bool)
    ensures
        same == (a@ == b@),
{
    let mut i: usize = 0;
    while i < 6
        invariant
            i <= 6,
            forall|k: int| 0 <= k < i ==> a@[k] == b@[k],
        decreases 6 - i,
    {
        if a[i] != b[i] {
            return false;
        }
        i += 1;
    }
    assert(a@ =~= b@);
    true
}

/// Looks through one poll of the adapter for the device with `address`.
///
/// Returns the position of the first device with that address, or `None`
/// where the poll holds no such device and the adapter is to be polled
/// again after the usual pause.
pub fn find_by_address(round: &Vec<Sighting>, address: &[u8; 6]) -> (found: Option<usize>)
    ensures
        match found {
            Some(at) => is_first_with_address(sighting_views(round@), address@, at as int),
            None => forall|j: int|
                0 <= j < round@.len() ==> (#[trigger] sighting_views(round@)[j]).address
                    != address@,
        },
{
    let mut i: usize = 0;
    while i < round.len()
        invariant
            i <= round@.len(),
            forall|j: int|
                0 <= j < i ==> (#[trigger] sighting_views(round@)[j]).address != address@,
        decreases round@.len() - i,
    {
        if same_address(&round[i].address, address) {
            return Some(i);
        }
        i += 1;
    }
    None
}

} // verus!
