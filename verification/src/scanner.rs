//! The decisions of a scan for the device to download from.
//!
//! How a device is found depends on the host. Where the host reports true
//! addresses, the device is named by its address and the scan waits for it.
//! Where it does not, the device is named by its advertised name and the
//! scan runs for a fixed time. Either way the user may instead pick from a
//! list of what was seen. The host is a value handed in, never something
//! this module finds out.

use crate::discovery::{label_of, Sighting, DEFAULT_SCAN_DURATION_SECS, POLL_INTERVAL_SECS};
use crate::names::{sanitize_name, sanitized, starts_with};
use vstd::prelude::*;
use vstd::string::StringExecFns;

verus! {

/// The host on which the scan runs.
#[derive(Clone, Copy, Debug, PartialEq, Eq, Structural)]
pub enum Platform {
    /// Devices are told apart by their address.
    Linux,
    /// Addresses are hidden; devices are told apart by name.
    MacOs,
}

/// What is settled about the host once, at the start, and handed to
/// whatever chooses an adapter or plans a scan.
#[derive(Clone, Copy, Debug, PartialEq, Eq, Structural)]
pub struct PlatformConfig {
    /// The host.
    pub platform: Platform,
    /// Whether settings taken from the environment that go by address, the
    /// adapter name and the device address, are disregarded.
    pub ignore_address_settings: bool,
}

/// The configuration for `platform`: where addresses are hidden, settings
/// of the environment that name an adapter or a device address mean
/// nothing and are disregarded.
pub fn initialize_platform_specific(platform: Platform) -> (config: PlatformConfig)
    ensures
        config.platform == platform,
        config.ignore_address_settings == (platform == Platform::MacOs),
{
    match platform {
        Platform::Linux => PlatformConfig { platform, ignore_address_settings: false },
        Platform::MacOs => PlatformConfig { platform, ignore_address_settings: true },
    }
}

impl PlatformConfig {
    /// The adapter name to go by, given the name that was set and whether
    /// it was taken from the environment: none where such settings are
    /// disregarded and the name came from there, and the name set
    /// otherwise.
    pub fn adapter_name(&self, ble_interface: Option<String>, from_environment: bool) -> (name:
        Option<String>)
        ensures
            name == if self.ignore_address_settings && from_environment {
                None::<String>
            } else {
                ble_interface
            },
    {
        if self.ignore_address_settings && from_environment {
            None
        } else {
            ble_interface
        }
    }
}

/// Why no device or adapter could be chosen.
#[derive(Debug)]
pub enum ScanError {
    /// The host has no adapter.
    NoAdapters,
    /// No adapter goes by the name given.
    AdapterNotFound(String),
    /// No address was given though the scan is not interactive.
    MissingAddress,
    /// The address given is not a device address.
    InvalidAddress,
    /// The scan by address list saw no device.
    NoDevicesFound,
    /// The scan without a name saw no device.
    NoDevicesAdvertising,
    /// The scan saw no device of the name given.
    NoDeviceWithName(String),
    /// The entry picked is not in the list.
    InvalidSelection,
}

/// The text of `error`.
pub open spec fn error_text(error: ScanError) -> Seq<char> {
    match error {
        ScanError::NoAdapters => "No BLE adapters found"@,
        ScanError::AdapterNotFound(name) => "Adapter `"@ + name@ + "` not found"@,
        ScanError::MissingAddress =>
            "Please provide a device address on Linux in non-interactive mode"@,
        ScanError::InvalidAddress => "Invalid BLE address"@,
        ScanError::NoDevicesFound => "No devices found during scan."@,
        ScanError::NoDevicesAdvertising =>
            "No devices found during scan. Ensure your Whoop device is powered on and advertising"@,
        ScanError::NoDeviceWithName(name) => "No device with name `"@ + name@
            + "` found after scanning for 10 seconds"@,
        ScanError::InvalidSelection => "Invalid selection"@,
    }
}

impl ScanError {
    /// The message for the operator.
    pub fn message(&self) -> (text: String)
        ensures
            text@ == error_text(*self),
    {
        match self {
            ScanError::NoAdapters => String::from_str("No BLE adapters found"),
            ScanError::AdapterNotFound(name) => {
                let mut text = String::from_str("Adapter `");
                text.append(name.as_str());
                text.append("` not found");
                text
            },
            ScanError::MissingAddress => String::from_str(
                "Please provide a device address on Linux in non-interactive mode",
            ),
            ScanError::InvalidAddress => String::from_str("Invalid BLE address"),
            ScanError::NoDevicesFound => String::from_str("No devices found during scan."),
            ScanError::NoDevicesAdvertising => String::from_str(
                "No devices found during scan. Ensure your Whoop device is powered on and advertising",
            ),
            ScanError::NoDeviceWithName(name) => {
                let mut text = String::from_str("No device with name `");
                text.append(name.as_str());
                text.append("` found after scanning for 10 seconds");
                text
            },
            ScanError::InvalidSelection => String::from_str("Invalid selection"),
        }
    }
}

/// Whether the adapter with description `info` goes by the name
/// `interface`.
pub open spec fn adapter_named(info: Option<Seq<char>>, interface: Seq<char>) -> bool {
    match info {
        Some(text) => interface.is_prefix_of(text),
        None => false,
    }
}

/// The view of an optional text.
pub open spec fn text_view(text: Option<String>) -> Option<Seq<char>> {
    match text {
        Some(t) => Some(t@),
        None => None,
    }
}

/// Whether `at` is the position of the first adapter in `infos` that goes
/// by the name `interface`.
pub open spec fn is_first_adapter_named(
    infos: Seq<Option<String>>,
    interface: Seq<char>,
    at: int,
) -> bool {
    &&& 0 <= at < infos.len()
    &&& adapter_named(text_view(infos[at]), interface)
    &&& forall|j: int| 0 <= j < at ==> !adapter_named(text_view(#[trigger] infos[j]), interface)
}

/// Whether no adapter in `infos` goes by the name `interface`.
pub open spec fn no_adapter_named(infos: Seq<Option<String>>, interface: Seq<char>) -> bool {
    forall|j: int|
        0 <= j < infos.len() ==> !adapter_named(text_view(#[trigger] infos[j]), interface)
}

/// Chooses the adapter to use.
///
/// `infos` holds the description of every adapter in the order in which the
/// host lists them, `None` where the description could not be read. With
/// an interface name, the first adapter whose description begins with it is
/// chosen; without, the first adapter.
pub fn get_adapter(infos: &Vec<Option<String>>, ble_interface: Option<String>) -> (chosen: Result<
    usize,
    ScanError,
>)
    ensures
        match ble_interface {
            Some(interface) => match chosen {
                Ok(at) => is_first_adapter_named(infos@, interface@, at as int),
                Err(ScanError::AdapterNotFound(name)) => no_adapter_named(infos@, interface@)
                    && name@ == interface@,
                Err(_) => false,
            },
            None => match chosen {
                Ok(at) => at == 0 && infos@.len() > 0,
                Err(ScanError::NoAdapters) => infos@.len() == 0,
                Err(_) => false,
            },
        },
{
    match ble_interface {
        Some(interface) => {
            let mut i: usize = 0;
            while i < infos.len()
                invariant
                    i <= infos@.len(),
                    ble_interface == Some(interface),
                    forall|j: int|
                        0 <= j < i ==> !adapter_named(text_view(#[trigger] infos@[j]), interface@),
                decreases infos@.len() - i,
            {
                let named = match &infos[i] {
                    Some(info) => starts_with(info.as_str(), interface.as_str()),
                    None => false,
                };
                if named {
                    return Ok(i);
                }
                i += 1;
            }
            Err(ScanError::AdapterNotFound(interface))
        },
        None => {
            if infos.len() > 0 {
                Ok(0)
            } else {
                Err(ScanError::NoAdapters)
            }
        },
    }
}

/// How a scan goes about finding the device.
#[derive(Debug)]
pub enum ScanPlan {
    /// Keep every device seen while the scan lasts, then let the user pick.
    CollectAndAsk { platform: Platform },
    /// Poll until a device with this address is seen, however long it takes.
    AwaitAddress { address: [u8; 6] },
    /// Look for devices of this name while the scan lasts.
    ScanByName { name: String, interactive: bool },
}

/// How the device is taken from what a scan found.
#[derive(Clone, Copy, Debug, PartialEq, Eq, Structural)]
pub enum Pick {
    /// Take the first device found.
    First,
    /// Show the devices found and let the user choose.
    Ask,
}

/// Seconds to wait before the scan proper begins.
pub open spec fn settle_secs_of(plan: ScanPlan) -> u64 {
    match plan {
        ScanPlan::CollectAndAsk { platform: Platform::Linux } => POLL_INTERVAL_SECS,
        _ => 0,
    }
}

/// Seconds that the scan lasts; `None` where it has no limit.
pub open spec fn duration_secs_of(plan: ScanPlan) -> Option<u64> {
    match plan {
        ScanPlan::AwaitAddress { .. } => None,
        _ => Some(DEFAULT_SCAN_DURATION_SECS),
    }
}

/// Whether the adapter is told to scan, filtered by the device's service,
/// before it is polled. Where devices are found by address the host scans
/// by itself.
pub open spec fn starts_scan_of(plan: ScanPlan) -> bool {
    match plan {
        ScanPlan::CollectAndAsk { platform: Platform::MacOs } => true,
        ScanPlan::ScanByName { .. } => true,
        _ => false,
    }
}

impl ScanPlan {
    /// Seconds to wait before the scan proper begins.
    pub fn settle_secs(&self) -> (secs: u64)
        ensures
            secs == settle_secs_of(*self),
    {
        match self {
            ScanPlan::CollectAndAsk { platform: Platform::Linux } => POLL_INTERVAL_SECS,
            _ => 0,
        }
    }

    /// Seconds that the scan lasts; `None` where it has no limit.
    pub fn duration_secs(&self) -> (secs: Option<u64>)
        ensures
            secs == duration_secs_of(*self),
    {
        match self {
            ScanPlan::AwaitAddress { .. } => None,
            _ => Some(DEFAULT_SCAN_DURATION_SECS),
        }
    }

    /// Whether the adapter is told to scan before it is polled.
    pub fn starts_scan(&self) -> (starts: bool)
        ensures
            starts == starts_scan_of(*self),
    {
        match self {
            ScanPlan::CollectAndAsk { platform: Platform::MacOs } => true,
            ScanPlan::ScanByName { .. } => true,
            _ => false,
        }
    }

    /// Decides, once the scan is over, how the device is taken from the
    /// `found` devices it kept.
    ///
    /// A scan that kept nothing fails with the error of its kind. Otherwise
    /// the user picks, except after a scan by name or by address that is
    /// not interactive, which takes the first device.
    pub fn conclude(&self, found: usize) -> (pick: Result<Pick, ScanError>)
        ensures
            match *self {
                ScanPlan::CollectAndAsk { platform } => match pick {
                    Ok(how) => found > 0 && how == Pick::Ask,
                    Err(ScanError::NoDevicesFound) => found == 0 && platform == Platform::Linux,
                    Err(ScanError::NoDevicesAdvertising) => found == 0 && platform
                        == Platform::MacOs,
                    Err(_) => false,
                },
                ScanPlan::AwaitAddress { .. } => match pick {
                    Ok(how) => found > 0 && how == Pick::First,
                    Err(ScanError::NoDevicesFound) => found == 0,
                    Err(_) => false,
                },
                ScanPlan::ScanByName { name, interactive } => match pick {
                    Ok(how) => found > 0 && how == if interactive {
                        Pick::Ask
                    } else {
                        Pick::First
                    },
                    Err(ScanError::NoDeviceWithName(shown)) => found == 0 && shown@ == sanitized(
                        name@,
                    ),
                    Err(_) => false,
                },
            },
    {
        match self {
            ScanPlan::CollectAndAsk { platform } => {
                if found > 0 {
                    Ok(Pick::Ask)
                } else {
                    match platform {
                        Platform::Linux => Err(ScanError::NoDevicesFound),
                        Platform::MacOs => Err(ScanError::NoDevicesAdvertising),
                    }
                }
            },
            ScanPlan::AwaitAddress { .. } => {
                if found > 0 {
                    Ok(Pick::First)
                } else {
                    Err(ScanError::NoDevicesFound)
                }
            },
            ScanPlan::ScanByName { name, interactive } => {
                if found == 0 {
                    Err(ScanError::NoDeviceWithName(sanitize_name(name.as_str())))
                } else if *interactive {
                    Ok(Pick::Ask)
                } else {
                    Ok(Pick::First)
                }
            },
        }
    }
}

/// The lines of the selection list, one for every device, in order.
pub fn selection_items(devices: &Vec<Sighting>) -> (items: Vec<String>)
    ensures
        items@.len() == devices@.len(),
        forall|i: int|
            0 <= i < devices@.len() ==> (#[trigger] items@[i])@ == label_of(
                devices@[i]@,
            ),
{
    let mut items: Vec<String> = Vec::new();
    let mut i: usize = 0;
    while i < devices.len()
        invariant
            i <= devices@.len(),
            items@.len() == i,
            forall|k: int|
                0 <= k < i ==> (#[trigger] items@[k])@ == label_of(
                    devices@[k]@,
                ),
        decreases devices@.len() - i,
    {
        items.push(devices[i].label());
        i += 1;
    }
    items
}

/// Takes the user's choice: the device at position `selection` among the
/// `devices` that were offered in the selection list, or an error where
/// there is no such position.
pub fn interactive_selection_common(devices: usize, selection: usize) -> (chosen: Result<
    usize,
    ScanError,
>)
    ensures
        match chosen {
            Ok(at) => at == selection && selection < devices,
            Err(ScanError::InvalidSelection) => selection >= devices,
            Err(_) => false,
        },
{
    if selection < devices {
        Ok(selection)
    } else {
        Err(ScanError::InvalidSelection)
    }
}

} // verus!
