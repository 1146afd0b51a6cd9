//! The one entry point to scanning, whatever the host.

use crate::platform::linux_scanner::AddressArg;
use crate::platform::{linux_scanner, macos_scanner};
use crate::scanner::{Platform, PlatformConfig, ScanError, ScanPlan};
use vstd::prelude::*;

verus! {

/// How the device to download from was named on the command line.
#[derive(Debug)]
pub struct DeviceIdentifier {
    /// The text given, if any.
    pub text: Option<String>,
    /// The same text read as a device address.
    pub address: AddressArg,
}

/// Plans the scan for the device to download from, as the host named in
/// `config` requires: by address on Linux, by name on macOS.
pub fn download_history_scan_device(
    config: PlatformConfig,
    device_identifier: DeviceIdentifier,
    interactive: bool,
) -> (plan: Result<ScanPlan, ScanError>)
    ensures
        config.platform == Platform::Linux ==> linux_scanner::scan_device.ensures(
            (device_identifier.address, interactive),
            plan,
        ),
        config.platform == Platform::MacOs ==> macos_scanner::scan_device.ensures(
            (device_identifier.text, interactive),
            plan,
        ),
{
    match config.platform {
        Platform::Linux => linux_scanner::scan_device(
            device_identifier.address,
            interactive,
        ),
        Platform::MacOs => macos_scanner::scan_device(
            device_identifier.text,
            interactive,
        ),
    }
}

} // verus!
