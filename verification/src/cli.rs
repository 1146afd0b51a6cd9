//! The command surface: what the operator can ask for.

use vstd::prelude::*;

verus! {

/// What the operator asks for.
#[derive(Debug)]
pub enum OpenWhoopCommand {
    /// Look for devices.
    Scan,
    /// Connect to one device and download its history.
    DownloadHistory {
        /// Address or name of the device, as the host requires.
        device_identifier: Option<String>,
        /// Whether the device is picked from a list.
        interactive: bool,
    },
    /// Decode the stored packets once more.
    ReRun,
    /// Segment the stored readings into activities.
    DetectEvents,
}

/// The command line as a whole.
#[derive(Debug)]
pub struct OpenWhoopCli {
    /// Where the store is.
    pub database_url: String,
    /// Name of the adapter to use; the first adapter where none is given.
    pub ble_interface: Option<String>,
    /// What is asked for.
    pub subcommand: OpenWhoopCommand,
}

/// What a command asks of the scan.
#[derive(Debug)]
pub struct ScanRequest {
    /// How the device was named, if at all.
    pub device_identifier: Option<String>,
    /// Whether the device is picked from a list.
    pub interactive: bool,
}

/// The view of an optional text.
pub open spec fn optional_text(text: Option<String>) -> Option<Seq<char>> {
    match text {
        Some(t) => Some(t@),
        None => None,
    }
}

impl OpenWhoopCommand {
    /// Whether the command goes on to download once the device is found.
    pub fn downloads(&self) -> (downloads: bool)
        ensures
            downloads == (self is DownloadHistory),
    {
        match self {
            OpenWhoopCommand::DownloadHistory { .. } => true,
            _ => false,
        }
    }

    /// What the command asks of the scan; `None` for a command that works
    /// on the store alone.
    ///
    /// A plain scan names no device and is not interactive. A download
    /// hands on what was given on the command line.
    pub fn scan_request(self) -> (request: Option<ScanRequest>)
        ensures
            match self {
                OpenWhoopCommand::Scan => request matches Some(r) && r.device_identifier is None
                    && !r.interactive,
                OpenWhoopCommand::DownloadHistory { device_identifier, interactive } => {
                    request matches Some(r) && optional_text(r.device_identifier) == optional_text(
                        device_identifier,
                    ) && r.interactive == interactive
                },
                OpenWhoopCommand::ReRun => request is None,
                OpenWhoopCommand::DetectEvents => request is None,
            },
    {
        match self {
            OpenWhoopCommand::Scan => Some(
                ScanRequest { device_identifier: None, interactive: false },
            ),
            OpenWhoopCommand::DownloadHistory { device_identifier, interactive } => Some(
                ScanRequest { device_identifier, interactive },
            ),
            OpenWhoopCommand::ReRun => None,
            OpenWhoopCommand::DetectEvents => None,
        }
    }
}

} // verus!
