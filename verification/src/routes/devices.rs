//! Device registry listing at `GET /api/devices`.

use vstd::prelude::*;

use crate::models::{DeviceInfo, InfoText};
use crate::state::{opt_info, DeviceHandle, DeviceRegistry, DeviceText};
use crate::text;

verus! {

/// One row of `GET /api/devices`: a snapshot of an attached device.
#[derive(Debug)]
pub struct DeviceSummary {
    pub id: String,
    pub mac: Option<String>,
    pub port_path: String,
    pub baud_rate: u32,
    pub serial_connected: bool,
    pub collection_running: bool,
    pub firmware_verified: bool,
    pub device_info: Option<DeviceInfo>,
}

/// What a [`DeviceSummary`] says.
#[verifier::ext_equal]
pub struct SummaryText {
    pub id: Seq<char>,
    pub mac: Option<Seq<char>>,
    pub port_path: Seq<char>,
    pub baud_rate: u32,
    pub serial_connected: bool,
    pub collection_running: bool,
    pub firmware_verified: bool,
    pub device_info: Option<InfoText>,
}

impl View for DeviceSummary {
    type V = SummaryText;

    open spec fn view(&self) -> SummaryText {
        SummaryText {
            id: self.id@,
            mac: text::opt_text(self.mac),
            port_path: self.port_path@,
            baud_rate: self.baud_rate,
            serial_connected: self.serial_connected,
            collection_running: self.collection_running,
            firmware_verified: self.firmware_verified,
            device_info: opt_info(self.device_info),
        }
    }
}

/// The row of a device.
pub open spec fn summary(d: DeviceText) -> SummaryText {
    SummaryText {
        id: d.id,
        mac: d.mac,
        port_path: d.state.port_path,
        baud_rate: d.state.baud_rate,
        serial_connected: d.state.serial_connected,
        collection_running: d.state.collection_running,
        firmware_verified: d.state.firmware_verified,
        device_info: d.state.device_info,
    }
}

fn summarize(d: &DeviceHandle) -> (r: DeviceSummary)
    ensures
        r@ == summary(d@),
{
    let device_info = match &d.state.device_info {
        Some(i) => Some(i.clone()),
        None => None,
    };
    DeviceSummary {
        id: d.id.clone(),
        mac: text::copy_opt(&d.mac),
        port_path: d.state.port_path.clone(),
        baud_rate: d.state.baud_rate,
        serial_connected: d.state.serial_connected,
        collection_running: d.state.collection_running,
        firmware_verified: d.state.firmware_verified,
        device_info,
    }
}

/// `GET /api/devices`: list all currently attached devices and their status.
///
/// The set is maintained by the hotplug supervisor, so newly plugged-in boards
/// appear here within one scan interval and unplugged ones drop off after the
/// debounce window.
pub fn list_devices(registry: &DeviceRegistry) -> (r: Vec<DeviceSummary>)
    ensures
        r@.len() == registry@.len(),
        forall|i: int| 0 <= i < r@.len() ==> (#[trigger] r@[i])@ == summary(registry@[i]),
{
    let mut out: Vec<DeviceSummary> = Vec::new();
    let mut i: usize = 0;
    while i < registry.devices.len()
        invariant
            i <= registry.devices@.len(),
            out@.len() == i,
            forall|k: int| 0 <= k < i ==> (#[trigger] out@[k])@ == summary(registry@[k]),
        decreases registry.devices@.len() - i,
    {
        out.push(summarize(&registry.devices[i]));
        i += 1;
    }
    out
}

// ── Laws ──────────────────────────────────────────────────────────────────

/// The row of a device shows what the server knows of it, each in its place.
pub proof fn law_rows_show_their_devices(d: DeviceText, row: DeviceSummary)
    ensures
        summary(d).id == d.id,
        summary(d).mac == d.mac,
        summary(d).port_path == d.state.port_path,
        summary(d).baud_rate == d.state.baud_rate,
        summary(d).serial_connected == d.state.serial_connected,
        summary(d).collection_running == d.state.collection_running,
        summary(d).firmware_verified == d.state.firmware_verified,
        summary(d).device_info == d.state.device_info,
        row@.id == row.id@,
        row@.mac == text::opt_text(row.mac),
        row@.port_path == row.port_path@,
        row@.baud_rate == row.baud_rate,
        row@.serial_connected == row.serial_connected,
        row@.collection_running == row.collection_running,
        row@.firmware_verified == row.firmware_verified,
        row@.device_info == opt_info(row.device_info),
{
}

} // verus!
