//! Shared state: what the server knows of each attached device.
//!
//! The route handlers and the serial tasks work on the same [`AppState`] of a
//! device; whoever holds it changes it through the functions of this library, one
//! at a time. What a handler has to do on the wire comes back as a [`Step`].

use vstd::prelude::*;

use crate::models::{ApiResponse, ConfigText, DeviceConfig, DeviceInfo, InfoText, LogMode, OutputMode};
use crate::text;

verus! {

// ── Replies ───────────────────────────────────────────────────────────────

/// An HTTP reply: the status code and the body.
#[derive(Debug)]
pub struct Reply {
    pub status: u16,
    pub body: ApiResponse,
}

/// What a [`Reply`] says.
#[verifier::ext_equal]
pub struct ReplyText {
    pub status: u16,
    pub success: bool,
    pub message: Seq<char>,
}

impl View for Reply {
    type V = ReplyText;

    open spec fn view(&self) -> ReplyText {
        ReplyText {
            status: self.status,
            success: self.body.success,
            message: self.body.message@,
        }
    }
}

/// A reply of a request that succeeded.
pub open spec fn success(message: Seq<char>) -> ReplyText {
    ReplyText { status: 200, success: true, message }
}

/// A reply of a request that failed.
pub open spec fn failure(status: u16, message: Seq<char>) -> ReplyText {
    ReplyText { status, success: false, message }
}

/// A reply of a request that succeeded.
pub fn succeed(message: String) -> (r: Reply)
    ensures
        r@ == success(message@),
{
    Reply { status: 200, body: ApiResponse { success: true, message } }
}

/// A reply of a request that failed.
pub fn fail(status: u16, message: String) -> (r: Reply)
    ensures
        r@ == failure(status, message@),
{
    Reply { status, body: ApiResponse { success: false, message } }
}

/// What a handler does next.
#[derive(Debug)]
pub enum Step {
    /// Answer; nothing goes to the device.
    Reply(Reply),
    /// Hand this command line to the serial task, then tell the handler how that
    /// went.
    Send(String),
}

/// What a [`Step`] says.
#[verifier::ext_equal]
pub enum StepText {
    Reply(ReplyText),
    Send(Seq<char>),
}

impl View for Step {
    type V = StepText;

    open spec fn view(&self) -> StepText {
        match *self {
            Step::Reply(r) => StepText::Reply(r@),
            Step::Send(c) => StepText::Send(c@),
        }
    }
}

/// The answer while there is no link to the device.
pub open spec fn disconnected() -> ReplyText {
    failure(503, "ESP32 disconnected; serial command unavailable"@)
}

/// The answer while the firmware is not verified.
pub open spec fn unverified() -> ReplyText {
    failure(
        412,
        "Firmware not verified as esp-csi-cli-rs. Call GET /api/info to verify, or POST /api/control/reset to power-cycle and re-check."@,
    )
}

/// The answer while there is no link to the device.
pub fn disconnected_reply() -> (r: Reply)
    ensures
        r@ == disconnected(),
{
    fail(503, "ESP32 disconnected; serial command unavailable".to_owned())
}

// ── A device's state ──────────────────────────────────────────────────────

/// State of one device that the route handlers and its serial task share.
#[derive(Debug)]
pub struct AppState {
    /// USB serial port path used to reach the ESP32 (e.g. `/dev/ttyUSB0`).
    pub port_path: String,
    /// Baud rate negotiated at startup. The serial task and the RTS-reset
    /// handler both read this so a single source of truth governs the link.
    pub baud_rate: u32,
    /// Whether the serial task currently has an open and healthy ESP32 link.
    pub serial_connected: bool,
    /// True after successful `start`, false after stop, reset and disconnect.
    pub collection_running: bool,
    /// The log format that was last sent to the device.
    pub log_mode: LogMode,
    /// Where the serial task sends frames (stream / dump / both).
    pub output_mode: OutputMode,
    /// The current session's dump file path: `Some(path)` opens or reuses that
    /// file, `None` ends the session and closes it.
    pub session_file: Option<String>,
    /// Cached view of the current device configuration.
    pub config: DeviceConfig,
    /// `true` once the serial task (or an explicit info request) has observed a
    /// valid `ESP-CSI-CLI/<version>` magic block from the device. Cleared on
    /// disconnect, on reset (until the re-verification completes), and on a
    /// failed verification. Command endpoints refuse to send while it is `false`.
    pub firmware_verified: bool,
    /// Last successfully parsed firmware identification block; cleared alongside
    /// `firmware_verified`.
    pub device_info: Option<DeviceInfo>,
}

/// An optional identification block, as text.
pub open spec fn opt_info(i: Option<DeviceInfo>) -> Option<InfoText> {
    match i {
        Some(d) => Some(d@),
        None => None,
    }
}

/// What an [`AppState`] says.
#[verifier::ext_equal]
pub struct StateText {
    pub port_path: Seq<char>,
    pub baud_rate: u32,
    pub serial_connected: bool,
    pub collection_running: bool,
    pub log_mode: LogMode,
    pub output_mode: OutputMode,
    pub session_file: Option<Seq<char>>,
    pub config: ConfigText,
    pub firmware_verified: bool,
    pub device_info: Option<InfoText>,
}

impl View for AppState {
    type V = StateText;

    open spec fn view(&self) -> StateText {
        StateText {
            port_path: self.port_path@,
            baud_rate: self.baud_rate,
            serial_connected: self.serial_connected,
            collection_running: self.collection_running,
            log_mode: self.log_mode,
            output_mode: self.output_mode,
            session_file: text::opt_text(self.session_file),
            config: self.config@,
            firmware_verified: self.firmware_verified,
            device_info: opt_info(self.device_info),
        }
    }
}

impl StateText {
    /// What belongs together: the identification block is there exactly while the
    /// firmware is verified, only a connected device is verified, and only a verified
    /// one collects. The operations keep a state coherent; where one needs more for
    /// that (a failed identification must not meet a collection that was started
    /// meanwhile), it says so.
    pub open spec fn coherent(self) -> bool {
        &&& self.firmware_verified <==> self.device_info is Some
        &&& self.firmware_verified ==> self.serial_connected
        &&& self.collection_running ==> self.firmware_verified
    }
}

/// The state of a device before its port is opened.
pub open spec fn fresh_state(port_path: Seq<char>, baud_rate: u32) -> StateText {
    StateText {
        port_path,
        baud_rate,
        serial_connected: false,
        collection_running: false,
        log_mode: LogMode::ArrayList,
        output_mode: OutputMode::Stream,
        session_file: None,
        config: crate::models::unset_config(),
        firmware_verified: false,
        device_info: None,
    }
}

impl AppState {
    /// The state of a device before its port is opened.
    pub fn new(port_path: String, baud_rate: u32) -> (r: Self)
        ensures
            r@ == fresh_state(port_path@, baud_rate),
            r@.coherent(),
    {
        AppState {
            port_path,
            baud_rate,
            serial_connected: false,
            collection_running: false,
            log_mode: LogMode::default(),
            output_mode: OutputMode::default(),
            session_file: None,
            config: DeviceConfig::default(),
            firmware_verified: false,
            device_info: None,
        }
    }

    /// Returns an early reply for handlers when the firmware has not yet been
    /// verified as `esp-csi-cli-rs`. Use this to short-circuit any endpoint that
    /// issues a CLI command: sending commands to an unverified device may interact
    /// with whatever bootloader/firmware is listening in unintended ways.
    pub fn require_firmware(&self) -> (r: Option<Reply>)
        ensures
            r is None <==> self.firmware_verified,
            r matches Some(reply) ==> reply@ == unverified(),
    {
        if self.firmware_verified {
            None
        } else {
            Some(
                fail(
                    412,
                    "Firmware not verified as esp-csi-cli-rs. Call GET /api/info to verify, or POST /api/control/reset to power-cycle and re-check.".to_owned(),
                ),
            )
        }
    }

    /// The firmware identified itself.
    pub fn verified(&mut self, info: DeviceInfo)
        ensures
            final(self)@ == (StateText {
                firmware_verified: true,
                device_info: Some(info@),
                ..old(self)@
            }),
            old(self)@.coherent() && old(self)@.serial_connected ==> final(self)@.coherent(),
    {
        self.firmware_verified = true;
        self.device_info = Some(info);
    }

    /// The firmware is not, or no longer, known to be the right one.
    pub fn unverify(&mut self)
        ensures
            final(self)@ == (StateText {
                firmware_verified: false,
                device_info: None,
                ..old(self)@
            }),
            old(self)@.coherent() && !old(self)@.collection_running ==> final(self)@.coherent(),
    {
        self.firmware_verified = false;
        self.device_info = None;
    }
}

// ── The registry ──────────────────────────────────────────────────────────

/// An attached device.
#[derive(Debug)]
pub struct DeviceHandle {
    /// Stable, URL-safe device id (MAC-derived, alias, or path basename).
    pub id: String,
    /// USB serial number (the MAC for native USB), where there is one.
    pub mac: Option<String>,
    /// Espressif native USB-Serial-JTAG: no RTS reset.
    pub native_usb: bool,
    pub state: AppState,
    /// Scans in a row in which the device was not there.
    pub missing_scans: u32,
}

/// What a [`DeviceHandle`] says.
#[verifier::ext_equal]
pub struct DeviceText {
    pub id: Seq<char>,
    pub mac: Option<Seq<char>>,
    pub native_usb: bool,
    pub state: StateText,
    pub missing_scans: u32,
}

impl View for DeviceHandle {
    type V = DeviceText;

    open spec fn view(&self) -> DeviceText {
        DeviceText {
            id: self.id@,
            mac: text::opt_text(self.mac),
            native_usb: self.native_usb,
            state: self.state@,
            missing_scans: self.missing_scans,
        }
    }
}

/// The devices that are attached, each under its id.
#[derive(Debug)]
pub struct DeviceRegistry {
    pub devices: Vec<DeviceHandle>,
}

/// Devices as text.
pub open spec fn devices_text(v: Seq<DeviceHandle>) -> Seq<DeviceText> {
    Seq::new(v.len(), |i: int| v[i]@)
}

/// No two devices have the same id.
pub open spec fn distinct_ids(v: Seq<DeviceText>) -> bool {
    forall|i: int, j: int| 0 <= i < j < v.len() ==> (#[trigger] v[i]).id != (#[trigger] v[j]).id
}

/// The place of the device with that id; the number of devices where there is
/// none.
pub open spec fn place(v: Seq<DeviceText>, id: Seq<char>) -> int
    decreases v.len(),
{
    if v.len() == 0 || v[0].id == id {
        0
    } else {
        1 + place(v.drop_first(), id)
    }
}

/// Where [`place`] points.
pub proof fn lemma_place(v: Seq<DeviceText>, id: Seq<char>)
    ensures
        0 <= place(v, id) <= v.len(),
        place(v, id) < v.len() ==> v[place(v, id)].id == id,
        forall|j: int| 0 <= j < place(v, id) ==> (#[trigger] v[j]).id != id,
    decreases v.len(),
{
    if v.len() > 0 && v[0].id != id {
        let rest = v.drop_first();
        lemma_place(rest, id);
        assert forall|j: int| 0 <= j < place(v, id) implies (#[trigger] v[j]).id != id by {
            if j > 0 {
                assert(rest[j - 1] == v[j]);
            }
        }
        if place(v, id) < v.len() {
            assert(rest[place(rest, id)] == v[place(v, id)]);
        }
    }
}

/// [`place`] is the first place with that id.
pub proof fn lemma_place_unique(v: Seq<DeviceText>, id: Seq<char>, i: int)
    requires
        0 <= i <= v.len(),
        i < v.len() ==> v[i].id == id,
        forall|j: int| 0 <= j < i ==> (#[trigger] v[j]).id != id,
    ensures
        place(v, id) == i,
{
    lemma_place(v, id);
    if place(v, id) < i {
        assert(v[place(v, id)].id != id);
    }
}

/// The device with that id.
pub open spec fn lookup(v: Seq<DeviceText>, id: Seq<char>) -> Option<DeviceText> {
    if place(v, id) < v.len() {
        Some(v[place(v, id)])
    } else {
        None
    }
}

/// The devices after one was put under its id, in the place of the one that was
/// there before.
pub open spec fn with_device(v: Seq<DeviceText>, d: DeviceText) -> Seq<DeviceText> {
    if place(v, d.id) < v.len() {
        v.update(place(v, d.id), d)
    } else {
        v.push(d)
    }
}

/// The devices without the one with that id.
pub open spec fn without_device(v: Seq<DeviceText>, id: Seq<char>) -> Seq<DeviceText> {
    if place(v, id) < v.len() {
        v.remove(place(v, id))
    } else {
        v
    }
}

impl View for DeviceRegistry {
    type V = Seq<DeviceText>;

    open spec fn view(&self) -> Seq<DeviceText> {
        devices_text(self.devices@)
    }
}

impl DeviceRegistry {
    /// No devices.
    pub fn new() -> (r: Self)
        ensures
            r@ == Seq::<DeviceText>::empty(),
            distinct_ids(r@),
    {
        DeviceRegistry { devices: Vec::new() }
    }

    /// Where the device with that id stands; the number of devices where there is
    /// none.
    pub fn position(&self, id: &str) -> (r: usize)
        ensures
            r == place(self@, id@),
            r <= self.devices@.len(),
    {
        let mut i: usize = 0;
        while i < self.devices.len()
            invariant
                i <= self.devices@.len(),
                forall|j: int| 0 <= j < i ==> (#[trigger] self@[j]).id != id@,
            decreases self.devices@.len() - i,
        {
            if text::same(self.devices[i].id.as_str(), id) {
                proof {
                    lemma_place_unique(self@, id@, i as int);
                }
                return i;
            }
            i += 1;
        }
        proof {
            lemma_place_unique(self@, id@, i as int);
        }
        i
    }

    /// The device with that id.
    pub fn get(&self, id: &str) -> (r: Option<&DeviceHandle>)
        ensures
            match r {
                Some(d) => lookup(self@, id@) == Some(d@),
                None => lookup(self@, id@) is None,
            },
    {
        let i: usize = self.position(id);
        if i < self.devices.len() {
            Some(&self.devices[i])
        } else {
            None
        }
    }

    /// Puts a device under its id, in the place of the one that was there before.
    pub fn insert(&mut self, device: DeviceHandle)
        ensures
            final(self)@ == with_device(old(self)@, device@),
            distinct_ids(old(self)@) ==> distinct_ids(final(self)@),
            lookup(final(self)@, device@.id) == Some(device@),
    {
        let i: usize = self.position(device.id.as_str());
        let ghost before = self@;
        let ghost put = device@;
        proof {
            lemma_place(before, put.id);
        }
        if i < self.devices.len() {
            self.devices.set(i, device);
            assert(self@ =~= before.update(i as int, put));
        } else {
            self.devices.push(device);
            assert(self@ =~= before.push(put));
        }
        proof {
            lemma_place_unique(self@, put.id, i as int);
            if distinct_ids(before) {
                lemma_with_device_distinct(before, put);
            }
        }
    }

    /// Takes the device with that id out.
    pub fn remove(&mut self, id: &str) -> (r: Option<DeviceHandle>)
        ensures
            final(self)@ == without_device(old(self)@, id@),
            match r {
                Some(d) => lookup(old(self)@, id@) == Some(d@),
                None => lookup(old(self)@, id@) is None,
            },
            distinct_ids(old(self)@) ==> distinct_ids(final(self)@) && lookup(final(self)@, id@) is None,
    {
        let i: usize = self.position(id);
        let ghost before = self@;
        if i < self.devices.len() {
            let d = self.devices.remove(i);
            assert(self@ =~= before.remove(i as int));
            proof {
                if distinct_ids(before) {
                    lemma_without_device(before, id@);
                }
            }
            Some(d)
        } else {
            None
        }
    }

    /// The ids of the attached devices.
    pub fn snapshot(&self) -> (r: Vec<String>)
        ensures
            r@.len() == self@.len(),
            forall|i: int| 0 <= i < r@.len() ==> (#[trigger] r@[i])@ == self@[i].id,
    {
        let mut out: Vec<String> = Vec::new();
        let mut i: usize = 0;
        while i < self.devices.len()
            invariant
                i <= self.devices@.len(),
                out@.len() == i,
                forall|k: int| 0 <= k < i ==> (#[trigger] out@[k])@ == self@[k].id,
            decreases self.devices@.len() - i,
        {
            out.push(self.devices[i].id.clone());
            i += 1;
        }
        out
    }
}

/// Putting a device under its id keeps the ids distinct.
pub proof fn lemma_with_device_distinct(v: Seq<DeviceText>, d: DeviceText)
    requires
        distinct_ids(v),
    ensures
        distinct_ids(with_device(v, d)),
{
    lemma_place(v, d.id);
    let w = with_device(v, d);
    let p = place(v, d.id);
    assert forall|i: int, j: int| 0 <= i < j < w.len() implies (#[trigger] w[i]).id != (
    #[trigger] w[j]).id by {
        if p < v.len() {
            assert(w[i].id == v[i].id);
            assert(w[j].id == v[j].id);
        } else {
            assert(w[i] == v[i]);
            if j < v.len() {
                assert(w[j] == v[j]);
            }
        }
    }
}

/// Taking a device out keeps the ids distinct, and nothing is left under its id.
pub proof fn lemma_without_device(v: Seq<DeviceText>, id: Seq<char>)
    requires
        distinct_ids(v),
    ensures
        distinct_ids(without_device(v, id)),
        lookup(without_device(v, id), id) is None,
{
    lemma_place(v, id);
    let w = without_device(v, id);
    let p = place(v, id);
    if p < v.len() {
        assert forall|j: int| 0 <= j < w.len() implies (#[trigger] w[j]).id != id by {
            if j < p {
                assert(w[j] == v[j]);
            } else {
                assert(w[j] == v[j + 1]);
                assert(v[p].id != v[j + 1].id);
            }
        }
        assert forall|i: int, j: int| 0 <= i < j < w.len() implies (#[trigger] w[i]).id != (
        #[trigger] w[j]).id by {
            let a = if i < p {
                i
            } else {
                i + 1
            };
            let b = if j < p {
                j
            } else {
                j + 1
            };
            assert(w[i] == v[a]);
            assert(w[j] == v[b]);
        }
        lemma_place_unique(w, id, w.len() as int);
    }
}

// ── Laws ──────────────────────────────────────────────────────────────────

/// Devices are independent: what becomes of one leaves the others as they are.
pub proof fn law_devices_are_independent(v: Seq<DeviceText>, d: DeviceText, id: Seq<char>)
    requires
        d.id != id,
    ensures
        lookup(with_device(v, d), id) == lookup(v, id),
        distinct_ids(v) ==> lookup(without_device(v, d.id), id) == lookup(v, id),
{
    lemma_place(v, id);
    lemma_place(v, d.id);
    let p = place(v, id);
    let q = place(v, d.id);
    let w = with_device(v, d);
    assert forall|j: int| 0 <= j < p && j < w.len() implies (#[trigger] w[j]).id != id by {
        if j != q {
            assert(w[j] == v[j]);
        }
    }
    if p < v.len() {
        assert(w[p] == v[p]);
        lemma_place_unique(w, id, p);
    } else {
        assert forall|j: int| 0 <= j < w.len() implies (#[trigger] w[j]).id != id by {
            if j < v.len() && j != q {
                assert(w[j] == v[j]);
            }
        }
        lemma_place_unique(w, id, w.len() as int);
    }
    if q < v.len() {
        let u = v.remove(q);
        let at = if p < q {
            p
        } else {
            p - 1
        };
        assert forall|j: int| 0 <= j < at implies (#[trigger] u[j]).id != id by {
            if j < q {
                assert(u[j] == v[j]);
            } else {
                assert(u[j] == v[j + 1]);
            }
        }
        if p < v.len() {
            assert(u[at] == v[p]);
        }
        lemma_place_unique(u, id, at);
    }
}

/// A device is found under its id, wherever it stands, and only there.
pub proof fn law_lookup_finds_devices(v: Seq<DeviceText>, id: Seq<char>, d: DeviceText)
    ensures
        lookup(v, id) is Some <==> exists|i: int| 0 <= i < v.len() && (#[trigger] v[i]).id == id,
        lookup(v, id) matches Some(e) ==> e.id == id && v.contains(e),
        forall|i: int|
            0 <= i < v.len() && (#[trigger] v[i]).id == id && distinct_ids(v) ==> lookup(v, id)
                == Some(v[i]),
        lookup(with_device(v, d), d.id) == Some(d),
        distinct_ids(v) ==> lookup(without_device(v, id), id) is None,
        lookup(v, id) is None ==> without_device(v, id) == v,
        lookup(v, d.id) is None ==> with_device(v, d) == v.push(d),
        with_device(v, d).len() == if lookup(v, d.id) is None {
            v.len() + 1
        } else {
            v.len()
        },
{
    lemma_place(v, id);
    lemma_place(v, d.id);
    if place(v, id) < v.len() {
        assert(v.contains(v[place(v, id)]));
    }
    assert forall|i: int| 0 <= i < v.len() && (#[trigger] v[i]).id == id && distinct_ids(v) implies lookup(
        v,
        id,
    ) == Some(v[i]) by {
        let p = place(v, id);
        if p < i {
            assert(v[p].id != v[i].id);
        }
    }
    let w = with_device(v, d);
    assert forall|j: int| 0 <= j < place(v, d.id) implies (#[trigger] w[j]).id != d.id by {
        assert(w[j] == v[j]);
    }
    lemma_place_unique(w, d.id, place(v, d.id));
    if distinct_ids(v) {
        lemma_without_device(v, id);
    }
}

/// What is shown of a device and of its state is what they hold, field by field.
pub proof fn law_devices_show_their_fields(d: DeviceHandle)
    ensures
        d@.id == d.id@,
        d@.mac == text::opt_text(d.mac),
        d@.native_usb == d.native_usb,
        d@.missing_scans == d.missing_scans,
        d@.state.port_path == d.state.port_path@,
        d@.state.baud_rate == d.state.baud_rate,
        d@.state.serial_connected == d.state.serial_connected,
        d@.state.collection_running == d.state.collection_running,
        d@.state.log_mode == d.state.log_mode,
        d@.state.output_mode == d.state.output_mode,
        d@.state.session_file == text::opt_text(d.state.session_file),
        d@.state.config == d.state.config@,
        d@.state.firmware_verified == d.state.firmware_verified,
        d@.state.device_info == opt_info(d.state.device_info),
{
}

/// The state of a device before its port is opened: at that port and baud rate, and with
/// nothing else known or going on.
pub proof fn law_fresh_state(port_path: Seq<char>, baud_rate: u32)
    ensures
        ({
            let s = fresh_state(port_path, baud_rate);
            &&& s.port_path == port_path
            &&& s.baud_rate == baud_rate
            &&& !s.serial_connected
            &&& !s.collection_running
            &&& !s.firmware_verified
            &&& s.device_info is None
            &&& s.session_file is None
            &&& s.output_mode == OutputMode::Stream
            &&& s.log_mode == LogMode::ArrayList
            &&& s.config == crate::models::unset_config()
            &&& s.coherent()
        }),
{
}

/// What a coherent state is: an identification is there exactly while the firmware is
/// verified, which only a connected device is, and nothing collects unverified.
pub proof fn law_coherent_states(s: StateText)
    requires
        s.coherent(),
    ensures
        s.collection_running ==> s.firmware_verified && s.serial_connected && s.device_info is Some,
        s.firmware_verified <==> s.device_info is Some,
        !s.serial_connected ==> !s.firmware_verified && !s.collection_running
            && s.device_info is None,
{
}

/// The replies that all endpoints share.
pub proof fn law_shared_replies(r: Reply, status: u16, message: Seq<char>)
    ensures
        r@.status == r.status,
        r@.success == r.body.success,
        r@.message == r.body.message@,
        success(message) == (ReplyText { status: 200, success: true, message }),
        failure(status, message) == (ReplyText { status, success: false, message }),
        disconnected() == (ReplyText {
            status: 503,
            success: false,
            message: "ESP32 disconnected; serial command unavailable"@,
        }),
        unverified() == (ReplyText {
            status: 412,
            success: false,
            message: "Firmware not verified as esp-csi-cli-rs. Call GET /api/info to verify, or POST /api/control/reset to power-cycle and re-check."@,
        }),
{
}

/// Devices are shown one by one, in order.
pub proof fn law_devices_are_shown_in_order(v: Seq<DeviceHandle>)
    ensures
        devices_text(v).len() == v.len(),
        forall|i: int| 0 <= i < v.len() ==> #[trigger] devices_text(v)[i] == v[i]@,
{
}

} // verus!
