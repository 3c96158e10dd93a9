//! Handlers for collection control endpoints under `/api/control/*`.
//!
//! As with the configuration endpoints, a handler first says what is to be done,
//! and is then told how that went.

use vstd::prelude::*;

use crate::models::{CollectionStatusResponse, DeviceInfo, InfoText, StartConfig};
use crate::routes::config::{gated, send_cmd, send_fault};
use crate::state::{
    disconnected, disconnected_reply, fail, failure, succeed, success, unverified, AppState,
    DeviceHandle, DeviceText, Reply, ReplyText, StateText, Step, StepText,
};
use crate::text;

verus! {

// ─── GET /api/control/status ──────────────────────────────────────────────

/// The status of a device.
pub open spec fn status_of(s: AppState) -> CollectionStatusResponse {
    CollectionStatusResponse {
        serial_connected: s.serial_connected,
        collection_running: s.collection_running,
        port_path: s.port_path,
    }
}

/// Whether the device is connected and collects, and where it is.
pub fn get_collection_status(dev: &DeviceHandle) -> (r: (u16, CollectionStatusResponse))
    ensures
        r.0 == 200,
        r.1 == status_of(dev.state),
{
    (
        200,
        CollectionStatusResponse::from_state(
            dev.state.serial_connected,
            dev.state.collection_running,
            dev.state.port_path.clone(),
        ),
    )
}

// ─── POST /api/control/reset ──────────────────────────────────────────────

/// How a device is reset.
#[derive(Debug)]
pub enum ResetStep {
    /// Not at all: answer.
    Reply(Reply),
    /// By this firmware command. Pulsing RTS/DTR on native USB-Serial-JTAG chips
    /// re-enumerates (and can wedge) the USB device.
    Restart(String),
    /// By pulsing RTS on a short-lived second handle of the port, after which the
    /// firmware is verified anew over the existing link.
    PulseRts { path: String, baud_rate: u32 },
}

/// What a [`ResetStep`] says.
#[verifier::ext_equal]
pub enum ResetText {
    Reply(ReplyText),
    Restart(Seq<char>),
    PulseRts { path: Seq<char>, baud_rate: u32 },
}

impl View for ResetStep {
    type V = ResetText;

    open spec fn view(&self) -> ResetText {
        match *self {
            ResetStep::Reply(r) => ResetText::Reply(r@),
            ResetStep::Restart(c) => ResetText::Restart(c@),
            ResetStep::PulseRts { path, baud_rate } => ResetText::PulseRts {
                path: path@,
                baud_rate,
            },
        }
    }
}

/// The state of a device that is about to reboot: its session is over, and its
/// firmware has to be verified anew.
pub open spec fn rebooting(s: StateText) -> StateText {
    StateText {
        collection_running: false,
        session_file: None,
        firmware_verified: false,
        device_info: None,
        ..s
    }
}

/// How a device is reset.
pub open spec fn reset_step(d: DeviceText) -> ResetText {
    if !d.state.serial_connected {
        ResetText::Reply(disconnected())
    } else if d.native_usb {
        ResetText::Restart("restart"@)
    } else {
        ResetText::PulseRts { path: d.state.port_path, baud_rate: d.state.baud_rate }
    }
}

/// Reset the ESP32, then re-verify its firmware identity.
///
/// Any active session ends at once, and command endpoints stay blocked until the
/// re-verification succeeds: whatever firmware ran a moment ago may or may not be
/// running afterwards.
///
/// Two paths, chosen by adapter type:
/// - UART adapters (CP210x / CH340): pulse the RTS line (EN low for 100 ms) on a
///   short-lived second handle, then re-verify over the existing link.
/// - Native USB-Serial-JTAG: send the firmware `restart` command instead.
///   Re-verification then happens on reconnect, so this path returns immediately.
pub fn reset_esp32(dev: &mut DeviceHandle) -> (r: ResetStep)
    ensures
        r@ == reset_step(old(dev)@),
        final(dev)@ == (DeviceText { state: rebooting(old(dev)@.state), ..old(dev)@ }),
        final(dev)@.state.coherent(),
{
    dev.state.collection_running = false;
    dev.state.session_file = None;
    dev.state.unverify();
    if !dev.state.serial_connected {
        return ResetStep::Reply(disconnected_reply());
    }
    if dev.native_usb {
        return ResetStep::Restart("restart".to_owned());
    }
    ResetStep::PulseRts { path: dev.state.port_path.clone(), baud_rate: dev.state.baud_rate }
}

/// How a reset went.
#[derive(Debug)]
pub enum ResetEvent {
    /// The restart command was handed to the serial task.
    RestartQueued,
    /// It was not.
    RestartFailed(String),
    /// The port could not be opened a second time.
    OpenFailed(String),
    /// RTS could not be asserted.
    RtsFailed(String),
    /// The serial task is gone; nobody verifies the firmware.
    VerifyNotQueued,
    /// The firmware was verified anew.
    Verified(DeviceInfo),
    /// The firmware could not be verified.
    NotVerified(String),
    /// Nobody answered in time.
    VerifyTimedOut,
}

/// The chip of an identification block, or that it is not known.
pub open spec fn chip_or_unknown(info: InfoText) -> Seq<char> {
    match info.chip {
        Some(c) => c,
        None => "unknown chip"@,
    }
}

/// The answer to a reset request.
pub open spec fn reset_reply(event: ResetEvent) -> ReplyText {
    match event {
        ResetEvent::RestartQueued => success(
            "ESP32 restart issued via firmware (native USB-Serial-JTAG). The device will re-enumerate and re-verify automatically; poll GET /api/devices or GET /api/info to confirm."@,
        ),
        ResetEvent::RestartFailed(e) => failure(500, "Failed to queue restart command: "@ + e@),
        ResetEvent::OpenFailed(e) => failure(500, "Failed to open serial port for reset: "@ + e@),
        ResetEvent::RtsFailed(e) => failure(
            500,
            "RTS assert failed (adapter may not support it): "@ + e@,
        ),
        ResetEvent::VerifyNotQueued => success(
            "ESP32 reset triggered via RTS, but post-reset re-verification could not be queued (serial task is shutting down). Call GET /api/info to retry."@,
        ),
        ResetEvent::Verified(info) => success(
            "ESP32 reset; firmware re-verified: esp-csi-cli-rs/"@ + info@.banner_version + " ("@
                + chip_or_unknown(info@) + ")"@,
        ),
        ResetEvent::NotVerified(reason) => success(
            "ESP32 reset; firmware identity could NOT be re-verified (esp-csi-cli-rs may not be flashed): "@
                + reason@
                + ". Command endpoints will return 412 Precondition Failed until verification succeeds."@,
        ),
        ResetEvent::VerifyTimedOut => success(
            "ESP32 reset; post-reset re-verification timed out. Call GET /api/info to retry."@,
        ),
    }
}

/// The answer to a reset request.
pub fn reset_outcome(event: ResetEvent) -> (r: Reply)
    ensures
        r@ == reset_reply(event),
{
    match event {
        ResetEvent::RestartQueued => succeed(
            "ESP32 restart issued via firmware (native USB-Serial-JTAG). The device will re-enumerate and re-verify automatically; poll GET /api/devices or GET /api/info to confirm.".to_owned(),
        ),
        ResetEvent::RestartFailed(e) => fail(
            500,
            text::join2("Failed to queue restart command: ", e.as_str()),
        ),
        ResetEvent::OpenFailed(e) => fail(
            500,
            text::join2("Failed to open serial port for reset: ", e.as_str()),
        ),
        ResetEvent::RtsFailed(e) => fail(
            500,
            text::join2("RTS assert failed (adapter may not support it): ", e.as_str()),
        ),
        ResetEvent::VerifyNotQueued => succeed(
            "ESP32 reset triggered via RTS, but post-reset re-verification could not be queued (serial task is shutting down). Call GET /api/info to retry.".to_owned(),
        ),
        ResetEvent::Verified(info) => {
            let mut message = text::join3(
                "ESP32 reset; firmware re-verified: esp-csi-cli-rs/",
                info.banner_version.as_str(),
                " (",
            );
            match &info.chip {
                Some(c) => {
                    message.append(c.as_str());
                },
                None => {
                    message.append("unknown chip");
                },
            }
            message.append(")");
            succeed(message)
        },
        ResetEvent::NotVerified(reason) => succeed(
            text::join3(
                "ESP32 reset; firmware identity could NOT be re-verified (esp-csi-cli-rs may not be flashed): ",
                reason.as_str(),
                ". Command endpoints will return 412 Precondition Failed until verification succeeds.",
            ),
        ),
        ResetEvent::VerifyTimedOut => succeed(
            "ESP32 reset; post-reset re-verification timed out. Call GET /api/info to retry.".to_owned(),
        ),
    }
}

// ─── POST /api/control/stop ───────────────────────────────────────────────

/// How a collection is stopped.
pub open spec fn stop_step(s: StateText) -> StepText {
    if s.serial_connected && s.firmware_verified && !s.collection_running {
        StepText::Reply(success("Collection not running"@))
    } else {
        gated(s, "q"@)
    }
}

/// Stop an in-progress collection by sending a `q` over the serial port.
///
/// While the firmware collects, its CLI is locked: only `q`/`Q` is acted on, every
/// other byte is discarded, the line end that follows the `q` among them.
pub fn stop_collection(dev: &DeviceHandle) -> (r: Step)
    ensures
        r@ == stop_step(dev@.state),
{
    if dev.state.serial_connected && dev.state.firmware_verified && !dev.state.collection_running {
        return Step::Reply(succeed("Collection not running".to_owned()));
    }
    send_cmd(&dev.state, "q".to_owned())
}

/// The state after the stop command was handed to the serial task.
pub open spec fn stopped(s: StateText, fault: Option<Seq<char>>) -> StateText {
    match fault {
        None => StateText { collection_running: false, session_file: None, ..s },
        Some(_) => s,
    }
}

/// The answer after the stop command was handed to the serial task.
pub open spec fn stopped_reply(fault: Option<Seq<char>>) -> ReplyText {
    match fault {
        None => success("Collection stop requested"@),
        Some(e) => failure(500, "Failed to send stop: "@ + e),
    }
}

/// [`stop_collection`] after its command was handed to the serial task.
pub fn stop_collection_sent(dev: &mut DeviceHandle, sent: Result<(), String>) -> (r: Reply)
    ensures
        r@ == stopped_reply(send_fault(sent)),
        final(dev)@ == (DeviceText {
            state: stopped(old(dev)@.state, send_fault(sent)),
            ..old(dev)@
        }),
        old(dev)@.state.coherent() ==> final(dev)@.state.coherent(),
{
    match sent {
        Ok(_) => {
            dev.state.collection_running = false;
            dev.state.session_file = None;
            succeed("Collection stop requested".to_owned())
        },
        Err(e) => fail(500, text::join2("Failed to send stop: ", e.as_str())),
    }
}

// ─── POST /api/control/start ──────────────────────────────────────────────

/// How a collection is started.
#[derive(Debug)]
pub enum StartStep {
    /// Not at all: answer.
    Reply(Reply),
    /// By these two commands, in order. The first is sent on a best-effort basis: if
    /// it fails, so does the second.
    Send { prelude: String, command: String },
}

/// What a [`StartStep`] says.
#[verifier::ext_equal]
pub enum StartText {
    Reply(ReplyText),
    Send { prelude: Seq<char>, command: Seq<char> },
}

impl View for StartStep {
    type V = StartText;

    open spec fn view(&self) -> StartText {
        match *self {
            StartStep::Reply(r) => StartText::Reply(r@),
            StartStep::Send { prelude, command } => StartText::Send {
                prelude: prelude@,
                command: command@,
            },
        }
    }
}

/// The command that starts a collection.
pub open spec fn start_line(body: Option<StartConfig>) -> Seq<char> {
    match body {
        Some(b) => b.line(),
        None => "start"@,
    }
}

/// How a collection is started.
pub open spec fn start_step(s: StateText, body: Option<StartConfig>) -> StartText {
    if !s.serial_connected {
        StartText::Reply(disconnected())
    } else if !s.firmware_verified {
        StartText::Reply(unverified())
    } else if s.collection_running {
        StartText::Reply(failure(503, "Collection already running"@))
    } else {
        StartText::Send {
            prelude: "set-log-mode --mode=serialized"@,
            command: start_line(body),
        }
    }
}

/// The state while a start is under way.
pub open spec fn starting(s: StateText) -> StateText {
    StateText {
        collection_running: s.collection_running || (s.serial_connected && s.firmware_verified),
        ..s
    }
}

/// Start a collection, for a duration or until it is stopped. The body is optional.
///
/// The device is first put into `serialized` mode, the only format this server
/// consumes. The CLI is locked once collection runs, so this precedes `start`; the
/// ordered command channel guarantees that the device applies it first. The
/// collection counts as running from here on: of two starts at the same time one is
/// refused.
pub fn start_collection(dev: &mut DeviceHandle, body: &Option<StartConfig>) -> (r: StartStep)
    ensures
        r@ == start_step(old(dev)@.state, *body),
        final(dev)@ == (DeviceText { state: starting(old(dev)@.state), ..old(dev)@ }),
        old(dev)@.state.coherent() ==> final(dev)@.state.coherent(),
{
    if !dev.state.serial_connected {
        return StartStep::Reply(disconnected_reply());
    }
    if let Some(blocked) = dev.state.require_firmware() {
        return StartStep::Reply(blocked);
    }
    if dev.state.collection_running {
        return StartStep::Reply(fail(503, "Collection already running".to_owned()));
    }
    dev.state.collection_running = true;
    let command = match body {
        Some(b) => b.to_cli_command(),
        None => "start".to_owned(),
    };
    StartStep::Send { prelude: "set-log-mode --mode=serialized".to_owned(), command }
}

/// The file of a session: the device's id keeps concurrent devices from colliding
/// on one file.
pub open spec fn session_path(id: Seq<char>, stamp: Seq<char>) -> Seq<char> {
    "csi_dump_"@ + id + "_"@ + stamp + ".parquet"@
}

/// The state after the start command was handed to the serial task. The session
/// path is set whatever the output mode: the file is opened when frames are dumped.
pub open spec fn started(d: DeviceText, stamp: Seq<char>, fault: Option<Seq<char>>) -> StateText {
    match fault {
        None => StateText { session_file: Some(session_path(d.id, stamp)), ..d.state },
        Some(_) => StateText { collection_running: false, ..d.state },
    }
}

/// The answer after the start command was handed to the serial task.
pub open spec fn started_reply(s: StateText, cmd: Seq<char>, fault: Option<Seq<char>>) -> ReplyText {
    match fault {
        None => success("Collection started: "@ + cmd),
        Some(e) => if !s.serial_connected {
            disconnected()
        } else {
            failure(500, "Failed to start collection: "@ + e)
        },
    }
}

/// [`start_collection`] after its command was handed to the serial task at a time
/// that `stamp` denotes.
pub fn start_collection_sent_at(
    dev: &mut DeviceHandle,
    cmd: &str,
    sent: Result<(), String>,
    stamp: &str,
) -> (r: Reply)
    ensures
        r@ == started_reply(old(dev)@.state, cmd@, send_fault(sent)),
        final(dev)@ == (DeviceText {
            state: started(old(dev)@, stamp@, send_fault(sent)),
            ..old(dev)@
        }),
        old(dev)@.state.coherent() ==> final(dev)@.state.coherent(),
{
    match sent {
        Ok(_) => {
            let mut path = text::join3("csi_dump_", dev.id.as_str(), "_");
            path.append(stamp);
            path.append(".parquet");
            dev.state.session_file = Some(path);
            succeed(text::join2("Collection started: ", cmd))
        },
        Err(e) => {
            dev.state.collection_running = false;
            if !dev.state.serial_connected {
                disconnected_reply()
            } else {
                fail(500, text::join2("Failed to start collection: ", e.as_str()))
            }
        },
    }
}

/// Decimal digits.
pub open spec fn digits(s: Seq<char>) -> bool {
    forall|i: int| 0 <= i < s.len() ==> '0' <= #[trigger] s[i] <= '9'
}

/// A date and a time of day like `20260622_010203`: year, month and day, `_`, hour,
/// minute and second. The month, the day and the parts of the time have two digits
/// each, the year at least four, and a sign before it where there are not four.
pub open spec fn stamp_shape(s: Seq<char>) -> bool {
    let year = s.take(s.len() - 11);
    let rest = s.skip(s.len() - 11);
    &&& s.len() >= 15
    &&& digits(year) && year.len() == 4 || {
        &&& year.len() >= 5
        &&& year[0] == '+' || year[0] == '-'
        &&& digits(year.drop_first())
    }
    &&& digits(rest.take(4))
    &&& rest[4] == '_'
    &&& digits(rest.skip(5))
}

/// `chrono::Local::now`, formatted as date and time of day. Claimed: the text has the
/// shape of one; of the time it denotes nothing is claimed.
#[verifier::external_body]
fn session_stamp() -> (r: String)
    ensures
        stamp_shape(r@),
{
    chrono::Local::now().format("%Y%m%d_%H%M%S").to_string()
}

/// [`start_collection`] after its command was handed to the serial task just now.
pub fn start_collection_sent(dev: &mut DeviceHandle, cmd: &str, sent: Result<(), String>) -> (r:
    Reply)
    ensures
        r@ == started_reply(old(dev)@.state, cmd@, send_fault(sent)),
        exists|stamp: Seq<char>|
            stamp_shape(stamp) && final(dev)@ == (DeviceText {
                state: #[trigger] started(old(dev)@, stamp, send_fault(sent)),
                ..old(dev)@
            }),
        old(dev)@.state.coherent() ==> final(dev)@.state.coherent(),
{
    let stamp = session_stamp();
    start_collection_sent_at(dev, cmd, sent, stamp.as_str())
}

// ─── Laws ─────────────────────────────────────────────────────────────────

/// A collection that runs is not started again, and stays as it is.
pub proof fn law_no_second_start(s: StateText, body: Option<StartConfig>)
    requires
        s.collection_running,
    ensures
        start_step(s, body) is Reply,
        start_step(s, body)->Reply_0.success == false,
        starting(s) == s,
{
}

/// A started session that is stopped leaves the device as it was before: nothing
/// runs, and no session file is set.
pub proof fn law_stop_undoes_start(d: DeviceText, stamp: Seq<char>)
    requires
        d.state.serial_connected,
        d.state.firmware_verified,
        !d.state.collection_running,
        d.state.session_file is None,
    ensures
        ({
            let under_way = DeviceText { state: starting(d.state), ..d };
            let running = started(under_way, stamp, None);
            &&& running.collection_running
            &&& running.session_file is Some
            &&& stop_step(running) == StepText::Send("q"@)
            &&& stopped(running, None) == d.state
        }),
{
}

/// A start that fails leaves the device as it was before.
pub proof fn law_failed_start_leaves_nothing(d: DeviceText, stamp: Seq<char>, e: Seq<char>)
    requires
        d.state.serial_connected,
        d.state.firmware_verified,
        !d.state.collection_running,
    ensures
        started(DeviceText { state: starting(d.state), ..d }, stamp, Some(e)) == d.state,
{
}

/// A reset ends the session and blocks every command until the firmware is
/// verified anew.
pub proof fn law_reset_blocks_commands(s: StateText, cmd: Seq<char>)
    ensures
        !rebooting(s).collection_running,
        rebooting(s).session_file is None,
        gated(rebooting(s), cmd) is Reply,
        rebooting(s).serial_connected ==> gated(rebooting(s), cmd) == StepText::Reply(
            unverified(),
        ),
{
}

/// Sessions of different devices do not share a file, if they start at the same
/// time.
pub proof fn law_devices_do_not_share_files(a: Seq<char>, b: Seq<char>, stamp: Seq<char>)
    requires
        a != b,
    ensures
        session_path(a, stamp) != session_path(b, stamp),
{
    let (x, y) = (session_path(a, stamp), session_path(b, stamp));
    if x == y {
        let p = "csi_dump_"@.len() as int;
        assert(x.len() == y.len());
        assert(a.len() == b.len());
        assert(x.subrange(p, p + a.len()) =~= a);
        assert(y.subrange(p, p + b.len()) =~= b);
    }
}

/// A start on a connected, verified, idle device first puts it into `serialized` mode and
/// then sends `start`, with the duration in decimal where the body names one.
pub proof fn law_start_sends_the_duration(s: StateText, body: Option<StartConfig>)
    requires
        s.serial_connected,
        s.firmware_verified,
        !s.collection_running,
    ensures
        start_step(s, body) matches StartText::Send { prelude, command } && {
            &&& prelude == "set-log-mode --mode=serialized"@
            &&& body is None ==> command == "start"@
            &&& body matches Some(b) ==> b.duration is None ==> command == "start"@
            &&& body matches Some(b) ==> b.duration is Some ==> command == "start --duration="@
                + text::decimal(b.duration->0 as nat)
        },
        starting(s) == (StateText { collection_running: true, ..s }),
{
}

/// A start is refused on a device that is disconnected, not verified or collecting
/// already, in this order, and then changes nothing.
pub proof fn law_refused_starts(s: StateText, body: Option<StartConfig>)
    ensures
        !s.serial_connected ==> start_step(s, body) == StartText::Reply(
            (ReplyText {
                status: 503,
                success: false,
                message: "ESP32 disconnected; serial command unavailable"@,
            }),
        ),
        s.serial_connected && !s.firmware_verified ==> start_step(s, body) == StartText::Reply(
            (ReplyText {
                status: 412,
                success: false,
                message: "Firmware not verified as esp-csi-cli-rs. Call GET /api/info to verify, or POST /api/control/reset to power-cycle and re-check."@,
            }),
        ),
        s.serial_connected && s.firmware_verified && s.collection_running ==> start_step(s, body)
            == StartText::Reply(
            (ReplyText {
                status: 503,
                success: false,
                message: "Collection already running"@,
            }),
        ),
        start_step(s, body) is Reply ==> starting(s) == s,
{
}

/// A session that was started dumps to a file that is called after the device and the
/// time, and the answer names the command; one that could not be started does not run.
pub proof fn law_started_session(
    d: DeviceText,
    stamp: Seq<char>,
    cmd: Seq<char>,
    e: Seq<char>,
)
    ensures
        started(d, stamp, None) == (StateText {
            session_file: Some("csi_dump_"@ + d.id + "_"@ + stamp + ".parquet"@),
            ..d.state
        }),
        started(d, stamp, Some(e)) == (StateText { collection_running: false, ..d.state }),
        started_reply(d.state, cmd, None) == (ReplyText {
            status: 200,
            success: true,
            message: "Collection started: "@ + cmd,
        }),
        d.state.serial_connected ==> started_reply(d.state, cmd, Some(e)) == (ReplyText {
            status: 500,
            success: false,
            message: "Failed to start collection: "@ + e,
        }),
        !d.state.serial_connected ==> started_reply(d.state, cmd, Some(e)) == (ReplyText {
                status: 503,
                success: false,
                message: "ESP32 disconnected; serial command unavailable"@,
            }),
{
}

/// A stop sends `q` to a device that collects, and ends the session once it is sent; on
/// an idle device there is nothing to do, and on one that is disconnected or not
/// verified it is refused.
pub proof fn law_stop_sends_q(s: StateText, e: Seq<char>)
    ensures
        s.serial_connected && s.firmware_verified && s.collection_running ==> stop_step(s)
            == StepText::Send("q"@),
        s.serial_connected && s.firmware_verified && !s.collection_running ==> stop_step(s)
            == StepText::Reply(
            (ReplyText { status: 200, success: true, message: "Collection not running"@ }),
        ),
        !s.serial_connected ==> stop_step(s) == StepText::Reply(
            (ReplyText {
                status: 503,
                success: false,
                message: "ESP32 disconnected; serial command unavailable"@,
            }),
        ),
        s.serial_connected && !s.firmware_verified ==> stop_step(s) == StepText::Reply(
            (ReplyText {
                status: 412,
                success: false,
                message: "Firmware not verified as esp-csi-cli-rs. Call GET /api/info to verify, or POST /api/control/reset to power-cycle and re-check."@,
            }),
        ),
        stopped(s, None) == (StateText { collection_running: false, session_file: None, ..s }),
        stopped(s, Some(e)) == s,
        stopped_reply(None) == (ReplyText {
            status: 200,
            success: true,
            message: "Collection stop requested"@,
        }),
        stopped_reply(Some(e)) == (ReplyText {
            status: 500,
            success: false,
            message: "Failed to send stop: "@ + e,
        }),
{
}

/// A board on native USB is reset by the firmware command `restart`, any other by a pulse
/// on its own port at its own baud rate; a disconnected one is not. Whichever way, the
/// session is over and the firmware counts as unknown, and all else stays.
pub proof fn law_reset_by_adapter(d: DeviceText)
    ensures
        !d.state.serial_connected ==> reset_step(d) == ResetText::Reply(
            (ReplyText {
                status: 503,
                success: false,
                message: "ESP32 disconnected; serial command unavailable"@,
            }),
        ),
        d.state.serial_connected && d.native_usb ==> reset_step(d) == ResetText::Restart("restart"@),
        d.state.serial_connected && !d.native_usb ==> reset_step(d) == (ResetText::PulseRts {
            path: d.state.port_path,
            baud_rate: d.state.baud_rate,
        }),
        rebooting(d.state) == (StateText {
            collection_running: false,
            session_file: None,
            firmware_verified: false,
            device_info: None,
            ..d.state
        }),
{
}

/// A reset is answered with `500` and the reason where it could not be done, and with
/// `200` where it was done, whatever the firmware then turned out to be.
pub proof fn law_answers_of_resets(event: ResetEvent)
    ensures
        event matches ResetEvent::RestartFailed(e) ==> reset_reply(event) == (ReplyText {
            status: 500,
            success: false,
            message: "Failed to queue restart command: "@ + e@,
        }),
        event matches ResetEvent::OpenFailed(e) ==> reset_reply(event) == (ReplyText {
            status: 500,
            success: false,
            message: "Failed to open serial port for reset: "@ + e@,
        }),
        event matches ResetEvent::RtsFailed(e) ==> reset_reply(event) == (ReplyText {
            status: 500,
            success: false,
            message: "RTS assert failed (adapter may not support it): "@ + e@,
        }),
        event is RestartQueued ==> reset_reply(event) == (ReplyText {
            status: 200,
            success: true,
            message: "ESP32 restart issued via firmware (native USB-Serial-JTAG). The device will re-enumerate and re-verify automatically; poll GET /api/devices or GET /api/info to confirm."@,
        }),
        event is VerifyNotQueued ==> reset_reply(event) == (ReplyText {
            status: 200,
            success: true,
            message: "ESP32 reset triggered via RTS, but post-reset re-verification could not be queued (serial task is shutting down). Call GET /api/info to retry."@,
        }),
        event is VerifyTimedOut ==> reset_reply(event) == (ReplyText {
            status: 200,
            success: true,
            message: "ESP32 reset; post-reset re-verification timed out. Call GET /api/info to retry."@,
        }),
        event matches ResetEvent::Verified(i) ==> reset_reply(event) == (ReplyText {
            status: 200,
            success: true,
            message: "ESP32 reset; firmware re-verified: esp-csi-cli-rs/"@ + i.banner_version@ + " ("@
                + (match i.chip {
                Some(c) => c@,
                None => "unknown chip"@,
            }) + ")"@,
        }),
        event matches ResetEvent::NotVerified(reason) ==> reset_reply(event) == (ReplyText {
            status: 200,
            success: true,
            message: "ESP32 reset; firmware identity could NOT be re-verified (esp-csi-cli-rs may not be flashed): "@
                + reason@
                + ". Command endpoints will return 412 Precondition Failed until verification succeeds."@,
        }),
{
}

/// The status of a device shows its link, its collection and its port.
pub proof fn law_status_shows_the_device(s: AppState)
    ensures
        status_of(s).serial_connected == s.serial_connected,
        status_of(s).collection_running == s.collection_running,
        status_of(s).port_path@ == s.port_path@,
{
}

/// A step of a reset or of a start shows what it holds.
pub proof fn law_control_steps_show_their_fields(r: ResetStep, s: StartStep)
    ensures
        r matches ResetStep::Reply(a) ==> r@ == ResetText::Reply(a@),
        r matches ResetStep::Restart(c) ==> r@ == ResetText::Restart(c@),
        r matches ResetStep::PulseRts { path, baud_rate } ==> r@ == (ResetText::PulseRts {
            path: path@,
            baud_rate,
        }),
        s matches StartStep::Reply(a) ==> s@ == StartText::Reply(a@),
        s matches StartStep::Send { prelude, command } ==> s@ == (StartText::Send {
            prelude: prelude@,
            command: command@,
        }),
{
}

/// A stamp ends in four digits for the day, a `_` and six digits for the time. Before them
/// stands the year: four digits, or a sign and at least four.
pub proof fn law_shape_of_stamps(s: Seq<char>)
    ensures
        stamp_shape(s) <==> {
            &&& s.len() >= 15
            &&& s[s.len() - 7] == '_'
            &&& forall|i: int|
                s.len() - 11 <= i < s.len() && i != s.len() - 7 ==> '0' <= #[trigger] s[i] && s[i]
                    <= '9'
            &&& forall|i: int| 0 < i < s.len() - 11 ==> '0' <= #[trigger] s[i] && s[i] <= '9'
            &&& s.len() == 15 ==> '0' <= s[0] && s[0] <= '9'
            &&& s.len() > 15 ==> s[0] == '+' || s[0] == '-'
        },
{
    if s.len() >= 15 {
        let n = s.len() as int;
        let year = s.take(n - 11);
        let rest = s.skip(n - 11);
        let day = rest.take(4);
        let time = rest.skip(5);
        let later = year.drop_first();
        assert(forall|i: int| 0 <= i < n - 11 ==> year[i] == s[i]);
        assert(forall|i: int| 0 <= i < 4 ==> day[i] == s[n - 11 + i]);
        assert(forall|i: int| 0 <= i < 6 ==> time[i] == s[n - 6 + i]);
        assert(forall|i: int| n - 11 <= i < n - 7 ==> #[trigger] s[i] == day[i - (n - 11)]);
        assert(forall|i: int| n - 6 <= i < n ==> #[trigger] s[i] == time[i - (n - 6)]);
        assert(forall|i: int| 0 <= i < n - 12 ==> later[i] == s[i + 1]);
        assert(forall|i: int| 0 < i < n - 11 ==> #[trigger] s[i] == later[i - 1]);
        assert(forall|i: int| 0 <= i < n - 11 ==> #[trigger] s[i] == year[i]);
        assert(rest[4] == s[n - 7]);
    }
}

} // verus!
