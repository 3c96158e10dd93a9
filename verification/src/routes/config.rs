//! Handlers for configuration endpoints under `/api/config/*`.
//!
//! An endpoint that sends a command comes in two parts. The first checks the body
//! and the device and says what to do: answer at once, or hand a line to the serial
//! task. The second (`…_sent`) is told how that went, updates the cached
//! configuration and answers.

use vstd::prelude::*;

use crate::csi::{chip_layout, ChipVariant};
use crate::models::{
    CollectionModeConfig, CollectionText, ConfigText, CsiConfig, CsiConfigSection,
    CsiDeliveryConfig, DeviceConfig, DeviceInfo, InfoText, IoTasksConfig, LogMode, LogModeConfig,
    OutputMode, OutputModeConfig, RateConfig, TrafficConfig, WifiConfig, WifiText,
};
use crate::state::{
    disconnected, disconnected_reply, fail, failure, opt_info, succeed, success, unverified,
    AppState, Reply, ReplyText, StateText, Step, StepText,
};
use crate::text;

verus! {

// ─── Shared helpers ───────────────────────────────────────────────────────

/// The answer to a body that is refused.
pub fn bad_request(message: String) -> (r: Reply)
    ensures
        r@ == failure(400, message@),
{
    fail(400, message)
}

/// What is done with a command: it is only sent to a connected device whose
/// firmware is verified.
pub open spec fn gated(s: StateText, cmd: Seq<char>) -> StepText {
    if !s.serial_connected {
        StepText::Reply(disconnected())
    } else if !s.firmware_verified {
        StepText::Reply(unverified())
    } else {
        StepText::Send(cmd)
    }
}

/// What is done with a body that may be refused.
pub open spec fn gated_line(s: StateText, line: Result<Seq<char>, Seq<char>>) -> StepText {
    match line {
        Ok(cmd) => gated(s, cmd),
        Err(e) => StepText::Reply(failure(400, e)),
    }
}

/// What is done with a command.
pub fn send_cmd(state: &AppState, cmd: String) -> (r: Step)
    ensures
        r@ == gated(state@, cmd@),
{
    if !state.serial_connected {
        return Step::Reply(disconnected_reply());
    }
    if let Some(blocked) = state.require_firmware() {
        return Step::Reply(blocked);
    }
    Step::Send(cmd)
}

fn send_line(state: &AppState, line: Result<String, String>) -> (r: Step)
    ensures
        r@ == gated_line(state@, text::result_text(line)),
{
    match line {
        Ok(cmd) => send_cmd(state, cmd),
        Err(message) => Step::Reply(bad_request(message)),
    }
}

/// The fault in handing a command to the serial task, as text.
pub open spec fn send_fault(sent: Result<(), String>) -> Option<Seq<char>> {
    match sent {
        Ok(_) => None,
        Err(e) => Some(e@),
    }
}

/// The answer after a command was handed to the serial task.
pub open spec fn sent_reply(s: StateText, cmd: Seq<char>, fault: Option<Seq<char>>) -> ReplyText {
    match fault {
        None => success("Sent: "@ + cmd),
        Some(e) => if !s.serial_connected {
            disconnected()
        } else {
            failure(500, "Failed to send command: "@ + e)
        },
    }
}

/// The answer after a command was handed to the serial task.
pub fn cmd_sent(state: &AppState, cmd: &str, sent: &Result<(), String>) -> (r: Reply)
    ensures
        r@ == sent_reply(state@, cmd@, send_fault(*sent)),
{
    match sent {
        Ok(_) => succeed(text::join2("Sent: ", cmd)),
        Err(e) => if !state.serial_connected {
            disconnected_reply()
        } else {
            fail(500, text::join2("Failed to send command: ", e.as_str()))
        },
    }
}

/// The state with another cached configuration, where the command was sent.
pub open spec fn cached(s: StateText, config: ConfigText, fault: Option<Seq<char>>) -> StateText {
    match fault {
        None => StateText { config, ..s },
        Some(_) => s,
    }
}

// ─── GET /api/config ──────────────────────────────────────────────────────

/// The cached device configuration.
pub fn get_config(state: &AppState) -> (r: DeviceConfig)
    ensures
        r == state.config,
{
    state.config.clone()
}

// ─── POST /api/config/reset ───

/// What is done to set a device back.
pub open spec fn reset_config_step(s: StateText) -> StepText {
    gated(s, "reset-config"@)
}

/// Set the device back to the firmware's defaults.
pub fn reset_config(state: &AppState) -> (r: Step)
    ensures
        r@ == reset_config_step(state@),
{
    send_cmd(state, "reset-config".to_owned())
}

/// [`reset_config`] after its command was handed to the serial task.
pub fn reset_config_sent(state: &mut AppState, cmd: &str, sent: Result<(), String>) -> (r: Reply)
    ensures
        r@ == sent_reply(old(state)@, cmd@, send_fault(sent)),
        final(state)@ == cached(
            old(state)@,
            crate::models::default_config(),
            send_fault(sent),
        ),
        old(state)@.coherent() ==> final(state)@.coherent(),
{
    let reply = cmd_sent(state, cmd, &sent);
    if sent.is_ok() {
        state.config = DeviceConfig::firmware_defaults();
    }
    reply
}

// ─── POST /api/config/wifi ───

/// The channel that a device operates on unless another one is asked for.
pub open spec fn default_channel(info: Option<InfoText>) -> u8 {
    match info {
        Some(i) => match i.chip {
            Some(chip) => match chip_layout(chip) {
                Some(ChipVariant::Esp32c5) => 149,
                Some(ChipVariant::Esp32c6) => 6,
                _ => 1,
            },
            None => 1,
        },
        None => 1,
    }
}

/// A body whose channel is filled in where it is left out. A station derives its
/// channel from the access point, so it is left open there.
pub open spec fn with_default_channel(body: WifiConfig, info: Option<InfoText>) -> WifiConfig {
    WifiConfig {
        channel: if body.channel is None && body.mode@ != "station"@ {
            Some(default_channel(info))
        } else {
            body.channel
        },
        ..body
    }
}

fn channel_of_chip(info: &Option<DeviceInfo>) -> (r: u8)
    ensures
        r == default_channel(opt_info(*info)),
{
    match info {
        Some(i) => match &i.chip {
            Some(chip) => match ChipVariant::from_chip_str(chip.as_str()) {
                Some(ChipVariant::Esp32c5) => 149,
                Some(ChipVariant::Esp32c6) => 6,
                _ => 1,
            },
            None => 1,
        },
        None => 1,
    }
}

/// What is done with a `set-wifi` body.
pub open spec fn wifi_step(s: StateText, body: WifiConfig) -> StepText {
    gated_line(s, with_default_channel(body, s.device_info).line())
}

/// Set the Wi-Fi mode and its parameters. Outside `station` mode, a channel that is
/// left out is the default of the device's chip.
pub fn set_wifi(state: &AppState, body: &WifiConfig) -> (r: Step)
    ensures
        r@ == wifi_step(state@, *body),
{
    let channel: Option<u8> = if body.channel.is_none() && !text::same(
        body.mode.as_str(),
        "station",
    ) {
        Some(channel_of_chip(&state.device_info))
    } else {
        body.channel
    };
    let filled = WifiConfig {
        mode: body.mode.clone(),
        sta_ssid: text::copy_opt(&body.sta_ssid),
        sta_password: text::copy_opt(&body.sta_password),
        channel,
        peer_mac: text::copy_opt(&body.peer_mac),
        ht40: text::copy_opt(&body.ht40),
    };
    send_line(state, filled.to_cli_command())
}

/// What the cache shows of a peer filter that was sent: an empty one cleared it.
pub open spec fn shown_peer_mac(sent: Option<Seq<char>>, before: Option<Seq<char>>) -> Option<
    Seq<char>,
> {
    match sent {
        Some(m) => if m.len() == 0 {
            Some("auto"@)
        } else {
            Some(m)
        },
        None => before,
    }
}

/// What the cache shows of a secondary channel that was sent: `off` is `none`.
pub open spec fn shown_ht40(sent: Option<Seq<char>>, before: Option<Seq<char>>) -> Option<
    Seq<char>,
> {
    match sent {
        Some(h) => if h == "off"@ {
            Some("none"@)
        } else {
            Some(h)
        },
        None => before,
    }
}

/// `new` where it is given.
pub open spec fn or_before<T>(new: Option<T>, before: Option<T>) -> Option<T> {
    match new {
        Some(_) => new,
        None => before,
    }
}

/// The cached configuration after `set-wifi`. The password is not part of it.
pub open spec fn with_wifi(c: ConfigText, body: WifiConfig) -> ConfigText {
    ConfigText {
        wifi: WifiText {
            mode: Some(body.mode@),
            channel: or_before(body.channel, c.wifi.channel),
            sta_ssid: or_before(text::opt_text(body.sta_ssid), c.wifi.sta_ssid),
            peer_mac: shown_peer_mac(text::opt_text(body.peer_mac), c.wifi.peer_mac),
            ht40: shown_ht40(text::opt_text(body.ht40), c.wifi.ht40),
        },
        ..c
    }
}

/// [`set_wifi`] after its command was handed to the serial task.
pub fn set_wifi_sent(
    state: &mut AppState,
    body: WifiConfig,
    cmd: &str,
    sent: Result<(), String>,
) -> (r: Reply)
    ensures
        r@ == sent_reply(old(state)@, cmd@, send_fault(sent)),
        final(state)@ == cached(
            old(state)@,
            with_wifi(old(state)@.config, body),
            send_fault(sent),
        ),
        old(state)@.coherent() ==> final(state)@.coherent(),
{
    let reply = cmd_sent(state, cmd, &sent);
    if sent.is_ok() {
        state.config.wifi.mode = Some(body.mode);
        if body.channel.is_some() {
            state.config.wifi.channel = body.channel;
        }
        if body.sta_ssid.is_some() {
            state.config.wifi.sta_ssid = body.sta_ssid;
        }
        if let Some(mac) = body.peer_mac {
            let chars = text::chars_of(mac.as_str());
            state.config.wifi.peer_mac = Some(
                if chars.len() == 0 {
                    "auto".to_owned()
                } else {
                    mac
                },
            );
        }
        if let Some(ht40) = body.ht40 {
            state.config.wifi.ht40 = Some(
                if text::same(ht40.as_str(), "off") {
                    "none".to_owned()
                } else {
                    ht40
                },
            );
        }
    }
    reply
}

// ─── POST /api/config/traffic ───

/// What is done with a `set-traffic` body.
pub open spec fn traffic_step(s: StateText, body: TrafficConfig) -> StepText {
    gated(s, body.line())
}

/// Set the traffic generation frequency.
pub fn set_traffic(state: &AppState, body: &TrafficConfig) -> (r: Step)
    ensures
        r@ == traffic_step(state@, *body),
{
    send_cmd(state, body.to_cli_command())
}

/// The cached configuration after `set-traffic`.
pub open spec fn with_traffic(c: ConfigText, body: TrafficConfig) -> ConfigText {
    ConfigText {
        collection: CollectionText { traffic_hz: Some(body.frequency_hz), ..c.collection },
        ..c
    }
}

/// [`set_traffic`] after its command was handed to the serial task.
pub fn set_traffic_sent(
    state: &mut AppState,
    body: TrafficConfig,
    cmd: &str,
    sent: Result<(), String>,
) -> (r: Reply)
    ensures
        r@ == sent_reply(old(state)@, cmd@, send_fault(sent)),
        final(state)@ == cached(
            old(state)@,
            with_traffic(old(state)@.config, body),
            send_fault(sent),
        ),
        old(state)@.coherent() ==> final(state)@.coherent(),
{
    let reply = cmd_sent(state, cmd, &sent);
    if sent.is_ok() {
        state.config.collection.traffic_hz = Some(body.frequency_hz);
    }
    reply
}

// ─── POST /api/config/csi ───

/// What is done with a `set-csi` body.
pub open spec fn csi_step(s: StateText, body: CsiConfig) -> StepText {
    gated(s, body.line())
}

/// Disable CSI features. There is no flag that enables one again; a reset does.
pub fn set_csi(state: &AppState, body: &CsiConfig) -> (r: Step)
    ensures
        r@ == csi_step(state@, *body),
{
    send_cmd(state, body.to_cli_command())
}

/// A classic feature after its flag was sent.
pub open spec fn unless_disabled(disable: Option<bool>, before: Option<bool>) -> Option<bool> {
    if disable == Some(true) {
        Some(false)
    } else {
        before
    }
}

/// An HE feature (`0` is disabled) after its flag was sent.
pub open spec fn unless_zeroed(disable: Option<bool>, before: Option<u32>) -> Option<u32> {
    if disable == Some(true) {
        Some(0u32)
    } else {
        before
    }
}

/// The cached CSI section after `set-csi`. The read-only fields stay.
pub open spec fn with_csi(c: CsiConfigSection, body: CsiConfig) -> CsiConfigSection {
    CsiConfigSection {
        lltf_enabled: unless_disabled(body.disable_lltf, c.lltf_enabled),
        htltf_enabled: unless_disabled(body.disable_htltf, c.htltf_enabled),
        stbc_htltf_enabled: unless_disabled(body.disable_stbc_htltf, c.stbc_htltf_enabled),
        ltf_merge_enabled: unless_disabled(body.disable_ltf_merge, c.ltf_merge_enabled),
        acquire_csi: unless_zeroed(body.disable_csi, c.acquire_csi),
        acquire_csi_legacy: unless_zeroed(body.disable_csi_legacy, c.acquire_csi_legacy),
        acquire_csi_ht20: unless_zeroed(body.disable_csi_ht20, c.acquire_csi_ht20),
        acquire_csi_ht40: unless_zeroed(body.disable_csi_ht40, c.acquire_csi_ht40),
        acquire_csi_su: unless_zeroed(body.disable_csi_su, c.acquire_csi_su),
        acquire_csi_mu: unless_zeroed(body.disable_csi_mu, c.acquire_csi_mu),
        acquire_csi_dcm: unless_zeroed(body.disable_csi_dcm, c.acquire_csi_dcm),
        acquire_csi_beamformed: unless_zeroed(body.disable_csi_beamformed, c.acquire_csi_beamformed),
        csi_he_stbc: or_before(body.csi_he_stbc, c.csi_he_stbc),
        val_scale_cfg: or_before(body.val_scale_cfg, c.val_scale_cfg),
        ..c
    }
}

fn flag_after(disable: Option<bool>, before: Option<bool>) -> (r: Option<bool>)
    ensures
        r == unless_disabled(disable, before),
{
    match disable {
        Some(true) => Some(false),
        _ => before,
    }
}

fn word_after(disable: Option<bool>, before: Option<u32>) -> (r: Option<u32>)
    ensures
        r == unless_zeroed(disable, before),
{
    match disable {
        Some(true) => Some(0),
        _ => before,
    }
}

fn number_after(new: Option<u32>, before: Option<u32>) -> (r: Option<u32>)
    ensures
        r == or_before(new, before),
{
    match new {
        Some(_) => new,
        None => before,
    }
}

/// The cached CSI section after `set-csi`.
fn csi_after(c: &CsiConfigSection, body: &CsiConfig) -> (r: CsiConfigSection)
    ensures
        r == with_csi(*c, *body),
{
    CsiConfigSection {

        lltf_enabled: flag_after(body.disable_lltf, c.lltf_enabled),
        htltf_enabled: flag_after(body.disable_htltf, c.htltf_enabled),
        stbc_htltf_enabled: flag_after(body.disable_stbc_htltf, c.stbc_htltf_enabled),
        ltf_merge_enabled: flag_after(body.disable_ltf_merge, c.ltf_merge_enabled),
        acquire_csi: word_after(body.disable_csi, c.acquire_csi),
        acquire_csi_legacy: word_after(body.disable_csi_legacy, c.acquire_csi_legacy),
        acquire_csi_ht20: word_after(body.disable_csi_ht20, c.acquire_csi_ht20),
        acquire_csi_ht40: word_after(body.disable_csi_ht40, c.acquire_csi_ht40),
        acquire_csi_su: word_after(body.disable_csi_su, c.acquire_csi_su),
        acquire_csi_mu: word_after(body.disable_csi_mu, c.acquire_csi_mu),
        acquire_csi_dcm: word_after(body.disable_csi_dcm, c.acquire_csi_dcm),
        acquire_csi_beamformed: word_after(body.disable_csi_beamformed, c.acquire_csi_beamformed),
        csi_he_stbc: number_after(body.csi_he_stbc, c.csi_he_stbc),
        val_scale_cfg: number_after(body.val_scale_cfg, c.val_scale_cfg),
        channel_filter_enabled: c.channel_filter_enabled,
        manual_scale: c.manual_scale,
        shift: c.shift,
        dump_ack_enabled: c.dump_ack_enabled,
    }
}

/// [`set_csi`] after its command was handed to the serial task.
pub fn set_csi_sent(
    state: &mut AppState,
    body: CsiConfig,
    cmd: &str,
    sent: Result<(), String>,
) -> (r: Reply)
    ensures
        r@ == sent_reply(old(state)@, cmd@, send_fault(sent)),
        final(state)@ == cached(
            old(state)@,
            (ConfigText {
                csi_config: with_csi(old(state)@.config.csi_config, body),
                ..old(state)@.config
            }),
            send_fault(sent),
        ),
        old(state)@.coherent() ==> final(state)@.coherent(),
{
    let reply = cmd_sent(state, cmd, &sent);
    if sent.is_ok() {
        state.config.csi_config = csi_after(&state.config.csi_config, &body);
    }
    reply
}

// ─── POST /api/config/collection-mode ───

/// What is done with a `set-collection-mode` body.
pub open spec fn collection_mode_step(s: StateText, body: CollectionModeConfig) -> StepText {
    gated_line(s, body.line())
}

/// Set the collection mode.
pub fn set_collection_mode(state: &AppState, body: &CollectionModeConfig) -> (r: Step)
    ensures
        r@ == collection_mode_step(state@, *body),
{
    send_line(state, body.to_cli_command())
}

/// The cached configuration after `set-collection-mode`.
pub open spec fn with_collection_mode(c: ConfigText, body: CollectionModeConfig) -> ConfigText {
    ConfigText { collection: CollectionText { mode: Some(body.mode@), ..c.collection }, ..c }
}

/// [`set_collection_mode`] after its command was handed to the serial task.
pub fn set_collection_mode_sent(
    state: &mut AppState,
    body: CollectionModeConfig,
    cmd: &str,
    sent: Result<(), String>,
) -> (r: Reply)
    ensures
        r@ == sent_reply(old(state)@, cmd@, send_fault(sent)),
        final(state)@ == cached(
            old(state)@,
            with_collection_mode(old(state)@.config, body),
            send_fault(sent),
        ),
        old(state)@.coherent() ==> final(state)@.coherent(),
{
    let reply = cmd_sent(state, cmd, &sent);
    if sent.is_ok() {
        state.config.collection.mode = Some(body.mode);
    }
    reply
}

// ─── POST /api/config/log-mode ───

/// What is done with a `set-log-mode` body.
pub open spec fn log_mode_step(s: StateText, body: Option<LogModeConfig>) -> StepText {
    match body {
        Some(b) => gated(s, b.line()),
        None => StepText::Reply(
            failure(
                400,
                "Invalid log mode. Use one of: text, array-list, serialized, esp-csi-tool"@,
            ),
        ),
    }
}

/// Set the log mode on the device. `body` is `None` where it named no mode that
/// there is:
/// - `"text"`: human-readable multiline packet output
/// - `"array-list"`: compact one-line text output per packet
/// - `"serialized"`: COBS-encoded binary frames, null-byte delimited
/// - `"esp-csi-tool"`: Hernandez 26-column CSV
pub fn set_log_mode(state: &AppState, body: &Option<LogModeConfig>) -> (r: Step)
    ensures
        r@ == log_mode_step(state@, *body),
{
    match body {
        Some(b) => send_cmd(state, b.to_cli_command()),
        None => Step::Reply(
            bad_request(
                "Invalid log mode. Use one of: text, array-list, serialized, esp-csi-tool".to_owned(),
            ),
        ),
    }
}

/// The state after `set-log-mode` was handed to the serial task.
pub open spec fn with_log_mode(
    s: StateText,
    body: LogModeConfig,
    fault: Option<Seq<char>>,
) -> StateText {
    match fault {
        None => StateText {
            config: ConfigText {
                log_mode: Some(crate::models::log_mode_name(body.mode)),
                ..s.config
            },
            log_mode: body.mode,
            ..s
        },
        Some(_) => s,
    }
}

/// [`set_log_mode`] after its command was handed to the serial task.
pub fn set_log_mode_sent(
    state: &mut AppState,
    body: LogModeConfig,
    cmd: &str,
    sent: Result<(), String>,
) -> (r: Reply)
    ensures
        r@ == sent_reply(old(state)@, cmd@, send_fault(sent)),
        final(state)@ == with_log_mode(old(state)@, body, send_fault(sent)),
        old(state)@.coherent() ==> final(state)@.coherent(),
{
    let reply = cmd_sent(state, cmd, &sent);
    if sent.is_ok() {
        state.config.log_mode = Some(body.mode.as_cli_value().to_owned());
        state.log_mode = body.mode;
    }
    reply
}

// ─── POST /api/config/output-mode ───

/// The output mode of that name, in any case.
pub open spec fn output_mode_of(name: Seq<char>) -> Option<OutputMode> {
    let small = text::lower(name);
    if small == "stream"@ {
        Some(OutputMode::Stream)
    } else if small == "dump"@ {
        Some(OutputMode::Dump)
    } else if small == "both"@ {
        Some(OutputMode::Both)
    } else {
        None
    }
}

/// Switch the server's CSI output mode at runtime:
/// - `stream` (default): broadcast to WebSocket clients
/// - `dump`: write to the session file; the WebSocket returns 403
/// - `both`: write to the file and broadcast
///
/// The change takes effect for the very next CSI frame (see
/// [`law_mode_switch_governs_the_next_frame`](crate::serial::link::law_mode_switch_governs_the_next_frame)).
/// If no session has been started yet, the file is opened as soon as one is.
pub fn set_output_mode(state: &mut AppState, body: &OutputModeConfig) -> (r: Reply)
    ensures
        match output_mode_of(body.mode@) {
            Some(mode) => {
                &&& r@ == success("Output mode set to "@ + body.mode@)
                &&& final(state)@ == (StateText { output_mode: mode, ..old(state)@ })
            },
            None => {
                &&& r@ == failure(
                    400,
                    "Unknown output mode '"@ + text::lower(body.mode@)
                        + "'; expected stream, dump, or both"@,
                )
                &&& *final(state) == *old(state)
            },
        },
        old(state)@.coherent() ==> final(state)@.coherent(),
{
    let name = text::lower_text(body.mode.as_str());
    let mode = if text::same(name.as_str(), "stream") {
        OutputMode::Stream
    } else if text::same(name.as_str(), "dump") {
        OutputMode::Dump
    } else if text::same(name.as_str(), "both") {
        OutputMode::Both
    } else {
        return bad_request(
            text::join3(
                "Unknown output mode '",
                name.as_str(),
                "'; expected stream, dump, or both",
            ),
        );
    };
    state.output_mode = mode;
    succeed(text::join2("Output mode set to ", body.mode.as_str()))
}

// ─── POST /api/config/rate ───

/// What is done with a `set-rate` body.
pub open spec fn rate_step(s: StateText, body: RateConfig) -> StepText {
    gated(s, body.line())
}

/// Pin the Wi-Fi PHY rate (only honored by ESP-NOW central / peripheral modes on
/// the firmware side; sniffer and station ignore it).
pub fn set_rate(state: &AppState, body: &RateConfig) -> (r: Step)
    ensures
        r@ == rate_step(state@, *body),
{
    send_cmd(state, body.to_cli_command())
}

/// The cached configuration after `set-rate`.
pub open spec fn with_rate(c: ConfigText, body: RateConfig) -> ConfigText {
    ConfigText { collection: CollectionText { phy_rate: Some(body.rate@), ..c.collection }, ..c }
}

/// [`set_rate`] after its command was handed to the serial task.
pub fn set_rate_sent(
    state: &mut AppState,
    body: RateConfig,
    cmd: &str,
    sent: Result<(), String>,
) -> (r: Reply)
    ensures
        r@ == sent_reply(old(state)@, cmd@, send_fault(sent)),
        final(state)@ == cached(
            old(state)@,
            with_rate(old(state)@.config, body),
            send_fault(sent),
        ),
        old(state)@.coherent() ==> final(state)@.coherent(),
{
    let reply = cmd_sent(state, cmd, &sent);
    if sent.is_ok() {
        state.config.collection.phy_rate = Some(body.rate);
    }
    reply
}

// ─── POST /api/config/io-tasks ───

/// What is done with a `set-io-tasks` body.
pub open spec fn io_tasks_step(s: StateText, body: IoTasksConfig) -> StepText {
    gated_line(s, body.line())
}

/// Toggle the per-direction TX/RX tasks. Either or both fields may be set; omitted
/// fields preserve the current device-side value.
pub fn set_io_tasks(state: &AppState, body: &IoTasksConfig) -> (r: Step)
    ensures
        r@ == io_tasks_step(state@, *body),
{
    send_line(state, body.to_cli_command())
}

/// The cached configuration after `set-io-tasks`.
pub open spec fn with_io_tasks(c: ConfigText, body: IoTasksConfig) -> ConfigText {
    ConfigText {
        collection: CollectionText {
            io_tx_enabled: or_before(body.tx, c.collection.io_tx_enabled),
            io_rx_enabled: or_before(body.rx, c.collection.io_rx_enabled),
            ..c.collection
        },
        ..c
    }
}

/// [`set_io_tasks`] after its command was handed to the serial task.
pub fn set_io_tasks_sent(
    state: &mut AppState,
    body: IoTasksConfig,
    cmd: &str,
    sent: Result<(), String>,
) -> (r: Reply)
    ensures
        r@ == sent_reply(old(state)@, cmd@, send_fault(sent)),
        final(state)@ == cached(
            old(state)@,
            with_io_tasks(old(state)@.config, body),
            send_fault(sent),
        ),
        old(state)@.coherent() ==> final(state)@.coherent(),
{
    let reply = cmd_sent(state, cmd, &sent);
    if sent.is_ok() {
        if body.tx.is_some() {
            state.config.collection.io_tx_enabled = body.tx;
        }
        if body.rx.is_some() {
            state.config.collection.io_rx_enabled = body.rx;
        }
    }
    reply
}

// ─── POST /api/config/csi-delivery ───

/// What is done with a `set-csi-delivery` body.
pub open spec fn csi_delivery_step(s: StateText, body: CsiDeliveryConfig) -> StepText {
    gated_line(s, body.line())
}

/// Switch the CSI delivery path and/or toggle the inline log gate. Either or both
/// fields may be set; omitted fields preserve the current device-side value.
pub fn set_csi_delivery(state: &AppState, body: &CsiDeliveryConfig) -> (r: Step)
    ensures
        r@ == csi_delivery_step(state@, *body),
{
    send_line(state, body.to_cli_command())
}

/// The cached configuration after `set-csi-delivery`.
pub open spec fn with_delivery(c: ConfigText, body: CsiDeliveryConfig) -> ConfigText {
    ConfigText {
        csi_delivery_mode: or_before(text::opt_text(body.mode), c.csi_delivery_mode),
        csi_logging_enabled: or_before(body.logging, c.csi_logging_enabled),
        ..c
    }
}

/// [`set_csi_delivery`] after its command was handed to the serial task.
pub fn set_csi_delivery_sent(
    state: &mut AppState,
    body: CsiDeliveryConfig,
    cmd: &str,
    sent: Result<(), String>,
) -> (r: Reply)
    ensures
        r@ == sent_reply(old(state)@, cmd@, send_fault(sent)),
        final(state)@ == cached(
            old(state)@,
            with_delivery(old(state)@.config, body),
            send_fault(sent),
        ),
        old(state)@.coherent() ==> final(state)@.coherent(),
{
    let reply = cmd_sent(state, cmd, &sent);
    if sent.is_ok() {
        if body.mode.is_some() {
            state.config.csi_delivery_mode = body.mode;
        }
        if body.logging.is_some() {
            state.config.csi_logging_enabled = body.logging;
        }
    }
    reply
}

// ─── POST /api/control/stats ───

/// What is done to have the counters printed.
pub open spec fn stats_step(s: StateText) -> StepText {
    gated(s, "show-stats"@)
}

/// Trigger `show-stats` on the device. The firmware prints the counters over the
/// serial port. Answered by [`cmd_sent`].
pub fn show_stats(state: &AppState) -> (r: Step)
    ensures
        r@ == stats_step(state@),
{
    send_cmd(state, "show-stats".to_owned())
}

// ─── Laws ─────────────────────────────────────────────────────────────────

/// A command goes to a device only while it is connected and its firmware is
/// verified; and then it goes as it is.
pub proof fn law_commands_need_verified_firmware(s: StateText, cmd: Seq<char>)
    ensures
        gated(s, cmd) is Send <==> s.serial_connected && s.firmware_verified,
        gated(s, cmd) is Send ==> gated(s, cmd) == StepText::Send(cmd),
        s.serial_connected && !s.firmware_verified ==> gated(s, cmd) == StepText::Reply(
            unverified(),
        ),
        !s.serial_connected ==> gated(s, cmd) == StepText::Reply(disconnected()),
{
}

/// A body that is refused is refused whatever the state of the device, and nothing
/// is sent.
pub proof fn law_refused_bodies_are_not_sent(
    s: StateText,
    line: Result<Seq<char>, Seq<char>>,
)
    requires
        line is Err,
    ensures
        gated_line(s, line) == StepText::Reply(failure(400, line->Err_0)),
{
}

/// The channel that a body names is sent as it is. Where it names none, a station is
/// told none, and a device in any other mode the default of its chip.
pub proof fn law_channels_are_filled_outside_station(body: WifiConfig, info: Option<InfoText>)
    ensures
        ({
            let filled = with_default_channel(body, info);
            &&& body.channel is Some ==> filled == body
            &&& body.mode@ == "station"@ ==> filled == body
            &&& body.channel is None && body.mode@ != "station"@ ==> filled.channel == Some(
                default_channel(info),
            )
            &&& filled == (WifiConfig { channel: filled.channel, ..body })
        }),
{
}

/// The cached configuration does not depend on the station password.
pub proof fn law_password_is_not_cached(c: ConfigText, a: WifiConfig, b: WifiConfig)
    requires
        a == (WifiConfig { sta_password: a.sta_password, ..b }),
    ensures
        with_wifi(c, a) == with_wifi(c, b),
{
}

/// A command that could not be sent leaves the cached configuration as it was.
pub proof fn law_failed_commands_change_nothing(s: StateText, config: ConfigText, e: Seq<char>)
    ensures
        cached(s, config, Some(e)) == s,
{
}

/// After a CSI feature was disabled, the cache shows it disabled until a reset:
/// no further `set-csi` shows it enabled.
pub proof fn law_disabled_features_stay_disabled(
    c: CsiConfigSection,
    first: CsiConfig,
    second: CsiConfig,
)
    ensures
        first.disable_lltf == Some(true) ==> with_csi(with_csi(c, first), second).lltf_enabled
            == Some(false),
        first.disable_htltf == Some(true) ==> with_csi(with_csi(c, first), second).htltf_enabled
            == Some(false),
        first.disable_stbc_htltf == Some(true) ==> with_csi(
            with_csi(c, first),
            second,
        ).stbc_htltf_enabled
            == Some(false),
        first.disable_ltf_merge == Some(true) ==> with_csi(
            with_csi(c, first),
            second,
        ).ltf_merge_enabled
            == Some(false),
        first.disable_csi == Some(true) ==> with_csi(with_csi(c, first), second).acquire_csi
            == Some(0u32),
        first.disable_csi_legacy == Some(true) ==> with_csi(
            with_csi(c, first),
            second,
        ).acquire_csi_legacy
            == Some(0u32),
        first.disable_csi_ht20 == Some(true) ==> with_csi(
            with_csi(c, first),
            second,
        ).acquire_csi_ht20
            == Some(0u32),
        first.disable_csi_ht40 == Some(true) ==> with_csi(
            with_csi(c, first),
            second,
        ).acquire_csi_ht40
            == Some(0u32),
        first.disable_csi_su == Some(true) ==> with_csi(with_csi(c, first), second).acquire_csi_su
            == Some(0u32),
        first.disable_csi_mu == Some(true) ==> with_csi(with_csi(c, first), second).acquire_csi_mu
            == Some(0u32),
        first.disable_csi_dcm == Some(true) ==> with_csi(with_csi(c, first), second).acquire_csi_dcm
            == Some(0u32),
        first.disable_csi_beamformed == Some(true) ==> with_csi(
            with_csi(c, first),
            second,
        ).acquire_csi_beamformed
            == Some(0u32),
{
}

/// The answers that every command endpoint gives: `400` with the fault of a body that is
/// refused, `503` while the device is disconnected, `412` while its firmware is not
/// verified; where the line goes out, `200` with the line, and where it could not be
/// handed over `500` with the reason, or `503` where the device is gone by then.
pub proof fn law_answers_of_commands(
    s: StateText,
    line: Result<Seq<char>, Seq<char>>,
    cmd: Seq<char>,
    e: Seq<char>,
)
    ensures
        line matches Err(m) ==> gated_line(s, line) == StepText::Reply(
            (ReplyText { status: 400, success: false, message: m }),
        ),
        line is Ok && !s.serial_connected ==> gated_line(s, line) == StepText::Reply(
            (ReplyText {
                status: 503,
                success: false,
                message: "ESP32 disconnected; serial command unavailable"@,
            }),
        ),
        line is Ok && s.serial_connected && !s.firmware_verified ==> gated_line(s, line)
            == StepText::Reply(
            (ReplyText {
                status: 412,
                success: false,
                message: "Firmware not verified as esp-csi-cli-rs. Call GET /api/info to verify, or POST /api/control/reset to power-cycle and re-check."@,
            }),
        ),
        line matches Ok(l) ==> s.serial_connected && s.firmware_verified ==> gated_line(s, line)
            == StepText::Send(l),
        gated_line(s, Ok(cmd)) == gated(s, cmd),
        sent_reply(s, cmd, None) == (ReplyText {
            status: 200,
            success: true,
            message: "Sent: "@ + cmd,
        }),
        s.serial_connected ==> sent_reply(s, cmd, Some(e)) == (ReplyText {
            status: 500,
            success: false,
            message: "Failed to send command: "@ + e,
        }),
        !s.serial_connected ==> sent_reply(s, cmd, Some(e)) == (ReplyText {
            status: 503,
            success: false,
            message: "ESP32 disconnected; serial command unavailable"@,
        }),
{
}

/// On a connected device with verified firmware every endpoint sends the line of its
/// body, as the firmware spells it.
pub proof fn law_lines_of_plain_endpoints(
    s: StateText,
    traffic: TrafficConfig,
    rate: RateConfig,
    log: LogModeConfig,
    csi: CsiConfig,
)
    requires
        s.serial_connected,
        s.firmware_verified,
    ensures
        reset_config_step(s) == StepText::Send("reset-config"@),
        stats_step(s) == StepText::Send("show-stats"@),
        traffic_step(s, traffic) == StepText::Send(
            "set-traffic --frequency-hz="@ + text::decimal(traffic.frequency_hz as nat),
        ),
        rate_step(s, rate) == StepText::Send("set-rate --rate="@ + rate.rate@),
        csi_step(s, csi) == StepText::Send(csi.line()),
        log.mode == LogMode::Text ==> log_mode_step(s, Some(log)) == StepText::Send(
            "set-log-mode --mode=text"@,
        ),
        log.mode == LogMode::ArrayList ==> log_mode_step(s, Some(log)) == StepText::Send(
            "set-log-mode --mode=array-list"@,
        ),
        log.mode == LogMode::Serialized ==> log_mode_step(s, Some(log)) == StepText::Send(
            "set-log-mode --mode=serialized"@,
        ),
        log.mode == LogMode::EspCsiTool ==> log_mode_step(s, Some(log)) == StepText::Send(
            "set-log-mode --mode=esp-csi-tool"@,
        ),
{
    crate::models::law_plain_lines(traffic, log, rate);
}

/// The endpoints whose bodies can be refused send the line of their body where it has
/// one, and answer `400` with its fault where it has none, whatever the device does.
pub proof fn law_lines_of_checked_endpoints(
    s: StateText,
    mode: CollectionModeConfig,
    tasks: IoTasksConfig,
    delivery: CsiDeliveryConfig,
    wifi: WifiConfig,
)
    ensures
        s.serial_connected && s.firmware_verified && (mode.mode@ == "collector"@ || mode.mode@
            == "listener"@) ==> collection_mode_step(s, mode) == StepText::Send(
            "set-collection-mode --mode="@ + mode.mode@,
        ),
        mode.mode@ != "collector"@ && mode.mode@ != "listener"@ ==> collection_mode_step(s, mode)
            == StepText::Reply(
            (ReplyText {
                status: 400,
                success: false,
                message: "Unknown collection mode '"@ + mode.mode@
                    + "'; expected collector or listener"@,
            }),
        ),
        s.serial_connected && s.firmware_verified && (tasks.tx is Some || tasks.rx is Some)
            ==> io_tasks_step(s, tasks) == StepText::Send(tasks.line()->Ok_0),
        tasks.tx is None && tasks.rx is None ==> io_tasks_step(s, tasks) == StepText::Reply(
            (ReplyText {
                status: 400,
                success: false,
                message: "at least one of tx or rx must be provided"@,
            }),
        ),
        s.serial_connected && s.firmware_verified && delivery.line() is Ok ==> csi_delivery_step(
            s,
            delivery,
        ) == StepText::Send(delivery.line()->Ok_0),
        delivery.line() matches Err(e) ==> csi_delivery_step(s, delivery) == StepText::Reply(
            (ReplyText { status: 400, success: false, message: e }),
        ),
        wifi.line() matches Err(e) ==> wifi_step(s, wifi) == StepText::Reply(
            (ReplyText { status: 400, success: false, message: e }),
        ),
        s.serial_connected && s.firmware_verified && wifi.line() is Ok && (wifi.channel is Some
            || wifi.mode@ == "station"@) ==> wifi_step(s, wifi) == StepText::Send(
            wifi.line()->Ok_0,
        ),
        log_mode_step(s, None) == StepText::Reply(
            (ReplyText {
                status: 400,
                success: false,
                message: "Invalid log mode. Use one of: text, array-list, serialized, esp-csi-tool"@,
            }),
        ),
{
    crate::models::law_collection_mode_line(mode);
    crate::models::law_io_tasks_line(tasks);
    assert(wifi.channel is Some || wifi.mode@ == "station"@ ==> with_default_channel(
        wifi,
        s.device_info,
    ) == wifi);
    if wifi.line() is Err {
        lemma_channel_is_no_fault(wifi, with_default_channel(wifi, s.device_info).channel);
    }
}

/// What is wrong with a `set-wifi` body does not depend on its channel.
proof fn lemma_channel_is_no_fault(wifi: WifiConfig, channel: Option<u8>)
    ensures
        wifi.line() is Err ==> (WifiConfig { channel, ..wifi }).line() == wifi.line(),
        wifi.line() is Ok ==> (WifiConfig { channel, ..wifi }).line() is Ok,
{
}

/// Where a `set-wifi` body leaves the channel out, the line that goes out names the
/// channel of the chip: 149 on an esp32c5, 6 on an esp32c6, 1 on any other.
pub proof fn law_wifi_line_names_a_channel(s: StateText, wifi: WifiConfig, chip: Seq<char>)
    requires
        s.serial_connected,
        s.firmware_verified,
        s.device_info matches Some(i) && i.chip == Some(chip),
        wifi.line() is Ok,
        wifi.channel is None,
        wifi.mode@ != "station"@,
    ensures
        ({
            let name = text::lower(text::trimmed(chip));
            let channel: u8 = if name == "esp32c5"@ {
                149
            } else if name == "esp32c6"@ {
                6
            } else {
                1
            };
            wifi_step(s, wifi) == StepText::Send(
                (WifiConfig { channel: Some(channel), ..wifi }).line()->Ok_0,
            )
        }),
{
    crate::csi::law_layouts_by_chip_name(chip);
    lemma_channel_is_no_fault(wifi, Some(default_channel(s.device_info)));
}

/// After `set-wifi` the cache shows what was sent, each value in its place, and keeps
/// what was left out; an empty peer MAC shows as `auto`, and `off` as `none`. Nothing
/// outside the Wi-Fi section changes.
pub proof fn law_wifi_cache(c: ConfigText, b: WifiConfig)
    ensures
        ({
            let after = with_wifi(c, b);
            &&& after.wifi.mode == Some(b.mode@)
            &&& after.wifi.channel == if b.channel is Some {
                b.channel
            } else {
                c.wifi.channel
            }
            &&& after.wifi.sta_ssid == match b.sta_ssid {
                Some(v) => Some(v@),
                None => c.wifi.sta_ssid,
            }
            &&& after.wifi.peer_mac == match b.peer_mac {
                Some(m) => if m@.len() == 0 {
                    Some("auto"@)
                } else {
                    Some(m@)
                },
                None => c.wifi.peer_mac,
            }
            &&& after.wifi.ht40 == match b.ht40 {
                Some(h) => if h@ == "off"@ {
                    Some("none"@)
                } else {
                    Some(h@)
                },
                None => c.wifi.ht40,
            }
            &&& after == (ConfigText { wifi: after.wifi, ..c })
        }),
{
}

/// After `set-csi` the cache shows every feature that was disabled as disabled, the
/// values that were set, and everything else as before.
pub proof fn law_csi_cache(c: CsiConfigSection, b: CsiConfig)
    ensures
        ({
            let after = with_csi(c, b);
            &&& after.lltf_enabled == if b.disable_lltf == Some(true) {
                Some(false)
            } else {
                c.lltf_enabled
            }
            &&& after.htltf_enabled == if b.disable_htltf == Some(true) {
                Some(false)
            } else {
                c.htltf_enabled
            }
            &&& after.stbc_htltf_enabled == if b.disable_stbc_htltf == Some(true) {
                Some(false)
            } else {
                c.stbc_htltf_enabled
            }
            &&& after.ltf_merge_enabled == if b.disable_ltf_merge == Some(true) {
                Some(false)
            } else {
                c.ltf_merge_enabled
            }
            &&& after.acquire_csi == if b.disable_csi == Some(true) {
                Some(0u32)
            } else {
                c.acquire_csi
            }
            &&& after.acquire_csi_legacy == if b.disable_csi_legacy == Some(true) {
                Some(0u32)
            } else {
                c.acquire_csi_legacy
            }
            &&& after.acquire_csi_ht20 == if b.disable_csi_ht20 == Some(true) {
                Some(0u32)
            } else {
                c.acquire_csi_ht20
            }
            &&& after.acquire_csi_ht40 == if b.disable_csi_ht40 == Some(true) {
                Some(0u32)
            } else {
                c.acquire_csi_ht40
            }
            &&& after.acquire_csi_su == if b.disable_csi_su == Some(true) {
                Some(0u32)
            } else {
                c.acquire_csi_su
            }
            &&& after.acquire_csi_mu == if b.disable_csi_mu == Some(true) {
                Some(0u32)
            } else {
                c.acquire_csi_mu
            }
            &&& after.acquire_csi_dcm == if b.disable_csi_dcm == Some(true) {
                Some(0u32)
            } else {
                c.acquire_csi_dcm
            }
            &&& after.acquire_csi_beamformed == if b.disable_csi_beamformed == Some(true) {
                Some(0u32)
            } else {
                c.acquire_csi_beamformed
            }
            &&& after.csi_he_stbc == if b.csi_he_stbc is Some {
                b.csi_he_stbc
            } else {
                c.csi_he_stbc
            }
            &&& after.val_scale_cfg == if b.val_scale_cfg is Some {
                b.val_scale_cfg
            } else {
                c.val_scale_cfg
            }
            &&& after.channel_filter_enabled == c.channel_filter_enabled
            &&& after.manual_scale == c.manual_scale
            &&& after.shift == c.shift
            &&& after.dump_ack_enabled == c.dump_ack_enabled
        }),
{
}

/// Each of the other endpoints changes its own entries of the cache, and no others; an
/// entry that a body leaves out stays.
pub proof fn law_other_caches(
    c: ConfigText,
    traffic: TrafficConfig,
    mode: CollectionModeConfig,
    rate: RateConfig,
    tasks: IoTasksConfig,
    delivery: CsiDeliveryConfig,
)
    ensures
        with_traffic(c, traffic).collection.traffic_hz == Some(traffic.frequency_hz),
        with_traffic(c, traffic) == (ConfigText {
            collection: CollectionText {
                traffic_hz: Some(traffic.frequency_hz),
                ..c.collection
            },
            ..c
        }),
        with_collection_mode(c, mode) == (ConfigText {
            collection: CollectionText { mode: Some(mode.mode@), ..c.collection },
            ..c
        }),
        with_rate(c, rate) == (ConfigText {
            collection: CollectionText { phy_rate: Some(rate.rate@), ..c.collection },
            ..c
        }),
        with_io_tasks(c, tasks) == (ConfigText {
            collection: CollectionText {
                io_tx_enabled: if tasks.tx is Some {
                    tasks.tx
                } else {
                    c.collection.io_tx_enabled
                },
                io_rx_enabled: if tasks.rx is Some {
                    tasks.rx
                } else {
                    c.collection.io_rx_enabled
                },
                ..c.collection
            },
            ..c
        }),
        with_delivery(c, delivery) == (ConfigText {
            csi_delivery_mode: match delivery.mode {
                Some(m) => Some(m@),
                None => c.csi_delivery_mode,
            },
            csi_logging_enabled: if delivery.logging is Some {
                delivery.logging
            } else {
                c.csi_logging_enabled
            },
            ..c
        }),
{
}

/// A log mode that was sent is remembered under the name that was sent; one that could
/// not be sent is not. Nothing but the cache changes with any command.
pub proof fn law_log_mode_cache(s: StateText, b: LogModeConfig, config: ConfigText, e: Seq<char>)
    ensures
        with_log_mode(s, b, Some(e)) == s,
        with_log_mode(s, b, None).log_mode == b.mode,
        with_log_mode(s, b, None).config.log_mode == Some(
            match b.mode {
                LogMode::Text => "text"@,
                LogMode::ArrayList => "array-list"@,
                LogMode::Serialized => "serialized"@,
                LogMode::EspCsiTool => "esp-csi-tool"@,
            },
        ),
        with_log_mode(s, b, None) == (StateText {
            log_mode: b.mode,
            config: ConfigText {
                log_mode: with_log_mode(s, b, None).config.log_mode,
                ..s.config
            },
            ..s
        }),
        cached(s, config, None) == (StateText { config, ..s }),
{
}

/// The output modes by name, in any case: `stream`, `dump` and `both`, and no others.
pub proof fn law_output_modes(name: Seq<char>)
    ensures
        output_mode_of(name) == Some(OutputMode::Stream) <==> text::lower(name) == "stream"@,
        output_mode_of(name) == Some(OutputMode::Dump) <==> text::lower(name) == "dump"@,
        output_mode_of(name) == Some(OutputMode::Both) <==> text::lower(name) == "both"@,
{
    reveal_strlit("stream");
    reveal_strlit("dump");
    reveal_strlit("both");
    assert("stream"@.len() == 6 && "dump"@.len() == 4 && "both"@.len() == 4);
    assert("dump"@[0] == 'd' && "both"@[0] == 'b');
}

} // verus!
