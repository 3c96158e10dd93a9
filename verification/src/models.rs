//! Data models used by the request handlers and the runtime control flow.
//!
//! - request bodies of the config/control endpoints, each with the CLI line that
//!   it stands for,
//! - the cached device configuration,
//! - runtime enums and common response payloads.

use vstd::prelude::*;

use crate::text;

verus! {

// ─── Device config (cached state) ─────────────────────────────────────────

/// Server-side cached view of the device's configuration, structured to mirror
/// the firmware's `show-config` output (sections `[WiFi]`, `[Collection]`,
/// `[CSI Config]`). Each field is populated when the matching
/// `POST /api/config/*` endpoint succeeds, and set to the firmware default by
/// `POST /api/config/reset`. Values can drift if the device is re-flashed or
/// commands are sent out-of-band.
///
/// The station password is not cached: there is no field for it.
#[derive(Debug)]
pub struct DeviceConfig {
    pub wifi: WifiSection,
    pub collection: CollectionSection,
    pub csi_config: CsiConfigSection,
    pub log_mode: Option<String>,
    pub csi_delivery_mode: Option<String>,
    pub csi_logging_enabled: Option<bool>,
}

/// `[WiFi]` section in `show-config`.
#[derive(Debug)]
pub struct WifiSection {
    /// `sniffer` | `station` | `wifi-ap` | `ht20-emitter` | `ht40-emitter` |
    /// `esp-now-central` | `esp-now-peripheral`.
    pub mode: Option<String>,
    pub channel: Option<u8>,
    /// UTF-8, at most 32 bytes.
    pub sta_ssid: Option<String>,
    /// The peer's MAC, or `auto`. In the emitter modes it is the destination of
    /// injected frames (`auto` is broadcast), in the ESP-NOW modes the source filter
    /// (`auto` is magic-prefix pairing).
    pub peer_mac: Option<String>,
    /// Secondary channel: `above` | `below` | `none` (HT20). That of the access
    /// point in `wifi-ap` mode, that of forced transmission in the ESP-NOW modes.
    pub ht40: Option<String>,
}

/// `[Collection]` section in `show-config`.
#[derive(Debug)]
pub struct CollectionSection {
    /// `collector` | `listener`.
    pub mode: Option<String>,
    /// In Hz; `0` disables traffic generation.
    pub traffic_hz: Option<u64>,
    /// For example `mcs0-lgi`. Only honored by ESP-NOW modes.
    pub phy_rate: Option<String>,
    pub io_tx_enabled: Option<bool>,
    pub io_rx_enabled: Option<bool>,
}

/// `[CSI Config]` section in `show-config`. The classic (ESP32 / C3 / S3) and
/// the HE (ESP32-C5 / C6) fields are merged, so that the shape is the same for
/// every chip. The fields applicable to the active firmware are populated; the
/// others remain `None`.
///
/// `channel_filter_enabled`, `manual_scale`, `shift` and `dump_ack_enabled` are
/// read-only: no `set-csi` flag changes them, only a reset populates them.
#[derive(Debug, Clone, Copy, PartialEq, Eq, Structural)]
pub struct CsiConfigSection {
    pub lltf_enabled: Option<bool>,
    pub htltf_enabled: Option<bool>,
    pub stbc_htltf_enabled: Option<bool>,
    pub ltf_merge_enabled: Option<bool>,
    pub channel_filter_enabled: Option<bool>,
    pub manual_scale: Option<bool>,
    pub shift: Option<u8>,
    pub dump_ack_enabled: Option<bool>,
    pub acquire_csi: Option<u32>,
    pub acquire_csi_legacy: Option<u32>,
    pub acquire_csi_ht20: Option<u32>,
    pub acquire_csi_ht40: Option<u32>,
    pub acquire_csi_su: Option<u32>,
    pub acquire_csi_mu: Option<u32>,
    pub acquire_csi_dcm: Option<u32>,
    pub acquire_csi_beamformed: Option<u32>,
    pub csi_he_stbc: Option<u32>,
    pub val_scale_cfg: Option<u32>,
}

/// What a [`WifiSection`] says.
#[verifier::ext_equal]
pub struct WifiText {
    pub mode: Option<Seq<char>>,
    pub channel: Option<u8>,
    pub sta_ssid: Option<Seq<char>>,
    pub peer_mac: Option<Seq<char>>,
    pub ht40: Option<Seq<char>>,
}

/// What a [`CollectionSection`] says.
#[verifier::ext_equal]
pub struct CollectionText {
    pub mode: Option<Seq<char>>,
    pub traffic_hz: Option<u64>,
    pub phy_rate: Option<Seq<char>>,
    pub io_tx_enabled: Option<bool>,
    pub io_rx_enabled: Option<bool>,
}

/// What a [`DeviceConfig`] says.
#[verifier::ext_equal]
pub struct ConfigText {
    pub wifi: WifiText,
    pub collection: CollectionText,
    pub csi_config: CsiConfigSection,
    pub log_mode: Option<Seq<char>>,
    pub csi_delivery_mode: Option<Seq<char>>,
    pub csi_logging_enabled: Option<bool>,
}

impl View for WifiSection {
    type V = WifiText;

    open spec fn view(&self) -> WifiText {
        WifiText {
            mode: text::opt_text(self.mode),
            channel: self.channel,
            sta_ssid: text::opt_text(self.sta_ssid),
            peer_mac: text::opt_text(self.peer_mac),
            ht40: text::opt_text(self.ht40),
        }
    }
}

impl View for CollectionSection {
    type V = CollectionText;

    open spec fn view(&self) -> CollectionText {
        CollectionText {
            mode: text::opt_text(self.mode),
            traffic_hz: self.traffic_hz,
            phy_rate: text::opt_text(self.phy_rate),
            io_tx_enabled: self.io_tx_enabled,
            io_rx_enabled: self.io_rx_enabled,
        }
    }
}

impl View for DeviceConfig {
    type V = ConfigText;

    open spec fn view(&self) -> ConfigText {
        ConfigText {
            wifi: self.wifi@,
            collection: self.collection@,
            csi_config: self.csi_config,
            log_mode: text::opt_text(self.log_mode),
            csi_delivery_mode: text::opt_text(self.csi_delivery_mode),
            csi_logging_enabled: self.csi_logging_enabled,
        }
    }
}

/// The cache of a device that nothing has been sent to.
pub open spec fn unset_config() -> ConfigText {
    ConfigText {
        wifi: WifiText { mode: None, channel: None, sta_ssid: None, peer_mac: None, ht40: None },
        collection: CollectionText {
            mode: None,
            traffic_hz: None,
            phy_rate: None,
            io_tx_enabled: None,
            io_rx_enabled: None,
        },
        csi_config: CsiConfigSection {
            lltf_enabled: None,
            htltf_enabled: None,
            stbc_htltf_enabled: None,
            ltf_merge_enabled: None,
            channel_filter_enabled: None,
            manual_scale: None,
            shift: None,
            dump_ack_enabled: None,
            acquire_csi: None,
            acquire_csi_legacy: None,
            acquire_csi_ht20: None,
            acquire_csi_ht40: None,
            acquire_csi_su: None,
            acquire_csi_mu: None,
            acquire_csi_dcm: None,
            acquire_csi_beamformed: None,
            csi_he_stbc: None,
            val_scale_cfg: None,
        },
        log_mode: None,
        csi_delivery_mode: None,
        csi_logging_enabled: None,
    }
}

/// What the firmware holds after `reset-config`.
pub open spec fn default_config() -> ConfigText {
    ConfigText {
        wifi: WifiText {
            mode: Some("sniffer"@),
            channel: Some(1u8),
            sta_ssid: Some(Seq::empty()),
            peer_mac: Some("auto"@),
            ht40: Some("none"@),
        },
        collection: CollectionText {
            mode: Some("collector"@),
            traffic_hz: Some(100u64),
            phy_rate: Some("mcs0-lgi"@),
            io_tx_enabled: Some(true),
            io_rx_enabled: Some(true),
        },
        csi_config: CsiConfigSection {
            lltf_enabled: Some(true),
            htltf_enabled: Some(true),
            stbc_htltf_enabled: Some(true),
            ltf_merge_enabled: Some(true),
            channel_filter_enabled: Some(false),
            manual_scale: Some(false),
            shift: Some(0u8),
            dump_ack_enabled: Some(false),
            acquire_csi: Some(1u32),
            acquire_csi_legacy: Some(1u32),
            acquire_csi_ht20: Some(1u32),
            acquire_csi_ht40: Some(1u32),
            acquire_csi_su: Some(1u32),
            acquire_csi_mu: Some(1u32),
            acquire_csi_dcm: Some(1u32),
            acquire_csi_beamformed: Some(1u32),
            csi_he_stbc: Some(2u32),
            val_scale_cfg: Some(2u32),
        },
        log_mode: None,
        csi_delivery_mode: None,
        csi_logging_enabled: None,
    }
}

impl Default for WifiSection {
    fn default() -> (r: Self)
        ensures
            r@ == unset_config().wifi,
    {
        WifiSection { mode: None, channel: None, sta_ssid: None, peer_mac: None, ht40: None }
    }
}

impl Default for CollectionSection {
    fn default() -> (r: Self)
        ensures
            r@ == unset_config().collection,
    {
        CollectionSection {
            mode: None,
            traffic_hz: None,
            phy_rate: None,
            io_tx_enabled: None,
            io_rx_enabled: None,
        }
    }
}

impl Default for CsiConfigSection {
    fn default() -> (r: Self)
        ensures
            r == unset_config().csi_config,
    {
        CsiConfigSection {
            lltf_enabled: None,
            htltf_enabled: None,
            stbc_htltf_enabled: None,
            ltf_merge_enabled: None,
            channel_filter_enabled: None,
            manual_scale: None,
            shift: None,
            dump_ack_enabled: None,
            acquire_csi: None,
            acquire_csi_legacy: None,
            acquire_csi_ht20: None,
            acquire_csi_ht40: None,
            acquire_csi_su: None,
            acquire_csi_mu: None,
            acquire_csi_dcm: None,
            acquire_csi_beamformed: None,
            csi_he_stbc: None,
            val_scale_cfg: None,
        }
    }
}

impl Default for DeviceConfig {
    fn default() -> (r: Self)
        ensures
            r@ == unset_config(),
    {
        DeviceConfig {
            wifi: WifiSection::default(),
            collection: CollectionSection::default(),
            csi_config: CsiConfigSection::default(),
            log_mode: None,
            csi_delivery_mode: None,
            csi_logging_enabled: None,
        }
    }
}

impl Clone for WifiSection {
    fn clone(&self) -> (r: Self)
        ensures
            r == *self,
    {
        WifiSection {
            mode: text::copy_opt(&self.mode),
            channel: self.channel,
            sta_ssid: text::copy_opt(&self.sta_ssid),
            peer_mac: text::copy_opt(&self.peer_mac),
            ht40: text::copy_opt(&self.ht40),
        }
    }
}

impl Clone for CollectionSection {
    fn clone(&self) -> (r: Self)
        ensures
            r == *self,
    {
        CollectionSection {
            mode: text::copy_opt(&self.mode),
            traffic_hz: self.traffic_hz,
            phy_rate: text::copy_opt(&self.phy_rate),
            io_tx_enabled: self.io_tx_enabled,
            io_rx_enabled: self.io_rx_enabled,
        }
    }
}

impl Clone for DeviceConfig {
    fn clone(&self) -> (r: Self)
        ensures
            r == *self,
    {
        DeviceConfig {
            wifi: self.wifi.clone(),
            collection: self.collection.clone(),
            csi_config: self.csi_config,
            log_mode: text::copy_opt(&self.log_mode),
            csi_delivery_mode: text::copy_opt(&self.csi_delivery_mode),
            csi_logging_enabled: self.csi_logging_enabled,
        }
    }
}

impl DeviceConfig {
    /// What the device holds after `reset-config`, as `show-config` prints it.
    /// `POST /api/config/reset` puts it into the cache, so that the cache shows
    /// what the firmware holds before any `set-*` command is sent.
    ///
    /// The classic and the HE CSI defaults are both populated; the caller ignores
    /// the fields that the connected chip does not have.
    pub fn firmware_defaults() -> (r: Self)
        ensures
            r@ == default_config(),
    {
        DeviceConfig {
            wifi: WifiSection {
                mode: Some("sniffer".to_owned()),
                channel: Some(1),
                sta_ssid: Some(String::new()),
                peer_mac: Some("auto".to_owned()),
                ht40: Some("none".to_owned()),
            },
            collection: CollectionSection {
                mode: Some("collector".to_owned()),
                traffic_hz: Some(100),
                phy_rate: Some("mcs0-lgi".to_owned()),
                io_tx_enabled: Some(true),
                io_rx_enabled: Some(true),
            },
            csi_config: CsiConfigSection {
                lltf_enabled: Some(true),
                htltf_enabled: Some(true),
                stbc_htltf_enabled: Some(true),
                ltf_merge_enabled: Some(true),
                channel_filter_enabled: Some(false),
                manual_scale: Some(false),
                shift: Some(0),
                dump_ack_enabled: Some(false),
                acquire_csi: Some(1),
                acquire_csi_legacy: Some(1),
                acquire_csi_ht20: Some(1),
                acquire_csi_ht40: Some(1),
                acquire_csi_su: Some(1),
                acquire_csi_mu: Some(1),
                acquire_csi_dcm: Some(1),
                acquire_csi_beamformed: Some(1),
                csi_he_stbc: Some(2),
                val_scale_cfg: Some(2),
            },
            log_mode: None,
            csi_delivery_mode: None,
            csi_logging_enabled: None,
        }
    }
}

// ─── Pieces of a command line ─────────────────────────────────────────────

/// A line and one more piece of it; the first fault wins.
pub open spec fn joined(
    line: Result<Seq<char>, Seq<char>>,
    piece: Result<Seq<char>, Seq<char>>,
) -> Result<Seq<char>, Seq<char>> {
    match line {
        Ok(a) => match piece {
            Ok(b) => Ok(a + b),
            Err(e) => Err(e),
        },
        Err(e) => Err(e),
    }
}

fn join_piece(line: Result<String, String>, piece: Result<String, String>) -> (r: Result<
    String,
    String,
>)
    ensures
        text::result_text(r) == joined(text::result_text(line), text::result_text(piece)),
{
    match line {
        Ok(a) => match piece {
            Ok(b) => Ok(text::join2(a.as_str(), b.as_str())),
            Err(e) => Err(e),
        },
        Err(e) => Err(e),
    }
}

/// `flag` where it is asked for, nothing elsewhere.
pub open spec fn flag(asked: Option<bool>, flag: Seq<char>) -> Seq<char> {
    if asked == Some(true) {
        flag
    } else {
        Seq::empty()
    }
}

fn push_flag(cmd: &mut String, asked: Option<bool>, name: &str)
    ensures
        final(cmd)@ == old(cmd)@ + flag(asked, name@),
{
    let set = match asked {
        Some(b) => b,
        None => false,
    };
    if set {
        cmd.append(name);
    } else {
        assert(cmd@ + Seq::<char>::empty() =~= cmd@);
    }
}

/// `name` and the number, where there is one.
pub open spec fn number_option(name: Seq<char>, n: Option<nat>) -> Seq<char> {
    match n {
        Some(k) => name + text::decimal(k),
        None => Seq::empty(),
    }
}

/// An optional machine number as a number.
pub open spec fn opt_nat(n: Option<u32>) -> Option<nat> {
    match n {
        Some(k) => Some(k as nat),
        None => None,
    }
}

fn push_number(cmd: &mut String, name: &str, n: Option<u32>)
    ensures
        final(cmd)@ == old(cmd)@ + number_option(name@, opt_nat(n)),
{
    match n {
        Some(k) => {
            let piece = text::join2(name, text::decimal_text(k as u64).as_str());
            cmd.append(piece.as_str());
        },
        None => {
            assert(cmd@ + Seq::<char>::empty() =~= cmd@);
        },
    }
}

/// `name` and `on` or `off`, where there is a choice.
pub open spec fn switch_option(name: Seq<char>, on: Option<bool>) -> Seq<char> {
    match on {
        Some(true) => name + "on"@,
        Some(false) => name + "off"@,
        None => Seq::empty(),
    }
}

fn push_switch(cmd: &mut String, name: &str, on: Option<bool>)
    ensures
        final(cmd)@ == old(cmd)@ + switch_option(name@, on),
{
    match on {
        Some(b) => {
            let piece = text::join2(name, if b { "on" } else { "off" });
            cmd.append(piece.as_str());
        },
        None => {
            assert(cmd@ + Seq::<char>::empty() =~= cmd@);
        },
    }
}

/// A text on one line.
pub open spec fn one_line(s: Seq<char>) -> bool {
    !s.contains('\n') && !s.contains('\r')
}

/// A free-form value as an argument of the device's CLI.
pub open spec fn quoted(s: Seq<char>) -> Result<Seq<char>, Seq<char>> {
    if !one_line(s) {
        Err("value cannot contain newline characters"@)
    } else if !s.contains('\'') {
        Ok("'"@ + s + "'"@)
    } else if !s.contains('"') {
        Ok("\""@ + s + "\""@)
    } else {
        Err("value cannot contain both single and double quote characters"@)
    }
}

/// Quote a free-form string argument for `esp-csi-cli-rs`.
///
/// The CLI accepts both `'…'` and `"…"`; the opening quote style is matched by
/// the same style and the other quote is taken literally.
pub fn quote_cli_arg(s: &str) -> (r: Result<String, String>)
    ensures
        text::result_text(r) == quoted(s@),
{
    if text::has_char(s, '\n') || text::has_char(s, '\r') {
        return Err("value cannot contain newline characters".to_owned());
    }
    if !text::has_char(s, '\'') {
        Ok(text::join3("'", s, "'"))
    } else if !text::has_char(s, '"') {
        Ok(text::join3("\"", s, "\""))
    } else {
        Err("value cannot contain both single and double quote characters".to_owned())
    }
}

/// A hexadecimal digit of ASCII, in either case.
pub open spec fn is_hex(c: char) -> bool {
    ('0' <= c && c <= '9') || ('a' <= c && c <= 'f') || ('A' <= c && c <= 'F')
}

/// Two hexadecimal digits.
pub open spec fn is_octet(s: Seq<char>) -> bool {
    s.len() == 2 && is_hex(s[0]) && is_hex(s[1])
}

/// The character that stands between the octets of a MAC address.
pub open spec fn mac_separator(mac: Seq<char>) -> Option<char> {
    if mac.contains(':') {
        Some(':')
    } else if mac.contains('-') {
        Some('-')
    } else {
        None
    }
}

/// Six octets between separators.
pub open spec fn six_octets(mac: Seq<char>, sep: char) -> bool {
    let octets = text::split(mac, sep);
    octets.len() == 6 && forall|i: int| 0 <= i < 6 ==> is_octet(#[trigger] octets[i])
}

/// What is wrong with a peer MAC. An empty one is right: it clears the filter.
pub open spec fn peer_mac_fault(mac: Seq<char>) -> Option<Seq<char>> {
    if mac.len() == 0 {
        None
    } else {
        match mac_separator(mac) {
            None => Some("peer_mac must use ':' or '-' separators (aa:bb:cc:dd:ee:ff)"@),
            Some(sep) => if six_octets(mac, sep) {
                None
            } else {
                Some("Invalid peer_mac '"@ + mac + "' (use aa:bb:cc:dd:ee:ff)"@)
            },
        }
    }
}

fn octet(s: &str) -> (r: bool)
    ensures
        r == is_octet(s@),
{
    let chars = text::chars_of(s);
    if chars.len() != 2 {
        return false;
    }
    let (a, b) = (chars[0], chars[1]);
    let first = ('0' <= a && a <= '9') || ('a' <= a && a <= 'f') || ('A' <= a && a <= 'F');
    let second = ('0' <= b && b <= '9') || ('a' <= b && b <= 'f') || ('A' <= b && b <= 'F');
    first && second
}

/// Validate an ESP-NOW peer MAC the way the firmware does: six hex octets
/// separated by `:` or `-` (case-insensitive). An empty string is valid and
/// means "clear back to auto".
pub fn validate_peer_mac(mac: &str) -> (r: Result<(), String>)
    ensures
        r is Ok <==> peer_mac_fault(mac@) is None,
        r matches Err(e) ==> peer_mac_fault(mac@) == Some(e@),
{
    let chars = text::chars_of(mac);
    if chars.len() == 0 {
        return Ok(());
    }
    let sep = if text::has_char(mac, ':') {
        ':'
    } else if text::has_char(mac, '-') {
        '-'
    } else {
        return Err("peer_mac must use ':' or '-' separators (aa:bb:cc:dd:ee:ff)".to_owned());
    };
    let octets = text::split_text(mac, sep);
    let mut good = octets.len() == 6;
    let mut i: usize = 0;
    while good && i < octets.len()
        invariant
            i <= octets@.len(),
            good ==> octets@.len() == 6,
            good ==> forall|j: int| 0 <= j < i ==> is_octet(#[trigger] text::texts(octets@)[j]),
            !good ==> octets@.len() != 6 || exists|j: int|
                0 <= j < 6 && !is_octet(#[trigger] text::texts(octets@)[j]),
        decreases octets@.len() - i,
    {
        let ghost at: int = i as int;
        assert(text::texts(octets@)[at] == octets@[at]@);
        if !octet(octets[i].as_str()) {
            good = false;
        }
        i += 1;
    }
    if good {
        Ok(())
    } else {
        Err(text::join3("Invalid peer_mac '", mac, "' (use aa:bb:cc:dd:ee:ff)"))
    }
}

// ─── HTTP request bodies ──────────────────────────────────────────────────

/// The Wi-Fi mode of a device and its parameters. An access point (`wifi-ap`) runs
/// with the name, password and address settings that the firmware holds: none of them
/// is part of this body.
#[derive(Debug)]
pub struct WifiConfig {
    /// `station`, `wifi-ap` and `sniffer` collect; `ht20-emitter` and `ht40-emitter`
    /// inject sounding frames; `esp-now-central` and `esp-now-peripheral` are the ends
    /// of an ESP-NOW pair.
    pub mode: String,
    pub sta_ssid: Option<String>,
    pub sta_password: Option<String>,
    /// The operating channel; in `station` mode a hint.
    pub channel: Option<u8>,
    /// The peer's MAC (`aa:bb:cc:dd:ee:ff` or `aa-bb-...`). An empty string clears it
    /// back to the default. Emitter and ESP-NOW modes only; ignored by the firmware in
    /// other modes.
    pub peer_mac: Option<String>,
    /// HT40 secondary channel: `above` | `below` | `none` | `off`. `wifi-ap` and
    /// ESP-NOW modes only.
    pub ht40: Option<String>,
}

/// The modes that `set-wifi` knows.
pub open spec fn wifi_mode(mode: Seq<char>) -> bool {
    mode == "station"@ || mode == "wifi-ap"@ || mode == "sniffer"@ || mode == "ht20-emitter"@
        || mode == "ht40-emitter"@ || mode == "esp-now-central"@ || mode
        == "esp-now-peripheral"@
}

/// The secondary channels that `set-wifi` knows.
pub open spec fn ht40_choice(choice: Seq<char>) -> bool {
    choice == "above"@ || choice == "below"@ || choice == "none"@ || choice == "off"@
}

/// The beginning of a `set-wifi` line.
pub open spec fn wifi_head(mode: Seq<char>) -> Result<Seq<char>, Seq<char>> {
    if wifi_mode(mode) {
        Ok("set-wifi --mode="@ + mode)
    } else {
        Err(
            "Unknown wifi mode '"@ + mode
                + "'; expected station, sniffer, esp-now-central, or esp-now-peripheral"@,
        )
    }
}

/// A credential of `set-wifi`: `what` names it in a fault.
pub open spec fn credential_piece(
    what: Seq<char>,
    option: Seq<char>,
    value: Option<Seq<char>>,
) -> Result<Seq<char>, Seq<char>> {
    match value {
        Some(v) => if text::byte_len(v) > 32 {
            Err(
                what + " is "@ + text::decimal(text::byte_len(v) as nat)
                    + " bytes; firmware limit is 32 bytes"@,
            )
        } else {
            joined(Ok(option), quoted(v))
        },
        None => Ok(Seq::empty()),
    }
}

/// The channel of `set-wifi`.
pub open spec fn channel_piece(channel: Option<u8>) -> Result<Seq<char>, Seq<char>> {
    Ok(
        number_option(
            " --set-channel="@,
            match channel {
                Some(c) => Some(c as nat),
                None => None,
            },
        ),
    )
}

/// The peer filter of `set-wifi`; an empty one is passed on and clears it.
pub open spec fn peer_mac_piece(mac: Option<Seq<char>>) -> Result<Seq<char>, Seq<char>> {
    match mac {
        Some(m) => match peer_mac_fault(m) {
            Some(e) => Err(e),
            None => Ok(" --peer-mac="@ + m),
        },
        None => Ok(Seq::empty()),
    }
}

/// The secondary channel of `set-wifi`.
pub open spec fn ht40_piece(ht40: Option<Seq<char>>) -> Result<Seq<char>, Seq<char>> {
    match ht40 {
        Some(h) => if ht40_choice(h) {
            Ok(" --ht40="@ + h)
        } else {
            Err("Invalid ht40 '"@ + h + "' (use above, below, none, or off)"@)
        },
        None => Ok(Seq::empty()),
    }
}

fn credential_text(what: &str, option: &str, value: &Option<String>) -> (r: Result<String, String>)
    ensures
        text::result_text(r) == credential_piece(what@, option@, text::opt_text(*value)),
{
    match value {
        Some(v) => {
            let n: usize = v.as_str().len();
            if n > 32 {
                let head = text::join3(what, " is ", text::decimal_text(n as u64).as_str());
                Err(text::join2(head.as_str(), " bytes; firmware limit is 32 bytes"))
            } else {
                join_piece(Ok(option.to_owned()), quote_cli_arg(v.as_str()))
            }
        },
        None => Ok(String::new()),
    }
}

impl WifiConfig {
    /// The `set-wifi` line of this body, or the first fault in it.
    pub open spec fn line(self) -> Result<Seq<char>, Seq<char>> {
        let with_mode = wifi_head(self.mode@);
        let with_ssid = joined(
            with_mode,
            credential_piece("sta_ssid"@, " --sta-ssid="@, text::opt_text(self.sta_ssid)),
        );
        let with_password = joined(
            with_ssid,
            credential_piece("sta_password"@, " --sta-password="@, text::opt_text(self.sta_password)),
        );
        let with_channel = joined(with_password, channel_piece(self.channel));
        let with_mac = joined(with_channel, peer_mac_piece(text::opt_text(self.peer_mac)));
        joined(with_mac, ht40_piece(text::opt_text(self.ht40)))
    }

    /// Validate values and emit the matching `set-wifi …` line.
    pub fn to_cli_command(&self) -> (r: Result<String, String>)
        ensures
            text::result_text(r) == self.line(),
    {
        let mode = self.mode.as_str();
        let known = text::same(mode, "station") || text::same(mode, "wifi-ap") || text::same(
            mode,
            "sniffer",
        ) || text::same(mode, "ht20-emitter") || text::same(mode, "ht40-emitter") || text::same(
            mode,
            "esp-now-central",
        ) || text::same(mode, "esp-now-peripheral");
        let with_mode: Result<String, String> = if known {
            Ok(text::join2("set-wifi --mode=", mode))
        } else {
            Err(
                text::join3(
                    "Unknown wifi mode '",
                    mode,
                    "'; expected station, sniffer, esp-now-central, or esp-now-peripheral",
                ),
            )
        };
        let with_ssid = join_piece(
            with_mode,
            credential_text("sta_ssid", " --sta-ssid=", &self.sta_ssid),
        );
        let with_password = join_piece(
            with_ssid,
            credential_text("sta_password", " --sta-password=", &self.sta_password),
        );
        let channel: String = match self.channel {
            Some(c) => text::join2(" --set-channel=", text::decimal_text(c as u64).as_str()),
            None => String::new(),
        };
        let with_channel = join_piece(with_password, Ok(channel));
        let mac: Result<String, String> = match &self.peer_mac {
            Some(m) => match validate_peer_mac(m.as_str()) {
                Ok(_) => Ok(text::join2(" --peer-mac=", m.as_str())),
                Err(e) => Err(e),
            },
            None => Ok(String::new()),
        };
        let with_mac = join_piece(with_channel, mac);
        let ht40: Result<String, String> = match &self.ht40 {
            Some(h) => {
                let choice = h.as_str();
                if text::same(choice, "above") || text::same(choice, "below") || text::same(
                    choice,
                    "none",
                ) || text::same(choice, "off") {
                    Ok(text::join2(" --ht40=", choice))
                } else {
                    Err(text::join3("Invalid ht40 '", choice, "' (use above, below, none, or off)"))
                }
            },
            None => Ok(String::new()),
        };
        join_piece(with_mac, ht40)
    }
}

#[derive(Debug)]
pub struct TrafficConfig {
    /// Traffic generation frequency in Hz; `0` disables generation.
    pub frequency_hz: u64,
}

impl TrafficConfig {
    /// The `set-traffic` line of this body.
    pub open spec fn line(self) -> Seq<char> {
        "set-traffic --frequency-hz="@ + text::decimal(self.frequency_hz as nat)
    }

    pub fn to_cli_command(&self) -> (r: String)
        ensures
            r@ == self.line(),
    {
        text::join2("set-traffic --frequency-hz=", text::decimal_text(self.frequency_hz).as_str())
    }
}

/// CSI feature flags. Classic (ESP32 / ESP32-C3 / ESP32-S3) and HE
/// (ESP32-C5 / ESP32-C6) parameters are merged here; the firmware silently
/// ignores flags that are not part of its compiled-in variant. Only flags set
/// to `true` are forwarded.
#[derive(Debug)]
pub struct CsiConfig {
    pub disable_lltf: Option<bool>,
    pub disable_htltf: Option<bool>,
    pub disable_stbc_htltf: Option<bool>,
    pub disable_ltf_merge: Option<bool>,
    pub disable_csi: Option<bool>,
    pub disable_csi_legacy: Option<bool>,
    pub disable_csi_ht20: Option<bool>,
    pub disable_csi_ht40: Option<bool>,
    pub disable_csi_su: Option<bool>,
    pub disable_csi_mu: Option<bool>,
    pub disable_csi_dcm: Option<bool>,
    pub disable_csi_beamformed: Option<bool>,
    /// `0` HE-LTF1, `1` HE-LTF2, `2` even sample (default).
    pub csi_he_stbc: Option<u32>,
    /// `0` to `3`; default `2`.
    pub val_scale_cfg: Option<u32>,
}

impl CsiConfig {
    /// The `set-csi` line of this body.
    pub open spec fn line(self) -> Seq<char> {
        "set-csi"@
            + flag(self.disable_lltf, " --disable-lltf"@)
            + flag(self.disable_htltf, " --disable-htltf"@)
            + flag(self.disable_stbc_htltf, " --disable-stbc-htltf"@)
            + flag(self.disable_ltf_merge, " --disable-ltf-merge"@)
            + flag(self.disable_csi, " --disable-csi"@)
            + flag(self.disable_csi_legacy, " --disable-csi-legacy"@)
            + flag(self.disable_csi_ht20, " --disable-csi-ht20"@)
            + flag(self.disable_csi_ht40, " --disable-csi-ht40"@)
            + flag(self.disable_csi_su, " --disable-csi-su"@)
            + flag(self.disable_csi_mu, " --disable-csi-mu"@)
            + flag(self.disable_csi_dcm, " --disable-csi-dcm"@)
            + flag(self.disable_csi_beamformed, " --disable-csi-beamformed"@)
            + number_option(" --csi-he-stbc="@, opt_nat(self.csi_he_stbc))
            + number_option(" --val-scale-cfg="@, opt_nat(self.val_scale_cfg))
    }

    pub fn to_cli_command(&self) -> (r: String)
        ensures
            r@ == self.line(),
    {
        let mut cmd = "set-csi".to_owned();
        push_flag(&mut cmd, self.disable_lltf, " --disable-lltf");
        push_flag(&mut cmd, self.disable_htltf, " --disable-htltf");
        push_flag(&mut cmd, self.disable_stbc_htltf, " --disable-stbc-htltf");
        push_flag(&mut cmd, self.disable_ltf_merge, " --disable-ltf-merge");
        push_flag(&mut cmd, self.disable_csi, " --disable-csi");
        push_flag(&mut cmd, self.disable_csi_legacy, " --disable-csi-legacy");
        push_flag(&mut cmd, self.disable_csi_ht20, " --disable-csi-ht20");
        push_flag(&mut cmd, self.disable_csi_ht40, " --disable-csi-ht40");
        push_flag(&mut cmd, self.disable_csi_su, " --disable-csi-su");
        push_flag(&mut cmd, self.disable_csi_mu, " --disable-csi-mu");
        push_flag(&mut cmd, self.disable_csi_dcm, " --disable-csi-dcm");
        push_flag(&mut cmd, self.disable_csi_beamformed, " --disable-csi-beamformed");
        push_number(&mut cmd, " --csi-he-stbc=", self.csi_he_stbc);
        push_number(&mut cmd, " --val-scale-cfg=", self.val_scale_cfg);
        cmd
    }
}

#[derive(Debug)]
pub struct CollectionModeConfig {
    /// `collector` or `listener`.
    pub mode: String,
}

impl CollectionModeConfig {
    /// The `set-collection-mode` line of this body, or the fault in it.
    pub open spec fn line(self) -> Result<Seq<char>, Seq<char>> {
        if self.mode@ == "collector"@ || self.mode@ == "listener"@ {
            Ok("set-collection-mode --mode="@ + self.mode@)
        } else {
            Err("Unknown collection mode '"@ + self.mode@ + "'; expected collector or listener"@)
        }
    }

    pub fn to_cli_command(&self) -> (r: Result<String, String>)
        ensures
            text::result_text(r) == self.line(),
    {
        let mode = self.mode.as_str();
        if text::same(mode, "collector") || text::same(mode, "listener") {
            Ok(text::join2("set-collection-mode --mode=", mode))
        } else {
            Err(
                text::join3(
                    "Unknown collection mode '",
                    mode,
                    "'; expected collector or listener",
                ),
            )
        }
    }
}

#[derive(Debug)]
pub struct LogModeConfig {
    pub mode: LogMode,
}

impl LogModeConfig {
    /// The `set-log-mode` line of this body.
    pub open spec fn line(self) -> Seq<char> {
        "set-log-mode --mode="@ + log_mode_name(self.mode)
    }

    pub fn to_cli_command(&self) -> (r: String)
        ensures
            r@ == self.line(),
    {
        text::join2("set-log-mode --mode=", self.mode.as_cli_value())
    }
}

/// Supported CSI log formats exposed by `esp-csi-cli-rs set-log-mode`.
#[derive(Debug, Clone, Copy, PartialEq, Eq, Structural)]
pub enum LogMode {
    /// Verbose human-readable output with metadata.
    Text,
    /// Compact one-line text output per packet (default).
    ArrayList,
    /// Binary COBS-framed postcard output.
    Serialized,
    /// Hernandez-style 26-column CSV (compatible with the ESP32-CSI-Tool collector).
    EspCsiTool,
}

/// The log format of a firmware that was told none.
pub open spec fn default_log_mode() -> LogMode {
    LogMode::ArrayList
}

impl Default for LogMode {
    fn default() -> (r: Self)
        ensures
            r == default_log_mode(),
    {
        LogMode::ArrayList
    }
}

/// The name of a log format on the command line.
pub open spec fn log_mode_name(mode: LogMode) -> Seq<char> {
    match mode {
        LogMode::Text => "text"@,
        LogMode::ArrayList => "array-list"@,
        LogMode::Serialized => "serialized"@,
        LogMode::EspCsiTool => "esp-csi-tool"@,
    }
}

impl LogMode {
    pub fn as_cli_value(&self) -> (r: &'static str)
        ensures
            r@ == log_mode_name(*self),
    {
        match self {
            LogMode::Text => "text",
            LogMode::ArrayList => "array-list",
            LogMode::Serialized => "serialized",
            LogMode::EspCsiTool => "esp-csi-tool",
        }
    }
}

#[derive(Debug)]
pub struct StartConfig {
    /// Collection duration in seconds; omit for indefinite collection.
    pub duration: Option<u64>,
}

impl StartConfig {
    /// The `start` line of this body.
    pub open spec fn line(self) -> Seq<char> {
        match self.duration {
            Some(d) => "start --duration="@ + text::decimal(d as nat),
            None => "start"@,
        }
    }

    pub fn to_cli_command(&self) -> (r: String)
        ensures
            r@ == self.line(),
    {
        match self.duration {
            Some(d) => text::join2("start --duration=", text::decimal_text(d).as_str()),
            None => "start".to_owned(),
        }
    }
}

/// `POST /api/config/rate`: pin the Wi-Fi PHY rate (only honored in ESP-NOW
/// modes).
#[derive(Debug)]
pub struct RateConfig {
    /// For example `1m`, `2m`, `5m5`, `11m`, `6m` to `54m`, `mcs0-lgi` to
    /// `mcs7-lgi`, `mcs0-sgi`.
    pub rate: String,
}

impl RateConfig {
    /// The `set-rate` line of this body.
    pub open spec fn line(self) -> Seq<char> {
        "set-rate --rate="@ + self.rate@
    }

    pub fn to_cli_command(&self) -> (r: String)
        ensures
            r@ == self.line(),
    {
        text::join2("set-rate --rate=", self.rate.as_str())
    }
}

/// `POST /api/config/io-tasks`: toggle the per-direction TX/RX tasks. Both fields
/// are optional; an omitted one keeps its device-side value.
#[derive(Debug)]
pub struct IoTasksConfig {
    pub tx: Option<bool>,
    pub rx: Option<bool>,
}

impl IoTasksConfig {
    /// The `set-io-tasks` line of this body, or the fault in it.
    pub open spec fn line(self) -> Result<Seq<char>, Seq<char>> {
        if self.tx is None && self.rx is None {
            Err("at least one of tx or rx must be provided"@)
        } else {
            Ok("set-io-tasks"@ + switch_option(" --tx="@, self.tx) + switch_option(" --rx="@, self.rx))
        }
    }

    pub fn to_cli_command(&self) -> (r: Result<String, String>)
        ensures
            text::result_text(r) == self.line(),
    {
        if self.tx.is_none() && self.rx.is_none() {
            return Err("at least one of tx or rx must be provided".to_owned());
        }
        let mut cmd = "set-io-tasks".to_owned();
        push_switch(&mut cmd, " --tx=", self.tx);
        push_switch(&mut cmd, " --rx=", self.rx);
        Ok(cmd)
    }
}

/// `POST /api/config/csi-delivery`: switch the CSI delivery path and the inline
/// log gate. Either or both may be set.
#[derive(Debug)]
pub struct CsiDeliveryConfig {
    /// `off` | `callback` | `async` | `raw`.
    ///
    /// `raw` enables the zero-copy fast-path; unlike the other modes it is
    /// stored as a flag on the device and only takes effect on the next
    /// `start` (no CSI data is delivered or logged in that mode).
    pub mode: Option<String>,
    /// Toggle for the per-packet UART/JTAG inline log path.
    pub logging: Option<bool>,
}

/// The delivery modes that `set-csi-delivery` knows.
pub open spec fn delivery_mode(mode: Seq<char>) -> bool {
    mode == "off"@ || mode == "callback"@ || mode == "async"@ || mode == "raw"@
}

/// The mode of `set-csi-delivery`.
pub open spec fn delivery_piece(mode: Option<Seq<char>>) -> Result<Seq<char>, Seq<char>> {
    match mode {
        Some(m) => if delivery_mode(m) {
            Ok(" --mode="@ + m)
        } else {
            Err(
                "Unknown csi-delivery mode '"@ + m
                    + "'; expected off, callback, async, or raw"@,
            )
        },
        None => Ok(Seq::empty()),
    }
}

impl CsiDeliveryConfig {
    /// The `set-csi-delivery` line of this body, or the first fault in it.
    pub open spec fn line(self) -> Result<Seq<char>, Seq<char>> {
        if self.mode is None && self.logging is None {
            Err("at least one of mode or logging must be provided"@)
        } else {
            joined(
                joined(Ok("set-csi-delivery"@), delivery_piece(text::opt_text(self.mode))),
                Ok(switch_option(" --logging="@, self.logging)),
            )
        }
    }

    pub fn to_cli_command(&self) -> (r: Result<String, String>)
        ensures
            text::result_text(r) == self.line(),
    {
        if self.mode.is_none() && self.logging.is_none() {
            return Err("at least one of mode or logging must be provided".to_owned());
        }
        let mode: Result<String, String> = match &self.mode {
            Some(m) => {
                let choice = m.as_str();
                if text::same(choice, "off") || text::same(choice, "callback") || text::same(
                    choice,
                    "async",
                ) || text::same(choice, "raw") {
                    Ok(text::join2(" --mode=", choice))
                } else {
                    Err(
                        text::join3(
                            "Unknown csi-delivery mode '",
                            choice,
                            "'; expected off, callback, async, or raw",
                        ),
                    )
                }
            },
            None => Ok(String::new()),
        };
        let mut logging = String::new();
        push_switch(&mut logging, " --logging=", self.logging);
        assert(Seq::<char>::empty() + switch_option(" --logging="@, self.logging)
            =~= switch_option(" --logging="@, self.logging));
        join_piece(join_piece(Ok("set-csi-delivery".to_owned()), mode), Ok(logging))
    }
}

// ─── Output mode ──────────────────────────────────────────────────────────

/// Controls where CSI frames are sent after being read from the serial port.
#[derive(Debug, Clone, Copy, PartialEq, Eq, Structural)]
pub enum OutputMode {
    /// Stream frames to WebSocket clients only (default).
    Stream,
    /// Write frames to a session dump file only; the WebSocket returns 403.
    Dump,
    /// Both stream to WebSocket clients and write to the dump file.
    Both,
}

/// Where frames go unless something else was asked for.
pub open spec fn default_output_mode() -> OutputMode {
    OutputMode::Stream
}

impl Default for OutputMode {
    fn default() -> (r: Self)
        ensures
            r == default_output_mode(),
    {
        OutputMode::Stream
    }
}

#[derive(Debug)]
pub struct OutputModeConfig {
    pub mode: String,
}

// ─── API response ─────────────────────────────────────────────────────────

#[derive(Debug)]
pub struct ApiResponse {
    pub success: bool,
    pub message: String,
}

// ─── Device identification ────────────────────────────────────────────────

/// Parsed result of the `info` command on `esp-csi-cli-rs`.
///
/// The magic prefix `ESP-CSI-CLI/<version>` is what proves the firmware is
/// `esp-csi-cli-rs`; if the prefix line never arrives, the device is either
/// running unrelated firmware, an older `esp-csi-cli-rs` build that predates
/// the `info` command, or no firmware at all.
#[derive(Debug)]
pub struct DeviceInfo {
    /// The version string from the `ESP-CSI-CLI/<version>` magic line.
    pub banner_version: String,
    /// `name=` line, expected to be `esp-csi-cli-rs`.
    pub name: Option<String>,
    /// `version=` line; should match `banner_version`.
    pub version: Option<String>,
    /// `chip=` line: `esp32` | `esp32c3` | `esp32c5` | `esp32c6` | `esp32s3` | `unknown`.
    pub chip: Option<String>,
    /// `mac=` line: the board's station MAC address.
    pub mac: Option<String>,
    /// `protocol=` line: a wire-format version number bumped on incompatible
    /// grammar changes. Host tooling should refuse unknown protocol values.
    pub protocol: Option<u32>,
    /// `features=` list (compile-time enabled features).
    pub features: Vec<String>,
}

/// What a [`DeviceInfo`] says.
#[verifier::ext_equal]
pub struct InfoText {
    pub banner_version: Seq<char>,
    pub name: Option<Seq<char>>,
    pub version: Option<Seq<char>>,
    pub chip: Option<Seq<char>>,
    pub mac: Option<Seq<char>>,
    pub protocol: Option<u32>,
    pub features: Seq<Seq<char>>,
}

impl View for DeviceInfo {
    type V = InfoText;

    open spec fn view(&self) -> InfoText {
        InfoText {
            banner_version: self.banner_version@,
            name: text::opt_text(self.name),
            version: text::opt_text(self.version),
            chip: text::opt_text(self.chip),
            mac: text::opt_text(self.mac),
            protocol: self.protocol,
            features: text::texts(self.features@),
        }
    }
}

impl Clone for DeviceInfo {
    fn clone(&self) -> (r: Self)
        ensures
            r@ == self@,
    {
        let mut features: Vec<String> = Vec::new();
        let mut i: usize = 0;
        while i < self.features.len()
            invariant
                i <= self.features@.len(),
                features@ =~= self.features@.take(i as int),
            decreases self.features@.len() - i,
        {
            features.push(self.features[i].clone());
            i += 1;
        }
        assert(self.features@.take(i as int) =~= self.features@);
        DeviceInfo {
            banner_version: self.banner_version.clone(),
            name: text::copy_opt(&self.name),
            version: text::copy_opt(&self.version),
            chip: text::copy_opt(&self.chip),
            mac: text::copy_opt(&self.mac),
            protocol: self.protocol,
            features,
        }
    }
}

// ─── Runtime status ───────────────────────────────────────────────────────

#[derive(Debug)]
pub struct CollectionStatusResponse {
    pub serial_connected: bool,
    pub collection_running: bool,
    pub port_path: String,
}

impl CollectionStatusResponse {
    pub fn from_state(
        serial_connected: bool,
        collection_running: bool,
        port_path: String,
    ) -> (r: Self)
        ensures
            r == (CollectionStatusResponse { serial_connected, collection_running, port_path }),
    {
        CollectionStatusResponse { serial_connected, collection_running, port_path }
    }
}

// ─── Laws ─────────────────────────────────────────────────────────────────

/// A quoted argument opens and closes with the same quote, which does not occur
/// between, and stands on one line; what stands between is the value itself.
pub proof fn law_quotes_match(s: Seq<char>)
    requires
        quoted(s) is Ok,
    ensures
        quoted(s)->Ok_0.len() == s.len() + 2,
        quoted(s)->Ok_0.subrange(1, s.len() as int + 1) == s,
        quoted(s)->Ok_0.first() == quoted(s)->Ok_0.last(),
        !s.contains(quoted(s)->Ok_0.first()),
        one_line(quoted(s)->Ok_0),
{
    reveal_strlit("'");
    reveal_strlit("\"");
    let q = quoted(s)->Ok_0;
    assert(q.subrange(1, s.len() as int + 1) =~= s);
    lemma_one_line("'"@ + s, "'"@);
    lemma_one_line("'"@, s);
    lemma_one_line("\""@ + s, "\""@);
    lemma_one_line("\""@, s);
}

/// Two texts on one line, one after the other, stand on one line.
proof fn lemma_one_line(a: Seq<char>, b: Seq<char>)
    requires
        one_line(a),
        one_line(b),
    ensures
        one_line(a + b),
{
    assert forall|i: int| 0 <= i < (a + b).len() implies (a + b)[i] != '\n' && (a + b)[i]
        != '\r' by {
        if i < a.len() {
            assert((a + b)[i] == a[i]);
        } else {
            assert((a + b)[i] == b[i - a.len()]);
        }
    }
}

/// A text whose parts between separators stand on one line stands on one line.
proof fn lemma_split_one_line(s: Seq<char>, sep: char)
    requires
        sep != '\n',
        sep != '\r',
        forall|i: int|
            0 <= i < text::split(s, sep).len() ==> one_line(#[trigger] text::split(s, sep)[i]),
    ensures
        one_line(s),
    decreases s.len(),
{
    text::lemma_first_at(s, sep);
    let at = text::first_at(s, sep);
    if at < s.len() {
        let rest = s.skip(at + 1);
        let parts = text::split(s, sep);
        assert(parts[0] == s.take(at));
        assert forall|i: int| 0 <= i < text::split(rest, sep).len() implies one_line(
            #[trigger] text::split(rest, sep)[i],
        ) by {
            assert(parts[i + 1] == text::split(rest, sep)[i]);
        }
        lemma_split_one_line(rest, sep);
        assert(one_line(s.take(at)));
        assert forall|i: int| 0 <= i < s.len() implies s[i] != '\n' && s[i] != '\r' by {
            if i < at {
                assert(s.take(at)[i] == s[i]);
            } else if i > at {
                assert(rest[i - at - 1] == s[i]);
            }
        }
    } else {
        assert(text::split(s, sep)[0] == s);
    }
}

proof fn lemma_decimal_one_line(n: nat)
    ensures
        one_line(text::decimal(n)),
    decreases n,
{
    if n >= 10 {
        lemma_decimal_one_line(n / 10);
        let d = text::digit_char(n % 10);
        lemma_one_line(text::decimal(n / 10), seq![d]);
        assert(text::decimal(n / 10) + seq![d] =~= text::decimal(n));
    }
}

proof fn lemma_peer_mac_one_line(mac: Seq<char>)
    requires
        peer_mac_fault(mac) is None,
    ensures
        one_line(mac),
{
    if mac.len() > 0 {
        let sep = mac_separator(mac)->0;
        assert forall|i: int| 0 <= i < text::split(mac, sep).len() implies one_line(
            #[trigger] text::split(mac, sep)[i],
        ) by {
            assert(is_octet(text::split(mac, sep)[i]));
        }
        lemma_split_one_line(mac, sep);
    }
}

/// The words of a `set-wifi` line stand on one line.
#[verifier::spinoff_prover]
proof fn lemma_wifi_words()
    ensures
        one_line("set-wifi --mode="@),
        one_line(" --sta-ssid="@),
        one_line(" --sta-password="@),
        one_line(" --set-channel="@),
        one_line(" --peer-mac="@),
        one_line(" --ht40="@),
{
    reveal_strlit("set-wifi --mode=");
    reveal_strlit(" --sta-ssid=");
    reveal_strlit(" --sta-password=");
    reveal_strlit(" --set-channel=");
    reveal_strlit(" --peer-mac=");
    reveal_strlit(" --ht40=");
}

#[verifier::spinoff_prover]
proof fn lemma_wifi_choices(s: Seq<char>)
    requires
        wifi_mode(s) || ht40_choice(s),
    ensures
        one_line(s),
{
    reveal_strlit("station");
    reveal_strlit("wifi-ap");
    reveal_strlit("sniffer");
    reveal_strlit("ht20-emitter");
    reveal_strlit("ht40-emitter");
    reveal_strlit("esp-now-central");
    reveal_strlit("esp-now-peripheral");
    reveal_strlit("above");
    reveal_strlit("below");
    reveal_strlit("none");
    reveal_strlit("off");
}

/// A line and a piece on one line each make one line.
proof fn lemma_joined_one_line(
    line: Result<Seq<char>, Seq<char>>,
    piece: Result<Seq<char>, Seq<char>>,
)
    requires
        line is Ok ==> one_line(line->Ok_0),
        piece is Ok ==> one_line(piece->Ok_0),
    ensures
        joined(line, piece) is Ok ==> one_line(joined(line, piece)->Ok_0),
{
    if line is Ok && piece is Ok {
        lemma_one_line(line->Ok_0, piece->Ok_0);
    }
}

proof fn lemma_credential_one_line(what: Seq<char>, option: Seq<char>, value: Option<Seq<char>>)
    requires
        one_line(option),
    ensures
        credential_piece(what, option, value) is Ok ==> one_line(
            credential_piece(what, option, value)->Ok_0,
        ),
{
    if let Some(v) = value {
        if quoted(v) is Ok {
            law_quotes_match(v);
            lemma_one_line(option, quoted(v)->Ok_0);
        }
    }
}

/// A `set-wifi` body that is accepted makes a command of one line, whatever
/// credentials it holds.
pub proof fn law_wifi_line_is_one_line(c: WifiConfig)
    requires
        c.line() is Ok,
    ensures
        one_line(c.line()->Ok_0),
{
    lemma_wifi_words();
    let head = wifi_head(c.mode@);
    if wifi_mode(c.mode@) {
        lemma_wifi_choices(c.mode@);
        lemma_one_line("set-wifi --mode="@, c.mode@);
    }
    let ssid = credential_piece("sta_ssid"@, " --sta-ssid="@, text::opt_text(c.sta_ssid));
    lemma_credential_one_line("sta_ssid"@, " --sta-ssid="@, text::opt_text(c.sta_ssid));
    lemma_joined_one_line(head, ssid);
    let with_ssid = joined(head, ssid);
    let password = credential_piece(
        "sta_password"@,
        " --sta-password="@,
        text::opt_text(c.sta_password),
    );
    lemma_credential_one_line(
        "sta_password"@,
        " --sta-password="@,
        text::opt_text(c.sta_password),
    );
    lemma_joined_one_line(with_ssid, password);
    let with_password = joined(with_ssid, password);
    let channel = channel_piece(c.channel);
    if let Some(n) = c.channel {
        lemma_decimal_one_line(n as nat);
        lemma_one_line(" --set-channel="@, text::decimal(n as nat));
    }
    lemma_joined_one_line(with_password, channel);
    let with_channel = joined(with_password, channel);
    let mac = peer_mac_piece(text::opt_text(c.peer_mac));
    if let Some(m) = c.peer_mac {
        if peer_mac_fault(m@) is None {
            lemma_peer_mac_one_line(m@);
            lemma_one_line(" --peer-mac="@, m@);
        }
    }
    lemma_joined_one_line(with_channel, mac);
    let with_mac = joined(with_channel, mac);
    let ht40 = ht40_piece(text::opt_text(c.ht40));
    if let Some(h) = c.ht40 {
        if ht40_choice(h@) {
            lemma_wifi_choices(h@);
            lemma_one_line(" --ht40="@, h@);
        }
    }
    lemma_joined_one_line(with_mac, ht40);
}

/// A value is quoted exactly where it stands on one line and does not hold both kinds of
/// quotes: with single quotes, or with double ones where it holds a single quote.
pub proof fn law_quoting(s: Seq<char>)
    ensures
        quoted(s) is Ok <==> !s.contains('\n') && !s.contains('\r') && !(s.contains('\'')
            && s.contains('"')),
        quoted(s) is Ok && !s.contains('\'') ==> quoted(s)->Ok_0 == seq!['\''] + s + seq!['\''],
        quoted(s) is Ok && s.contains('\'') ==> quoted(s)->Ok_0 == seq!['"'] + s + seq!['"'],
        s.contains('\n') || s.contains('\r') ==> quoted(s)->Err_0
            == "value cannot contain newline characters"@,
        quoted(s) is Err && !s.contains('\n') && !s.contains('\r') ==> quoted(s)->Err_0
            == "value cannot contain both single and double quote characters"@,
{
    reveal_strlit("'");
    reveal_strlit("\"");
    assert("'"@ =~= seq!['\'']);
    assert("\""@ =~= seq!['"']);
}

/// `n` octets between separators, place by place.
pub open spec fn octets_in_place(s: Seq<char>, sep: char, n: int) -> bool {
    &&& s.len() == 3 * n - 1
    &&& forall|i: int|
        0 <= i < s.len() ==> if i % 3 == 2 {
            #[trigger] s[i] == sep
        } else {
            is_hex(s[i])
        }
}

proof fn lemma_octets(s: Seq<char>, sep: char, n: int)
    requires
        n >= 1,
        !is_hex(sep),
    ensures
        (text::split(s, sep).len() == n && forall|i: int|
            0 <= i < n ==> is_octet(#[trigger] text::split(s, sep)[i])) <==> octets_in_place(
            s,
            sep,
            n,
        ),
    decreases n,
{
    text::lemma_first_at(s, sep);
    let at = text::first_at(s, sep);
    let parts = text::split(s, sep);
    if at == s.len() {
        assert(parts =~= seq![s]);
        if octets_in_place(s, sep, n) && n > 1 {
            assert(s[2] == sep);
            assert(s.contains(sep));
        }
        if octets_in_place(s, sep, n) {
            assert(s[0] == s[0] && s[1] == s[1]);
            assert(is_octet(parts[0]));
        }
        if parts.len() == n && forall|i: int| 0 <= i < n ==> is_octet(#[trigger] parts[i]) {
            assert(is_octet(parts[0]));
            assert forall|i: int| 0 <= i < s.len() implies if i % 3 == 2 {
                #[trigger] s[i] == sep
            } else {
                is_hex(s[i])
            } by {}
        }
    } else {
        let rest = s.skip(at + 1);
        let more = text::split(rest, sep);
        assert(parts =~= seq![s.take(at)] + more);
        assert(parts[0] == s.take(at));
        assert(more.len() >= 1) by {
            text::lemma_first_at(rest, sep);
        }
        if n > 1 {
            lemma_octets(rest, sep, n - 1);
        }
        if octets_in_place(s, sep, n) {
            if at < 2 {
                assert(is_hex(s[at]));
            }
            if n == 1 {
                assert(is_hex(s[at]));
            } else {
                assert(s[2] == sep);
                assert(at == 2);
                assert forall|i: int| 0 <= i < rest.len() implies if i % 3 == 2 {
                    #[trigger] rest[i] == sep
                } else {
                    is_hex(rest[i])
                } by {
                    assert(rest[i] == s[i + 3]);
                }
                assert(octets_in_place(rest, sep, n - 1));
                assert(is_hex(s[0]) && is_hex(s[1]));
                assert(is_octet(parts[0]));
                assert forall|i: int| 0 <= i < n implies is_octet(#[trigger] parts[i]) by {
                    if i > 0 {
                        assert(parts[i] == more[i - 1]);
                    }
                }
            }
        }
        if parts.len() == n && forall|i: int| 0 <= i < n ==> is_octet(#[trigger] parts[i]) {
            assert(is_octet(parts[0]));
            assert(at == 2);
            assert forall|i: int| 0 <= i < n - 1 implies is_octet(#[trigger] more[i]) by {
                assert(more[i] == parts[i + 1]);
            }
            assert(octets_in_place(rest, sep, n - 1));
            assert forall|i: int| 0 <= i < s.len() implies if i % 3 == 2 {
                #[trigger] s[i] == sep
            } else {
                is_hex(s[i])
            } by {
                if i < 2 {
                    assert(s.take(at)[i] == s[i]);
                } else if i > 2 {
                    assert(rest[i - 3] == s[i]);
                }
            }
        }
    }
}

/// The hexadecimal digits.
pub proof fn law_hexadecimal_digits(c: char)
    ensures
        is_hex(c) <==> ('0' <= c && c <= '9') || ('a' <= c && c <= 'f') || ('A' <= c && c <= 'F'),
{
}

/// A peer MAC is right where it is empty, or twelve hexadecimal digits in pairs with
/// colons between, or with dashes between; nothing else is.
pub proof fn law_peer_macs(mac: Seq<char>)
    ensures
        peer_mac_fault(mac) is None <==> mac.len() == 0 || octets_in_place(mac, ':', 6)
            || octets_in_place(mac, '-', 6),
        mac.len() > 0 && !mac.contains(':') && !mac.contains('-') ==> peer_mac_fault(mac) == Some(
            "peer_mac must use ':' or '-' separators (aa:bb:cc:dd:ee:ff)"@,
        ),
        peer_mac_fault(mac) is Some && (mac.contains(':') || mac.contains('-')) ==> peer_mac_fault(
            mac,
        ) == Some("Invalid peer_mac '"@ + mac + "' (use aa:bb:cc:dd:ee:ff)"@),
{
    lemma_octets(mac, ':', 6);
    lemma_octets(mac, '-', 6);
    if octets_in_place(mac, ':', 6) {
        assert(mac[2] == ':');
        assert(mac.contains(':'));
    }
    if octets_in_place(mac, '-', 6) {
        assert(mac[2] == '-');
        assert(mac.contains('-'));
        if mac.contains(':') {
            let j = choose|j: int| 0 <= j < mac.len() && mac[j] == ':';
            assert(mac[j] == ':');
        }
    }
}

/// What `set-wifi` takes for a mode.
pub proof fn law_wifi_modes(mode: Seq<char>)
    ensures
        wifi_mode(mode) <==> mode == "station"@ || mode == "sniffer"@ || mode == "wifi-ap"@ || mode
            == "ht20-emitter"@ || mode == "ht40-emitter"@ || mode == "esp-now-central"@ || mode
            == "esp-now-peripheral"@,
        ht40_choice(mode) <==> mode == "above"@ || mode == "below"@ || mode == "none"@ || mode
            == "off"@,
        delivery_mode(mode) <==> mode == "off"@ || mode == "callback"@ || mode == "async"@ || mode
            == "raw"@,
{
}

/// Whether a credential can be sent.
pub open spec fn sendable(value: Option<String>) -> bool {
    value matches Some(v) ==> text::byte_len(v@) <= 32 && !v@.contains('\n') && !v@.contains('\r')
        && !(v@.contains('\'') && v@.contains('"'))
}

/// A `set-wifi` body is accepted exactly where its mode is known, its credentials are
/// short enough and can be quoted, its peer MAC is one and its secondary channel is
/// known. The line then names the mode and every value of the body, each under its
/// option and none that is left out.
pub proof fn law_wifi_line(c: WifiConfig)
    ensures
        c.line() is Ok <==> wifi_mode(c.mode@) && sendable(c.sta_ssid) && sendable(c.sta_password) && (
        c.peer_mac matches Some(m) ==> peer_mac_fault(m@) is None) && (c.ht40 matches Some(h)
            ==> ht40_choice(h@)),
        c.line() is Ok ==> c.line()->Ok_0 == "set-wifi --mode="@ + c.mode@ + (match c.sta_ssid {
            Some(v) => " --sta-ssid="@ + quoted(v@)->Ok_0,
            None => Seq::empty(),
        }) + (match c.sta_password {
            Some(v) => " --sta-password="@ + quoted(v@)->Ok_0,
            None => Seq::empty(),
        }) + (match c.channel {
            Some(n) => " --set-channel="@ + text::decimal(n as nat),
            None => Seq::empty(),
        }) + (match c.peer_mac {
            Some(m) => " --peer-mac="@ + m@,
            None => Seq::empty(),
        }) + (match c.ht40 {
            Some(h) => " --ht40="@ + h@,
            None => Seq::empty(),
        }),
{
    if let Some(v) = c.sta_ssid {
        law_quoting(v@);
    }
    if let Some(v) = c.sta_password {
        law_quoting(v@);
    }
}

/// The first thing that is wrong with a `set-wifi` body is what is said of it.
pub proof fn law_wifi_faults(c: WifiConfig)
    ensures
        !wifi_mode(c.mode@) ==> c.line()->Err_0 == "Unknown wifi mode '"@ + c.mode@
            + "'; expected station, sniffer, esp-now-central, or esp-now-peripheral"@,
        wifi_mode(c.mode@) ==> (c.sta_ssid matches Some(v) ==> text::byte_len(v@) > 32
            ==> c.line()->Err_0 == "sta_ssid is "@ + text::decimal(text::byte_len(v@) as nat)
            + " bytes; firmware limit is 32 bytes"@),
        wifi_mode(c.mode@) ==> (c.sta_ssid matches Some(v) ==> text::byte_len(v@) <= 32 && quoted(
            v@,
        ) is Err ==> c.line()->Err_0 == quoted(v@)->Err_0),
        wifi_mode(c.mode@) && sendable(c.sta_ssid) ==> (c.sta_password matches Some(v)
            ==> text::byte_len(v@) > 32 ==> c.line()->Err_0 == "sta_password is "@ + text::decimal(
            text::byte_len(v@) as nat,
        ) + " bytes; firmware limit is 32 bytes"@),
        wifi_mode(c.mode@) && sendable(c.sta_ssid) ==> (c.sta_password matches Some(v)
            ==> text::byte_len(v@) <= 32 && quoted(v@) is Err ==> c.line()->Err_0 == quoted(
            v@,
        )->Err_0),
        wifi_mode(c.mode@) && sendable(c.sta_ssid) && sendable(c.sta_password) ==> (
        c.peer_mac matches Some(m) ==> peer_mac_fault(m@) is Some ==> c.line()->Err_0
            == peer_mac_fault(m@)->0),
        wifi_mode(c.mode@) && sendable(c.sta_ssid) && sendable(c.sta_password) && (
        c.peer_mac matches Some(m) ==> peer_mac_fault(m@) is None) ==> (c.ht40 matches Some(h)
            ==> !ht40_choice(h@) ==> c.line()->Err_0 == "Invalid ht40 '"@ + h@
            + "' (use above, below, none, or off)"@),
{
    if let Some(v) = c.sta_ssid {
        law_quoting(v@);
        let what = "sta_ssid"@;
        let n = text::decimal(text::byte_len(v@) as nat);
        reveal_strlit("sta_ssid");
        reveal_strlit(" is ");
        reveal_strlit("sta_ssid is ");
        assert("sta_ssid"@ + " is "@ =~= "sta_ssid is "@);
    }
    if let Some(v) = c.sta_password {
        law_quoting(v@);
        reveal_strlit("sta_password");
        reveal_strlit(" is ");
        reveal_strlit("sta_password is ");
        assert("sta_password"@ + " is "@ =~= "sta_password is "@);
    }
}

/// A `set-csi` line names every feature that the body disables, and no other, and the
/// values that it sets.
pub proof fn law_csi_line(c: CsiConfig)
    ensures
        c.line() == "set-csi"@
            + (if c.disable_lltf == Some(true) {
            " --disable-lltf"@
        } else {
            Seq::empty()
        })
            + (if c.disable_htltf == Some(true) {
            " --disable-htltf"@
        } else {
            Seq::empty()
        })
            + (if c.disable_stbc_htltf == Some(true) {
            " --disable-stbc-htltf"@
        } else {
            Seq::empty()
        })
            + (if c.disable_ltf_merge == Some(true) {
            " --disable-ltf-merge"@
        } else {
            Seq::empty()
        })
            + (if c.disable_csi == Some(true) {
            " --disable-csi"@
        } else {
            Seq::empty()
        })
            + (if c.disable_csi_legacy == Some(true) {
            " --disable-csi-legacy"@
        } else {
            Seq::empty()
        })
            + (if c.disable_csi_ht20 == Some(true) {
            " --disable-csi-ht20"@
        } else {
            Seq::empty()
        })
            + (if c.disable_csi_ht40 == Some(true) {
            " --disable-csi-ht40"@
        } else {
            Seq::empty()
        })
            + (if c.disable_csi_su == Some(true) {
            " --disable-csi-su"@
        } else {
            Seq::empty()
        })
            + (if c.disable_csi_mu == Some(true) {
            " --disable-csi-mu"@
        } else {
            Seq::empty()
        })
            + (if c.disable_csi_dcm == Some(true) {
            " --disable-csi-dcm"@
        } else {
            Seq::empty()
        })
            + (if c.disable_csi_beamformed == Some(true) {
            " --disable-csi-beamformed"@
        } else {
            Seq::empty()
        })
            + (match c.csi_he_stbc {
            Some(n) => " --csi-he-stbc="@ + text::decimal(n as nat),
            None => Seq::empty(),
        })
            + (match c.val_scale_cfg {
            Some(n) => " --val-scale-cfg="@ + text::decimal(n as nat),
            None => Seq::empty(),
        }),
{
}

/// The lines of the bodies that cannot be refused.
pub proof fn law_plain_lines(traffic: TrafficConfig, log: LogModeConfig, rate: RateConfig)
    ensures
        traffic.line() == "set-traffic --frequency-hz="@ + text::decimal(
            traffic.frequency_hz as nat,
        ),
        rate.line() == "set-rate --rate="@ + rate.rate@,
        log.mode == LogMode::Text ==> log.line() == "set-log-mode --mode=text"@,
        log.mode == LogMode::ArrayList ==> log.line() == "set-log-mode --mode=array-list"@,
        log.mode == LogMode::Serialized ==> log.line() == "set-log-mode --mode=serialized"@,
        log.mode == LogMode::EspCsiTool ==> log.line() == "set-log-mode --mode=esp-csi-tool"@,
{
    reveal_strlit("set-log-mode --mode=");
    reveal_strlit("text");
    reveal_strlit("array-list");
    reveal_strlit("serialized");
    reveal_strlit("esp-csi-tool");
    reveal_strlit("set-log-mode --mode=text");
    reveal_strlit("set-log-mode --mode=array-list");
    reveal_strlit("set-log-mode --mode=serialized");
    reveal_strlit("set-log-mode --mode=esp-csi-tool");
    assert("set-log-mode --mode="@ + "text"@ =~= "set-log-mode --mode=text"@);
    assert("set-log-mode --mode="@ + "array-list"@ =~= "set-log-mode --mode=array-list"@);
    assert("set-log-mode --mode="@ + "serialized"@ =~= "set-log-mode --mode=serialized"@);
    assert("set-log-mode --mode="@ + "esp-csi-tool"@ =~= "set-log-mode --mode=esp-csi-tool"@);
}

/// A start that names a duration sends it in decimal; one that names none runs until it
/// is stopped.
pub proof fn law_start_line(c: StartConfig)
    ensures
        c.duration matches Some(d) ==> c.line() == "start --duration="@ + text::decimal(d as nat),
        c.duration is None ==> c.line() == "start"@,
{
}

/// A collection mode is `collector` or `listener`, and is sent as it is.
pub proof fn law_collection_mode_line(c: CollectionModeConfig)
    ensures
        c.line() is Ok <==> c.mode@ == "collector"@ || c.mode@ == "listener"@,
        c.line() is Ok ==> c.line()->Ok_0 == "set-collection-mode --mode="@ + c.mode@,
        c.line() is Err ==> c.line()->Err_0 == "Unknown collection mode '"@ + c.mode@
            + "'; expected collector or listener"@,
{
}

/// The tasks that an `io-tasks` body names are switched on or off; it has to name one.
pub proof fn law_io_tasks_line(c: IoTasksConfig)
    ensures
        c.line() is Ok <==> c.tx is Some || c.rx is Some,
        c.line() is Err ==> c.line()->Err_0 == "at least one of tx or rx must be provided"@,
        c.line() is Ok ==> c.line()->Ok_0 == "set-io-tasks"@ + (match c.tx {
            Some(true) => " --tx=on"@,
            Some(false) => " --tx=off"@,
            None => Seq::empty(),
        }) + (match c.rx {
            Some(true) => " --rx=on"@,
            Some(false) => " --rx=off"@,
            None => Seq::empty(),
        }),
{
    reveal_strlit(" --tx=");
    reveal_strlit(" --rx=");
    reveal_strlit("on");
    reveal_strlit("off");
    reveal_strlit(" --tx=on");
    reveal_strlit(" --tx=off");
    reveal_strlit(" --rx=on");
    reveal_strlit(" --rx=off");
    assert(" --tx="@ + "on"@ =~= " --tx=on"@);
    assert(" --tx="@ + "off"@ =~= " --tx=off"@);
    assert(" --rx="@ + "on"@ =~= " --rx=on"@);
    assert(" --rx="@ + "off"@ =~= " --rx=off"@);
}

/// A `csi-delivery` body names a mode, the logging gate, or both; a mode has to be known.
pub proof fn law_csi_delivery_line(c: CsiDeliveryConfig)
    ensures
        c.line() is Ok <==> (c.mode is Some || c.logging is Some) && (c.mode matches Some(m)
            ==> delivery_mode(m@)),
        c.mode is None && c.logging is None ==> c.line()->Err_0
            == "at least one of mode or logging must be provided"@,
        c.mode matches Some(m) ==> !delivery_mode(m@) ==> c.line()->Err_0
            == "Unknown csi-delivery mode '"@ + m@ + "'; expected off, callback, async, or raw"@,
        c.line() is Ok ==> c.line()->Ok_0 == "set-csi-delivery"@ + (match c.mode {
            Some(m) => " --mode="@ + m@,
            None => Seq::empty(),
        }) + (match c.logging {
            Some(true) => " --logging=on"@,
            Some(false) => " --logging=off"@,
            None => Seq::empty(),
        }),
{
    reveal_strlit(" --logging=");
    reveal_strlit("on");
    reveal_strlit("off");
    reveal_strlit(" --logging=on");
    reveal_strlit(" --logging=off");
    assert(" --logging="@ + "on"@ =~= " --logging=on"@);
    assert(" --logging="@ + "off"@ =~= " --logging=off"@);
}

/// What the firmware holds after a reset.
pub proof fn law_firmware_defaults()
    ensures
        default_config().wifi.mode == Some("sniffer"@),
        default_config().wifi.channel == Some(1u8),
        default_config().wifi.sta_ssid == Some(Seq::<char>::empty()),
        default_config().wifi.peer_mac == Some("auto"@),
        default_config().wifi.ht40 == Some("none"@),
        default_config().collection.mode == Some("collector"@),
        default_config().collection.traffic_hz == Some(100u64),
        default_config().collection.phy_rate == Some("mcs0-lgi"@),
        default_config().collection.io_tx_enabled == Some(true),
        default_config().collection.io_rx_enabled == Some(true),
        default_config().csi_config.lltf_enabled == Some(true),
        default_config().csi_config.htltf_enabled == Some(true),
        default_config().csi_config.stbc_htltf_enabled == Some(true),
        default_config().csi_config.ltf_merge_enabled == Some(true),
        default_config().csi_config.channel_filter_enabled == Some(false),
        default_config().csi_config.manual_scale == Some(false),
        default_config().csi_config.shift == Some(0u8),
        default_config().csi_config.dump_ack_enabled == Some(false),
        default_config().csi_config.acquire_csi == Some(1u32),
        default_config().csi_config.acquire_csi_legacy == Some(1u32),
        default_config().csi_config.acquire_csi_ht20 == Some(1u32),
        default_config().csi_config.acquire_csi_ht40 == Some(1u32),
        default_config().csi_config.acquire_csi_su == Some(1u32),
        default_config().csi_config.acquire_csi_mu == Some(1u32),
        default_config().csi_config.acquire_csi_dcm == Some(1u32),
        default_config().csi_config.acquire_csi_beamformed == Some(1u32),
        default_config().csi_config.csi_he_stbc == Some(2u32),
        default_config().csi_config.val_scale_cfg == Some(2u32),
        default_config().log_mode is None,
        default_config().csi_delivery_mode is None,
        default_config().csi_logging_enabled is None,
{
}

/// Of a device that nothing has been sent to the cache shows nothing.
pub proof fn law_unset_configuration()
    ensures
        unset_config().wifi.mode is None,
        unset_config().wifi.channel is None,
        unset_config().wifi.sta_ssid is None,
        unset_config().wifi.peer_mac is None,
        unset_config().wifi.ht40 is None,
        unset_config().collection.mode is None,
        unset_config().collection.traffic_hz is None,
        unset_config().collection.phy_rate is None,
        unset_config().collection.io_tx_enabled is None,
        unset_config().collection.io_rx_enabled is None,
        unset_config().csi_config.lltf_enabled is None,
        unset_config().csi_config.htltf_enabled is None,
        unset_config().csi_config.stbc_htltf_enabled is None,
        unset_config().csi_config.ltf_merge_enabled is None,
        unset_config().csi_config.channel_filter_enabled is None,
        unset_config().csi_config.manual_scale is None,
        unset_config().csi_config.shift is None,
        unset_config().csi_config.dump_ack_enabled is None,
        unset_config().csi_config.acquire_csi is None,
        unset_config().csi_config.acquire_csi_legacy is None,
        unset_config().csi_config.acquire_csi_ht20 is None,
        unset_config().csi_config.acquire_csi_ht40 is None,
        unset_config().csi_config.acquire_csi_su is None,
        unset_config().csi_config.acquire_csi_mu is None,
        unset_config().csi_config.acquire_csi_dcm is None,
        unset_config().csi_config.acquire_csi_beamformed is None,
        unset_config().csi_config.csi_he_stbc is None,
        unset_config().csi_config.val_scale_cfg is None,
        unset_config().log_mode is None,
        unset_config().csi_delivery_mode is None,
        unset_config().csi_logging_enabled is None,
{
}

/// What the cache shows of a configuration is what it holds, field by field.
pub proof fn law_configurations_show_their_fields(c: DeviceConfig)
    ensures
        c@.wifi.mode == text::opt_text(c.wifi.mode),
        c@.wifi.channel == c.wifi.channel,
        c@.wifi.sta_ssid == text::opt_text(c.wifi.sta_ssid),
        c@.wifi.peer_mac == text::opt_text(c.wifi.peer_mac),
        c@.wifi.ht40 == text::opt_text(c.wifi.ht40),
        c@.collection.mode == text::opt_text(c.collection.mode),
        c@.collection.traffic_hz == c.collection.traffic_hz,
        c@.collection.phy_rate == text::opt_text(c.collection.phy_rate),
        c@.collection.io_tx_enabled == c.collection.io_tx_enabled,
        c@.collection.io_rx_enabled == c.collection.io_rx_enabled,
        c@.csi_config == c.csi_config,
        c@.log_mode == text::opt_text(c.log_mode),
        c@.csi_delivery_mode == text::opt_text(c.csi_delivery_mode),
        c@.csi_logging_enabled == c.csi_logging_enabled,
{
}

/// What is shown of an identification block is what it holds, field by field.
pub proof fn law_identifications_show_their_fields(i: DeviceInfo)
    ensures
        i@.banner_version == i.banner_version@,
        i@.name == text::opt_text(i.name),
        i@.version == text::opt_text(i.version),
        i@.chip == text::opt_text(i.chip),
        i@.mac == text::opt_text(i.mac),
        i@.protocol == i.protocol,
        i@.features.len() == i.features@.len(),
        forall|k: int| 0 <= k < i.features@.len() ==> #[trigger] i@.features[k] == i.features@[k]@,
{
}

/// A firmware that was told nothing logs arrays, and its frames go to clients alone.
pub proof fn law_defaults_of_modes(port_path: Seq<char>, baud_rate: u32)
    ensures
        log_mode_name(default_log_mode()) == "array-list"@,
        default_log_mode() == LogMode::ArrayList,
        default_output_mode() == OutputMode::Stream,
        default_output_mode() == crate::state::fresh_state(port_path, baud_rate).output_mode,
        default_log_mode() == crate::state::fresh_state(port_path, baud_rate).log_mode,
{
}

} // verus!
