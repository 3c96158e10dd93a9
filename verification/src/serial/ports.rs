//! The ports that an ESP32 may be attached to, and the ids of the devices there.

use vstd::prelude::*;

use crate::text;

verus! {

/// Espressif's USB vendor id, used by the built-in USB-Serial-JTAG controller
/// on ESP32-S3 / C3 / C6. These chips reset by re-enumerating their USB
/// endpoint, so the RTS/DTR auto-reset is skipped for them.
pub const ESPRESSIF_NATIVE_USB_VID: u16 = 0x303A;

/// Silicon Labs CP210x (most common on ESP32 devkits).
pub const CP210X_VID: u16 = 0x10C4;

/// WCH CH340 / CH341.
pub const CH340_VID: u16 = 0x1A86;

/// What the system tells of a USB port.
#[derive(Debug)]
pub struct UsbPort {
    pub vid: u16,
    /// The USB serial number. For native USB-Serial-JTAG boards this is the MAC.
    pub serial_number: Option<String>,
}

/// A serial port that the system lists.
#[derive(Debug)]
pub struct PortInfo {
    pub port_name: String,
    /// What is known of it where it is a USB port.
    pub usb: Option<UsbPort>,
}

/// A port name that USB serial adapters get.
pub open spec fn adapter_name(name: Seq<char>) -> bool {
    text::holds(name, "usbserial"@) || text::holds(name, "usbmodem"@) || text::holds(
        name,
        "ttyUSB"@,
    ) || text::holds(name, "ttyACM"@)
}

/// A USB vendor of ESP32 boards.
pub open spec fn esp_vid(vid: u16) -> bool {
    vid == CP210X_VID || vid == CH340_VID || vid == ESPRESSIF_NATIVE_USB_VID
}

/// A USB port that an ESP32 may well be attached to.
pub open spec fn likely(p: PortInfo) -> bool {
    p.usb is Some && (adapter_name(p.port_name@) || esp_vid(p.usb->0.vid))
}

/// The names of the likely ports.
pub open spec fn likely_names(ports: Seq<PortInfo>) -> Seq<Seq<char>>
    decreases ports.len(),
{
    if ports.len() == 0 {
        Seq::empty()
    } else if likely(ports.last()) {
        likely_names(ports.drop_last()).push(ports.last().port_name@)
    } else {
        likely_names(ports.drop_last())
    }
}

/// The names of the USB ports.
pub open spec fn usb_names(ports: Seq<PortInfo>) -> Seq<Seq<char>>
    decreases ports.len(),
{
    if ports.len() == 0 {
        Seq::empty()
    } else if ports.last().usb is Some {
        usb_names(ports.drop_last()).push(ports.last().port_name@)
    } else {
        usb_names(ports.drop_last())
    }
}

/// The ports to use: the likely ones; where there is none, a lone USB port.
pub open spec fn matched(ports: Seq<PortInfo>) -> Seq<Seq<char>> {
    if likely_names(ports).len() > 0 {
        likely_names(ports)
    } else if usb_names(ports).len() == 1 {
        usb_names(ports)
    } else {
        Seq::empty()
    }
}

/// The ports to use, in order; a pinned port alone where there is one.
pub open spec fn detected(pinned: Option<Seq<char>>, ports: Seq<PortInfo>) -> Seq<Seq<char>> {
    match pinned {
        Some(p) => seq![p],
        None => text::ordered(matched(ports)),
    }
}

fn usual_name(name: &str) -> (r: bool)
    ensures
        r == adapter_name(name@),
{
    text::has_text(name, "usbserial") || text::has_text(name, "usbmodem") || text::has_text(
        name,
        "ttyUSB",
    ) || text::has_text(name, "ttyACM")
}

/// Detect all available ESP32 USB serial port paths, sorted so that device-id
/// assignment is deterministic across scans.
///
/// 1. A pinned port (the `CSI_SERIAL_PORT` override) stands alone.
/// 2. Every USB port whose name contains `usbserial` / `usbmodem` / `ttyUSB` /
///    `ttyACM`, or whose vendor is known for ESP chips.
/// 3. If that found nothing and exactly one USB port exists, that port as a last
///    resort. (When several USB ports are present we refuse to guess, to avoid
///    grabbing unrelated USB serial devices.)
///
/// Where the ports cannot be listed, `ports` is empty, and so is the result.
pub fn detect_esp_ports(pinned: &Option<String>, ports: &Vec<PortInfo>) -> (r: Vec<String>)
    ensures
        text::texts(r@) == detected(text::opt_text(*pinned), ports@),
{
    if let Some(port) = pinned {
        let mut out: Vec<String> = Vec::new();
        out.push(port.clone());
        assert(text::texts(out@) =~= seq![port@]);
        return out;
    }
    let mut names: Vec<String> = Vec::new();
    let mut usb: Vec<String> = Vec::new();
    let mut i: usize = 0;
    assert(text::texts(names@) =~= likely_names(ports@.take(0)));
    assert(text::texts(usb@) =~= usb_names(ports@.take(0)));
    while i < ports.len()
        invariant
            i <= ports@.len(),
            text::texts(names@) == likely_names(ports@.take(i as int)),
            text::texts(usb@) == usb_names(ports@.take(i as int)),
        decreases ports@.len() - i,
    {
        let ghost so_far = ports@.take(i + 1);
        assert(so_far.drop_last() =~= ports@.take(i as int));
        assert(so_far.last() == ports@[i as int]);
        let ghost names_before = names@;
        let ghost usb_before = usb@;
        let port = &ports[i];
        if let Some(info) = &port.usb {
            usb.push(port.port_name.clone());
            assert(text::texts(usb@) =~= text::texts(usb_before).push(port.port_name@));
            if usual_name(port.port_name.as_str()) || info.vid == CP210X_VID || info.vid
                == CH340_VID || info.vid == ESPRESSIF_NATIVE_USB_VID {
                names.push(port.port_name.clone());
                assert(text::texts(names@) =~= text::texts(names_before).push(port.port_name@));
            }
        }
        i += 1;
    }
    assert(ports@.take(i as int) =~= ports@);
    assert(text::texts(names@).len() == names@.len());
    assert(text::texts(usb@).len() == usb@.len());
    if names.len() > 0 {
        text::sorted_texts(names)
    } else if usb.len() == 1 {
        text::sorted_texts(usb)
    } else {
        let none: Vec<String> = Vec::new();
        assert(text::texts(none@) =~= Seq::empty());
        text::sorted_texts(none)
    }
}

// ── Device ids ────────────────────────────────────────────────────────────

/// A character that may stand in a device id.
pub open spec fn id_char(c: char) -> bool {
    ('0' <= c && c <= '9') || ('a' <= c && c <= 'z') || ('A' <= c && c <= 'Z') || c == '_' || c
        == '-'
}

/// A text with `-` in the place of whatever may not stand in a device id.
pub open spec fn sanitized(s: Seq<char>) -> Seq<char> {
    Seq::new(
        s.len(),
        |i: int|
            if id_char(s[i]) {
                s[i]
            } else {
                '-'
            },
    )
}

/// Sanitize an arbitrary string into a URL-safe device id: alphanumerics, `_` and
/// `-` survive, everything else (`/`, `:`, …) becomes `-`. A MAC
/// `D0:CF:13:E2:90:E8` becomes `D0-CF-13-E2-90-E8`; raw paths can't be ids because
/// `/` breaks path matching.
pub fn sanitize_id(s: &str) -> (r: String)
    ensures
        r@ == sanitized(s@),
{
    let chars = text::chars_of(s);
    let mut out = String::new();
    let mut i: usize = 0;
    while i < chars.len()
        invariant
            chars@ == s@,
            i <= chars@.len(),
            out@ =~= sanitized(s@).take(i as int),
        decreases chars@.len() - i,
    {
        let c = chars[i];
        if ('0' <= c && c <= '9') || ('a' <= c && c <= 'z') || ('A' <= c && c <= 'Z') || c == '_'
            || c == '-' {
            out.push(c);
        } else {
            out.push('-');
        }
        i += 1;
    }
    out
}

/// The first alias whose key is the port path or the MAC.
pub open spec fn alias_for(
    aliases: Seq<(String, String)>,
    port_path: Seq<char>,
    mac: Option<Seq<char>>,
) -> Option<Seq<char>>
    decreases aliases.len(),
{
    if aliases.len() == 0 {
        None
    } else if aliases[0].1@ == port_path || mac == Some(aliases[0].1@) {
        Some(aliases[0].0@)
    } else {
        alias_for(aliases.drop_first(), port_path, mac)
    }
}

/// The id of the device at a port.
pub open spec fn id_at(
    port_path: Seq<char>,
    mac: Option<Seq<char>>,
    aliases: Seq<(String, String)>,
) -> Seq<char> {
    match alias_for(aliases, port_path, mac) {
        Some(a) => a,
        None => match mac {
            Some(m) => sanitized(m),
            None => sanitized(text::after_last(port_path, '/')),
        },
    }
}

/// An optional text.
pub open spec fn opt_str(o: Option<&str>) -> Option<Seq<char>> {
    match o {
        Some(s) => Some(s@),
        None => None,
    }
}

/// Derive a stable, URL-safe device id, honouring `alias=<port|mac>` overrides.
///
/// Identity preference, most-stable first:
/// 1. An alias whose key matches the port path or the MAC.
/// 2. The board MAC (from the USB serial number), sanitized: stable across a
///    `ttyACMx` renumbering.
/// 3. The sanitized port basename (`/dev/ttyUSB0` gives `ttyUSB0`) for adapters
///    that expose no serial number; those are UART bridges that don't re-enumerate
///    on reset, so a path-derived id is stable enough for them.
pub fn device_id(port_path: &str, mac: Option<&str>, aliases: &Vec<(String, String)>) -> (r: String)
    ensures
        r@ == id_at(port_path@, opt_str(mac), aliases@),
{
    let mut i: usize = 0;
    assert(aliases@.skip(0) =~= aliases@);
    while i < aliases.len()
        invariant
            i <= aliases@.len(),
            alias_for(aliases@, port_path@, opt_str(mac)) == alias_for(
                aliases@.skip(i as int),
                port_path@,
                opt_str(mac),
            ),
        decreases aliases@.len() - i,
    {
        let ghost rest = aliases@.skip(i as int);
        assert(rest[0] == aliases@[i as int]);
        assert(rest.drop_first() =~= aliases@.skip(i + 1));
        let key = aliases[i].1.as_str();
        let by_mac = match mac {
            Some(m) => text::same(key, m),
            None => false,
        };
        if by_mac || text::same(key, port_path) {
            return aliases[i].0.clone();
        }
        i += 1;
    }
    match mac {
        Some(m) => sanitize_id(m),
        None => sanitize_id(text::after_last_text(port_path, '/').as_str()),
    }
}

// ── Candidates ────────────────────────────────────────────────────────────

/// One port the supervisor may register.
#[derive(Debug)]
pub struct PortCandidate {
    /// Stable device id (MAC-derived, alias, or path basename).
    pub id: String,
    /// Current OS port path (`/dev/ttyACM0`).
    pub path: String,
    /// Espressif native USB-Serial-JTAG (skips the RTS auto-reset).
    pub native_usb: bool,
    /// USB serial number (the MAC for native USB), if exposed.
    pub mac: Option<String>,
}

/// What a [`PortCandidate`] says.
#[verifier::ext_equal]
pub struct CandidateText {
    pub id: Seq<char>,
    pub path: Seq<char>,
    pub native_usb: bool,
    pub mac: Option<Seq<char>>,
}

impl View for PortCandidate {
    type V = CandidateText;

    open spec fn view(&self) -> CandidateText {
        CandidateText {
            id: self.id@,
            path: self.path@,
            native_usb: self.native_usb,
            mac: text::opt_text(self.mac),
        }
    }
}

/// Candidates as text.
pub open spec fn candidates_text(v: Seq<PortCandidate>) -> Seq<CandidateText> {
    Seq::new(v.len(), |i: int| v[i]@)
}

/// Whether the port is an Espressif native USB-Serial-JTAG endpoint.
pub open spec fn native_at(ports: Seq<PortInfo>, path: Seq<char>) -> bool {
    exists|i: int|
        0 <= i < ports.len() && (#[trigger] ports[i]).port_name@ == path && ports[i].usb is Some
            && ports[i].usb->0.vid == ESPRESSIF_NATIVE_USB_VID
}

/// The first USB serial number that the system gives for the port.
pub open spec fn mac_at(ports: Seq<PortInfo>, path: Seq<char>) -> Option<Seq<char>>
    decreases ports.len(),
{
    if ports.len() == 0 {
        None
    } else if ports[0].port_name@ == path && ports[0].usb is Some
        && ports[0].usb->0.serial_number is Some {
        Some(ports[0].usb->0.serial_number->0@)
    } else {
        mac_at(ports.drop_first(), path)
    }
}

/// Whether the system lists the port.
pub open spec fn listed(ports: Seq<PortInfo>, path: Seq<char>) -> bool {
    exists|i: int| 0 <= i < ports.len() && (#[trigger] ports[i]).port_name@ == path
}

fn is_native(ports: &Vec<PortInfo>, path: &str) -> (r: bool)
    ensures
        r == native_at(ports@, path@),
{
    let mut i: usize = 0;
    while i < ports.len()
        invariant
            i <= ports@.len(),
            forall|k: int|
                0 <= k < i ==> !((#[trigger] ports@[k]).port_name@ == path@ && ports@[k].usb is Some
                    && ports@[k].usb->0.vid == ESPRESSIF_NATIVE_USB_VID),
        decreases ports@.len() - i,
    {
        if let Some(info) = &ports[i].usb {
            if info.vid == ESPRESSIF_NATIVE_USB_VID && text::same(
                ports[i].port_name.as_str(),
                path,
            ) {
                return true;
            }
        }
        i += 1;
    }
    false
}

fn mac_of(ports: &Vec<PortInfo>, path: &str) -> (r: Option<String>)
    ensures
        text::opt_text(r) == mac_at(ports@, path@),
{
    let mut i: usize = 0;
    assert(ports@.skip(0) =~= ports@);
    while i < ports.len()
        invariant
            i <= ports@.len(),
            mac_at(ports@, path@) == mac_at(ports@.skip(i as int), path@),
        decreases ports@.len() - i,
    {
        let ghost rest = ports@.skip(i as int);
        assert(rest[0] == ports@[i as int]);
        assert(rest.drop_first() =~= ports@.skip(i + 1));
        if text::same(ports[i].port_name.as_str(), path) {
            if let Some(info) = &ports[i].usb {
                if let Some(serial) = &info.serial_number {
                    return Some(serial.clone());
                }
            }
        }
        i += 1;
    }
    None
}

fn is_listed(ports: &Vec<PortInfo>, path: &str) -> (r: bool)
    ensures
        r == listed(ports@, path@),
{
    let mut i: usize = 0;
    while i < ports.len()
        invariant
            i <= ports@.len(),
            forall|k: int| 0 <= k < i ==> (#[trigger] ports@[k]).port_name@ != path@,
        decreases ports@.len() - i,
    {
        if text::same(ports[i].port_name.as_str(), path) {
            return true;
        }
        i += 1;
    }
    false
}

/// The candidate at a detected port.
pub open spec fn candidate_at(
    path: Seq<char>,
    ports: Seq<PortInfo>,
    aliases: Seq<(String, String)>,
) -> CandidateText {
    CandidateText {
        id: id_at(path, mac_at(ports, path), aliases),
        path,
        native_usb: native_at(ports, path),
        mac: mac_at(ports, path),
    }
}

/// Whether one of the candidates is at that path.
pub open spec fn has_path(v: Seq<CandidateText>, path: Seq<char>) -> bool {
    exists|i: int| 0 <= i < v.len() && (#[trigger] v[i]).path == path
}

/// The candidates with those of the alias-pinned ports that are listed and not
/// among them.
pub open spec fn with_pinned(
    v: Seq<CandidateText>,
    ports: Seq<PortInfo>,
    aliases: Seq<(String, String)>,
) -> Seq<CandidateText>
    decreases aliases.len(),
{
    if aliases.len() == 0 {
        v
    } else {
        let before = with_pinned(v, ports, aliases.drop_last());
        let (alias, path) = (aliases.last().0@, aliases.last().1@);
        if listed(ports, path) && !has_path(before, path) {
            before.push(
                CandidateText {
                    id: alias,
                    path,
                    native_usb: native_at(ports, path),
                    mac: mac_at(ports, path),
                },
            )
        } else {
            before
        }
    }
}

/// What a scan of the ports comes to.
pub open spec fn scanned(
    pinned: Option<Seq<char>>,
    ports: Seq<PortInfo>,
    aliases: Seq<(String, String)>,
) -> Seq<CandidateText> {
    let found = detected(pinned, ports);
    with_pinned(
        Seq::new(found.len(), |i: int| candidate_at(found[i], ports, aliases)),
        ports,
        aliases,
    )
}

fn taken(v: &Vec<PortCandidate>, path: &str) -> (r: bool)
    ensures
        r == has_path(candidates_text(v@), path@),
{
    let mut i: usize = 0;
    while i < v.len()
        invariant
            i <= v@.len(),
            forall|k: int|
                0 <= k < i ==> (#[trigger] candidates_text(v@)[k]).path != path@,
        decreases v@.len() - i,
    {
        if text::same(v[i].path.as_str(), path) {
            let ghost at: int = i as int;
            assert(candidates_text(v@)[at].path == path@);
            return true;
        }
        i += 1;
    }
    false
}

/// One scan: the candidates among the ports that the system lists (by the ESP
/// heuristics, plus alias-pinned ports that the heuristics missed), and the names
/// of all ports.
pub fn scan_ports(
    pinned: &Option<String>,
    ports: &Vec<PortInfo>,
    aliases: &Vec<(String, String)>,
) -> (r: (Vec<PortCandidate>, Vec<String>))
    ensures
        candidates_text(r.0@) == scanned(text::opt_text(*pinned), ports@, aliases@),
        r.1@.len() == ports@.len(),
        forall|i: int| 0 <= i < ports@.len() ==> (#[trigger] r.1@[i])@ == ports@[i].port_name@,
{
    let found = detect_esp_ports(pinned, ports);
    let ghost names = text::texts(found@);
    let mut out: Vec<PortCandidate> = Vec::new();
    let mut i: usize = 0;
    while i < found.len()
        invariant
            i <= found@.len(),
            names == text::texts(found@),
            out@.len() == i,
            forall|k: int|
                0 <= k < i ==> (#[trigger] out@[k])@ == candidate_at(names[k], ports@, aliases@),
        decreases found@.len() - i,
    {
        let path = found[i].as_str();
        assert(names[i as int] == path@);
        let mac = mac_of(ports, path);
        let id = match &mac {
            Some(m) => device_id(path, Some(m.as_str()), aliases),
            None => device_id(path, None, aliases),
        };
        out.push(
            PortCandidate { id, path: path.to_owned(), native_usb: is_native(ports, path), mac },
        );
        i += 1;
    }
    let ghost base = Seq::new(names.len(), |k: int| candidate_at(names[k], ports@, aliases@));
    assert(candidates_text(out@) =~= base);
    let mut j: usize = 0;
    assert(aliases@.take(0) =~= Seq::empty());
    while j < aliases.len()
        invariant
            j <= aliases@.len(),
            candidates_text(out@) == with_pinned(base, ports@, aliases@.take(j as int)),
        decreases aliases@.len() - j,
    {
        let ghost so_far = aliases@.take(j + 1);
        assert(so_far.drop_last() =~= aliases@.take(j as int));
        assert(so_far.last() == aliases@[j as int]);
        let path = aliases[j].1.as_str();
        if is_listed(ports, path) && !taken(&out, path) {
            let ghost before = candidates_text(out@);
            let c = PortCandidate {
                id: aliases[j].0.clone(),
                path: path.to_owned(),
                native_usb: is_native(ports, path),
                mac: mac_of(ports, path),
            };
            let ghost added = c@;
            out.push(c);
            assert(candidates_text(out@) =~= before.push(added));
        }
        j += 1;
    }
    assert(aliases@.take(j as int) =~= aliases@);
    let mut all: Vec<String> = Vec::new();
    let mut k: usize = 0;
    while k < ports.len()
        invariant
            k <= ports@.len(),
            all@.len() == k,
            forall|n: int| 0 <= n < k ==> (#[trigger] all@[n])@ == ports@[n].port_name@,
        decreases ports@.len() - k,
    {
        all.push(ports[k].port_name.clone());
        k += 1;
    }
    (out, all)
}

// ── Laws ──────────────────────────────────────────────────────────────────

/// The names of the ports that `f` picks.
spec fn picked(ports: Seq<PortInfo>, f: spec_fn(PortInfo) -> bool) -> Seq<Seq<char>>
    decreases ports.len(),
{
    if ports.len() == 0 {
        Seq::empty()
    } else if f(ports.last()) {
        picked(ports.drop_last(), f).push(ports.last().port_name@)
    } else {
        picked(ports.drop_last(), f)
    }
}

proof fn lemma_likely_picked(ports: Seq<PortInfo>)
    ensures
        likely_names(ports) == picked(ports, |p: PortInfo| likely(p)),
        usb_names(ports) == picked(ports, |p: PortInfo| p.usb is Some),
    decreases ports.len(),
{
    if ports.len() > 0 {
        lemma_likely_picked(ports.drop_last());
    }
}

/// The names without those that one port contributes.
proof fn lemma_picked_without(ports: Seq<PortInfo>, f: spec_fn(PortInfo) -> bool, j: int)
    requires
        0 <= j < ports.len(),
    ensures
        picked(ports, f).to_multiset() == if f(ports[j]) {
            picked(ports.remove(j), f).to_multiset().insert(ports[j].port_name@)
        } else {
            picked(ports.remove(j), f).to_multiset()
        },
    decreases ports.len(),
{
    broadcast use vstd::seq_lib::group_to_multiset_ensures;

    let rest = ports.drop_last();
    let last = ports.last();
    if j == ports.len() - 1 {
        assert(ports.remove(j) =~= rest);
    } else {
        lemma_picked_without(rest, f, j);
        assert(rest[j] == ports[j]);
        assert(ports.remove(j).drop_last() =~= rest.remove(j));
        assert(ports.remove(j).last() == last);
        let a = picked(rest.remove(j), f).to_multiset();
        assert(a.insert(ports[j].port_name@).insert(last.port_name@) =~= a.insert(
            last.port_name@,
        ).insert(ports[j].port_name@));
    }
}

/// The names that are picked depend on which ports there are, not on their order.
proof fn lemma_picked_order(
    a: Seq<PortInfo>,
    b: Seq<PortInfo>,
    f: spec_fn(PortInfo) -> bool,
)
    requires
        a.to_multiset() == b.to_multiset(),
    ensures
        picked(a, f).to_multiset() == picked(b, f).to_multiset(),
    decreases a.len(),
{
    broadcast use vstd::seq_lib::group_to_multiset_ensures;

    assert(a.len() == b.len()) by {
        assert(a.to_multiset().len() == a.len());
        assert(b.to_multiset().len() == b.len());
    }
    if a.len() > 0 {
        let x = a.last();
        assert(a.contains(x)) by {
            assert(a[a.len() - 1] == x);
        }
        assert(b.to_multiset().count(x) > 0);
        assert(b.contains(x));
        let j = choose|j: int| 0 <= j < b.len() && b[j] == x;
        let shorter = b.remove(j);
        assert(a.drop_last() =~= a.remove(a.len() - 1));
        assert(a.drop_last().to_multiset() =~= a.to_multiset().remove(x));
        assert(shorter.to_multiset() =~= b.to_multiset().remove(x));
        lemma_picked_order(a.drop_last(), shorter, f);
        lemma_picked_without(b, f, j);
        lemma_picked_without(a, f, a.len() - 1);
    }
}

/// Which ports are used, and in which order, does not depend on the order in which
/// the system lists them.
pub proof fn law_detection_ignores_listing_order(
    pinned: Option<Seq<char>>,
    a: Seq<PortInfo>,
    b: Seq<PortInfo>,
)
    requires
        a.to_multiset() == b.to_multiset(),
    ensures
        detected(pinned, a) == detected(pinned, b),
{
    broadcast use vstd::seq_lib::group_to_multiset_ensures;

    lemma_likely_picked(a);
    lemma_likely_picked(b);
    lemma_picked_order(a, b, |p: PortInfo| likely(p));
    lemma_picked_order(a, b, |p: PortInfo| p.usb is Some);
    assert(likely_names(a).to_multiset().len() == likely_names(a).len());
    assert(likely_names(b).to_multiset().len() == likely_names(b).len());
    assert(usb_names(a).to_multiset().len() == usb_names(a).len());
    assert(usb_names(b).to_multiset().len() == usb_names(b).len());
    assert(matched(a).to_multiset() == matched(b).to_multiset());
    text::lemma_order_ignores_order(matched(a), matched(b));
}

/// A sanitized id is safe in a URL path, as long as the text it was made from,
/// and sanitizing it again changes nothing.
pub proof fn law_sanitized_id_is_safe(s: Seq<char>)
    ensures
        sanitized(s).len() == s.len(),
        forall|i: int| 0 <= i < s.len() ==> id_char(#[trigger] sanitized(s)[i]),
        sanitized(sanitized(s)) == sanitized(s),
{
    assert(sanitized(sanitized(s)) =~= sanitized(s));
}

/// A device whose MAC is known has the same id at whatever port it turns up,
/// unless an alias is pinned to one of the ports.
pub proof fn law_id_follows_the_mac(
    a: Seq<char>,
    b: Seq<char>,
    mac: Seq<char>,
    aliases: Seq<(String, String)>,
)
    requires
        forall|i: int|
            0 <= i < aliases.len() ==> (#[trigger] aliases[i]).1@ != a && aliases[i].1@ != b,
    ensures
        id_at(a, Some(mac), aliases) == id_at(b, Some(mac), aliases),
{
    lemma_alias_by_mac(a, b, mac, aliases);
}

proof fn lemma_alias_by_mac(
    a: Seq<char>,
    b: Seq<char>,
    mac: Seq<char>,
    aliases: Seq<(String, String)>,
)
    requires
        forall|i: int|
            0 <= i < aliases.len() ==> (#[trigger] aliases[i]).1@ != a && aliases[i].1@ != b,
    ensures
        alias_for(aliases, a, Some(mac)) == alias_for(aliases, b, Some(mac)),
    decreases aliases.len(),
{
    if aliases.len() > 0 {
        let rest = aliases.drop_first();
        assert forall|i: int| 0 <= i < rest.len() implies (#[trigger] rest[i]).1@ != a
            && rest[i].1@ != b by {
            assert(rest[i] == aliases[i + 1]);
        }
        lemma_alias_by_mac(a, b, mac, rest);
    }
}

/// Whether `part` is a stretch of `s`.
pub open spec fn stretch(s: Seq<char>, part: Seq<char>) -> bool {
    exists|i: int|
        0 <= i && i + part.len() <= s.len() && #[trigger] s.subrange(i, i + part.len()) == part
}

/// A USB port of a vendor of ESP32 boards (Silicon Labs `10C4`, WCH `1A86`, Espressif
/// `303A`), or one whose name is that of a USB serial adapter.
pub open spec fn esp_port(p: PortInfo) -> bool {
    p.usb matches Some(usb) && {
        ||| usb.vid == 0x10C4
        ||| usb.vid == 0x1A86
        ||| usb.vid == 0x303A
        ||| stretch(p.port_name@, "usbserial"@)
        ||| stretch(p.port_name@, "usbmodem"@)
        ||| stretch(p.port_name@, "ttyUSB"@)
        ||| stretch(p.port_name@, "ttyACM"@)
    }
}

proof fn lemma_esp_port(p: PortInfo)
    ensures
        esp_port(p) == likely(p),
{
    text::law_holding(p.port_name@, "usbserial"@);
    text::law_holding(p.port_name@, "usbmodem"@);
    text::law_holding(p.port_name@, "ttyUSB"@);
    text::law_holding(p.port_name@, "ttyACM"@);
}

proof fn lemma_picked_holds(ports: Seq<PortInfo>, f: spec_fn(PortInfo) -> bool)
    ensures
        forall|i: int|
            0 <= i < ports.len() && f(#[trigger] ports[i]) ==> picked(ports, f).contains(
                ports[i].port_name@,
            ),
        forall|n: Seq<char>| #[trigger]
            picked(ports, f).contains(n) ==> exists|i: int|
                0 <= i < ports.len() && f(#[trigger] ports[i]) && ports[i].port_name@ == n,
        picked(ports, f).len() <= ports.len(),
    decreases ports.len(),
{
    if ports.len() > 0 {
        let rest = ports.drop_last();
        lemma_picked_holds(rest, f);
        let (before, after) = (picked(rest, f), picked(ports, f));
        assert forall|i: int| 0 <= i < ports.len() && f(#[trigger] ports[i]) implies after.contains(
            ports[i].port_name@,
        ) by {
            if i < rest.len() {
                assert(rest[i] == ports[i]);
                let j = choose|j: int| 0 <= j < before.len() && before[j] == ports[i].port_name@;
                assert(after[j] == before[j]);
            } else {
                assert(after[after.len() - 1] == ports[i].port_name@);
            }
        }
        assert forall|n: Seq<char>| #[trigger] after.contains(n) implies exists|i: int|
            0 <= i < ports.len() && f(#[trigger] ports[i]) && ports[i].port_name@ == n by {
            let j = choose|j: int| 0 <= j < after.len() && after[j] == n;
            if f(ports.last()) && j == after.len() - 1 {
                assert(f(ports[ports.len() - 1]));
            } else {
                assert(before[j] == n);
                assert(before.contains(n));
                let i = choose|i: int|
                    0 <= i < rest.len() && f(#[trigger] rest[i]) && rest[i].port_name@ == n;
                assert(rest[i] == ports[i]);
                assert(f(ports[i]));
            }
        }
    }
}

/// Putting texts in order keeps which there are.
proof fn lemma_ordered_holds(v: Seq<Seq<char>>)
    ensures
        text::ordered(v).len() == v.len(),
        forall|n: Seq<char>| #[trigger] text::ordered(v).contains(n) <==> v.contains(n),
        text::in_order(text::ordered(v)),
        v.no_duplicates() ==> text::ordered(v).no_duplicates(),
{
    broadcast use vstd::seq_lib::group_to_multiset_ensures;

    text::lemma_order_exists(v);
    let r = text::ordered(v);
    assert(r.to_multiset().len() == r.len());
    assert(v.to_multiset().len() == v.len());
    assert forall|n: Seq<char>| #[trigger] r.contains(n) <==> v.contains(n) by {
        assert(r.contains(n) <==> r.to_multiset().count(n) > 0);
        assert(v.contains(n) <==> v.to_multiset().count(n) > 0);
    }
    if v.no_duplicates() {
        v.lemma_multiset_has_no_duplicates();
        assert forall|n: Seq<char>| r.to_multiset().contains(n) implies #[trigger] r.to_multiset().count(
            n,
        ) == 1 by {}
        r.lemma_multiset_has_no_duplicates_conv();
    }
}

/// Without a pinned port, every USB port that an ESP32 may well be attached to is
/// detected, whatever its name or its vendor, and where there is one nothing else is.
pub proof fn law_every_esp_port_is_detected(ports: Seq<PortInfo>)
    ensures
        forall|i: int|
            0 <= i < ports.len() && esp_port(#[trigger] ports[i]) ==> detected(None, ports).contains(
                ports[i].port_name@,
            ),
        (exists|i: int| 0 <= i < ports.len() && esp_port(#[trigger] ports[i])) ==> forall|n: Seq<char>|
            #[trigger] detected(None, ports).contains(n) ==> exists|i: int|
                0 <= i < ports.len() && esp_port(#[trigger] ports[i]) && ports[i].port_name@ == n,
        text::in_order(detected(None, ports)),
        detected(None, ports).len() <= ports.len(),
{
    let f = |p: PortInfo| likely(p);
    lemma_likely_picked(ports);
    lemma_picked_holds(ports, f);
    lemma_picked_holds(ports, |p: PortInfo| p.usb is Some);
    lemma_ordered_holds(matched(ports));
    let d = detected(None, ports);
    assert forall|i: int| 0 <= i < ports.len() && esp_port(#[trigger] ports[i]) implies d.contains(
        ports[i].port_name@,
    ) by {
        lemma_esp_port(ports[i]);
        assert(f(ports[i]));
        assert(likely_names(ports).contains(ports[i].port_name@));
    }
    if exists|i: int| 0 <= i < ports.len() && esp_port(#[trigger] ports[i]) {
        let k = choose|k: int| 0 <= k < ports.len() && esp_port(#[trigger] ports[k]);
        lemma_esp_port(ports[k]);
        assert(f(ports[k]));
        assert(likely_names(ports).contains(ports[k].port_name@));
        assert forall|n: Seq<char>| #[trigger] d.contains(n) implies exists|i: int|
            0 <= i < ports.len() && esp_port(#[trigger] ports[i]) && ports[i].port_name@ == n by {
            assert(likely_names(ports).contains(n));
            let i = choose|i: int|
                0 <= i < ports.len() && f(#[trigger] ports[i]) && ports[i].port_name@ == n;
            lemma_esp_port(ports[i]);
            assert(esp_port(ports[i]));
        }
    }
}

/// A port that the system lists once is detected at most once.
pub proof fn law_no_port_is_detected_twice(ports: Seq<PortInfo>)
    requires
        forall|i: int, j: int|
            0 <= i < j < ports.len() ==> (#[trigger] ports[i]).port_name@ != (
            #[trigger] ports[j]).port_name@,
    ensures
        detected(None, ports).no_duplicates(),
{
    lemma_likely_picked(ports);
    lemma_picked_once(ports, |p: PortInfo| likely(p));
    lemma_picked_once(ports, |p: PortInfo| p.usb is Some);
    lemma_ordered_holds(matched(ports));
}

proof fn lemma_picked_once(ports: Seq<PortInfo>, f: spec_fn(PortInfo) -> bool)
    requires
        forall|i: int, j: int|
            0 <= i < j < ports.len() ==> (#[trigger] ports[i]).port_name@ != (
            #[trigger] ports[j]).port_name@,
    ensures
        picked(ports, f).no_duplicates(),
    decreases ports.len(),
{
    if ports.len() > 0 {
        let rest = ports.drop_last();
        assert forall|i: int, j: int| 0 <= i < j < rest.len() implies (#[trigger] rest[i]).port_name@
            != (#[trigger] rest[j]).port_name@ by {
            assert(rest[i] == ports[i] && rest[j] == ports[j]);
        }
        lemma_picked_once(rest, f);
        lemma_picked_holds(rest, f);
        let before = picked(rest, f);
        let name = ports.last().port_name@;
        if before.contains(name) {
            let i = choose|i: int|
                0 <= i < rest.len() && f(#[trigger] rest[i]) && rest[i].port_name@ == name;
            assert(rest[i] == ports[i]);
            assert(ports[i].port_name@ != ports[ports.len() - 1].port_name@);
        }
        let after = picked(ports, f);
        assert forall|i: int, j: int| 0 <= i < j < after.len() implies after[i] != after[j] by {
            if j < before.len() {
                assert(after[i] == before[i] && after[j] == before[j]);
            } else {
                assert(after[i] == before[i]);
                assert(before.contains(before[i]));
            }
        }
    }
}

/// Where no port is likely, a USB port is only used if it is the only one; and a
/// pinned port stands alone, whatever the system lists.
pub proof fn law_last_resort_and_pinned_port(ports: Seq<PortInfo>, pinned: Seq<char>)
    ensures
        detected(Some(pinned), ports) == seq![pinned],
        (forall|i: int| 0 <= i < ports.len() ==> !esp_port(#[trigger] ports[i])) ==> {
            &&& (forall|k: int|
                0 <= k < ports.len() && (#[trigger] ports[k]).usb is Some && (forall|j: int|
                    0 <= j < ports.len() && j != k ==> (#[trigger] ports[j]).usb is None)
                    ==> detected(None, ports) == seq![ports[k].port_name@])
            &&& ((exists|j: int, k: int|
                0 <= j < k < ports.len() && (#[trigger] ports[j]).usb is Some && (
                #[trigger] ports[k]).usb is Some) ==> detected(None, ports).len() == 0)
            &&& ((forall|j: int| 0 <= j < ports.len() ==> (#[trigger] ports[j]).usb is None)
                ==> detected(None, ports).len() == 0)
        },
{
    if forall|i: int| 0 <= i < ports.len() ==> !esp_port(#[trigger] ports[i]) {
        let f = |p: PortInfo| likely(p);
        let g = |p: PortInfo| p.usb is Some;
        lemma_likely_picked(ports);
        lemma_picked_holds(ports, f);
        lemma_picked_holds(ports, g);
        if likely_names(ports).len() > 0 {
            let n = likely_names(ports)[0];
            assert(likely_names(ports).contains(n));
            let i = choose|i: int|
                0 <= i < ports.len() && f(#[trigger] ports[i]) && ports[i].port_name@ == n;
            lemma_esp_port(ports[i]);
        }
        lemma_ordered_holds(matched(ports));
        let d = detected(None, ports);
        let u = usb_names(ports);
        assert forall|k: int|
            0 <= k < ports.len() && (#[trigger] ports[k]).usb is Some && (forall|j: int|
                0 <= j < ports.len() && j != k ==> (#[trigger] ports[j]).usb is None) implies d
            == seq![ports[k].port_name@] by {
            lemma_picked_one(ports, k);
            assert(matched(ports) == u);
            assert(u.contains(ports[k].port_name@));
            assert(d.contains(ports[k].port_name@));
            assert(d =~= seq![ports[k].port_name@]);
        }
        if exists|j: int, k: int|
            0 <= j < k < ports.len() && (#[trigger] ports[j]).usb is Some && (
            #[trigger] ports[k]).usb is Some {
            let (j, k) = choose|j: int, k: int|
                0 <= j < k < ports.len() && (#[trigger] ports[j]).usb is Some && (
                #[trigger] ports[k]).usb is Some;
            lemma_picked_two(ports, j, k);
        }
        if forall|j: int| 0 <= j < ports.len() ==> (#[trigger] ports[j]).usb is None {
            if u.len() > 0 {
                assert(u.contains(u[0]));
                let i = choose|i: int|
                    0 <= i < ports.len() && g(#[trigger] ports[i]) && ports[i].port_name@ == u[0];
                assert(ports[i].usb is None);
            }
        }
    }
}

proof fn lemma_picked_one(ports: Seq<PortInfo>, k: int)
    requires
        0 <= k < ports.len(),
        ports[k].usb is Some,
        forall|j: int| 0 <= j < ports.len() && j != k ==> (#[trigger] ports[j]).usb is None,
    ensures
        usb_names(ports) == seq![ports[k].port_name@],
    decreases ports.len(),
{
    let rest = ports.drop_last();
    if k == ports.len() - 1 {
        assert forall|j: int| 0 <= j < rest.len() implies (#[trigger] rest[j]).usb is None by {
            assert(rest[j] == ports[j]);
        }
        lemma_picked_none(rest);
        assert(usb_names(ports) =~= seq![ports[k].port_name@]);
    } else {
        assert(rest[k] == ports[k]);
        assert forall|j: int| 0 <= j < rest.len() && j != k implies (#[trigger] rest[j]).usb is None by {
            assert(rest[j] == ports[j]);
        }
        assert(ports[ports.len() - 1].usb is None);
        lemma_picked_one(rest, k);
    }
}

proof fn lemma_picked_none(ports: Seq<PortInfo>)
    requires
        forall|j: int| 0 <= j < ports.len() ==> (#[trigger] ports[j]).usb is None,
    ensures
        usb_names(ports) == Seq::<Seq<char>>::empty(),
    decreases ports.len(),
{
    if ports.len() > 0 {
        let rest = ports.drop_last();
        assert forall|j: int| 0 <= j < rest.len() implies (#[trigger] rest[j]).usb is None by {
            assert(rest[j] == ports[j]);
        }
        assert(ports[ports.len() - 1].usb is None);
        lemma_picked_none(rest);
    }
}

proof fn lemma_picked_two(ports: Seq<PortInfo>, j: int, k: int)
    requires
        0 <= j < k < ports.len(),
        ports[j].usb is Some,
        ports[k].usb is Some,
    ensures
        usb_names(ports).len() >= 2,
    decreases ports.len(),
{
    let rest = ports.drop_last();
    assert(rest[j] == ports[j]);
    if k == ports.len() - 1 {
        lemma_picked_holds(rest, |p: PortInfo| p.usb is Some);
        lemma_likely_picked(rest);
        let g = |p: PortInfo| p.usb is Some;
        assert(g(rest[j]));
        assert(usb_names(rest).contains(rest[j].port_name@));
    } else {
        assert(rest[k] == ports[k]);
        lemma_picked_two(rest, j, k);
    }
}

/// The first alias whose key is the port path or the MAC names the device.
pub proof fn law_aliases_name_devices(
    port_path: Seq<char>,
    mac: Option<Seq<char>>,
    aliases: Seq<(String, String)>,
    k: int,
)
    requires
        0 <= k < aliases.len(),
        aliases[k].1@ == port_path || mac == Some(aliases[k].1@),
        forall|j: int|
            0 <= j < k ==> (#[trigger] aliases[j]).1@ != port_path && mac != Some(aliases[j].1@),
    ensures
        id_at(port_path, mac, aliases) == aliases[k].0@,
    decreases aliases.len(),
{
    if k > 0 {
        let rest = aliases.drop_first();
        assert(aliases[0].1@ != port_path && mac != Some(aliases[0].1@));
        assert(rest[k - 1] == aliases[k]);
        assert forall|j: int| 0 <= j < k - 1 implies (#[trigger] rest[j]).1@ != port_path && mac
            != Some(rest[j].1@) by {
            assert(rest[j] == aliases[j + 1]);
        }
        law_aliases_name_devices(port_path, mac, rest, k - 1);
    }
}

/// Whether `id` is `s` with `-` in the place of whatever is no ASCII letter, no digit,
/// no `_` and no `-`.
pub open spec fn url_safe(id: Seq<char>, s: Seq<char>) -> bool {
    &&& id.len() == s.len()
    &&& forall|i: int|
        0 <= i < s.len() ==> #[trigger] id[i] == if ('0' <= s[i] && s[i] <= '9') || ('a' <= s[i]
            && s[i] <= 'z') || ('A' <= s[i] && s[i] <= 'Z') || s[i] == '_' || s[i] == '-' {
            s[i]
        } else {
            '-'
        }
}

/// A device that no alias names is called after its MAC, and without one after the
/// last part of its port path.
pub proof fn law_devices_without_alias(
    port_path: Seq<char>,
    mac: Option<Seq<char>>,
    aliases: Seq<(String, String)>,
    directory: Seq<char>,
    base: Seq<char>,
)
    requires
        forall|j: int|
            0 <= j < aliases.len() ==> (#[trigger] aliases[j]).1@ != port_path && mac != Some(
                aliases[j].1@,
            ),
        !base.contains('/'),
        port_path == base || port_path == directory.push('/') + base,
    ensures
        mac matches Some(m) ==> url_safe(id_at(port_path, mac, aliases), m),
        mac is None ==> url_safe(id_at(port_path, mac, aliases), base),
{
    lemma_no_alias(port_path, mac, aliases);
    text::law_after_the_last(directory, base, '/');
}

proof fn lemma_no_alias(
    port_path: Seq<char>,
    mac: Option<Seq<char>>,
    aliases: Seq<(String, String)>,
)
    requires
        forall|j: int|
            0 <= j < aliases.len() ==> (#[trigger] aliases[j]).1@ != port_path && mac != Some(
                aliases[j].1@,
            ),
    ensures
        alias_for(aliases, port_path, mac) is None,
    decreases aliases.len(),
{
    if aliases.len() > 0 {
        let rest = aliases.drop_first();
        assert(aliases[0].1@ != port_path && mac != Some(aliases[0].1@));
        assert forall|j: int| 0 <= j < rest.len() implies (#[trigger] rest[j]).1@ != port_path
            && mac != Some(rest[j].1@) by {
            assert(rest[j] == aliases[j + 1]);
        }
        lemma_no_alias(port_path, mac, rest);
    }
}

/// Whether a candidate says of its port what the system says: that it is Espressif's
/// native USB (vendor `303A`) exactly where the system lists it so, and the first serial
/// number that the system gives for it.
pub open spec fn told_by_system(c: CandidateText, ports: Seq<PortInfo>) -> bool {
    &&& c.native_usb <==> exists|i: int|
        0 <= i < ports.len() && (#[trigger] ports[i]).port_name@ == c.path && ports[i].usb is Some
            && ports[i].usb->0.vid == 0x303A
    &&& forall|i: int|
        0 <= i < ports.len() && (#[trigger] ports[i]).port_name@ == c.path && ports[i].usb is Some
            && ports[i].usb->0.serial_number is Some && (forall|j: int|
            0 <= j < i ==> !((#[trigger] ports[j]).port_name@ == c.path && ports[j].usb is Some
                && ports[j].usb->0.serial_number is Some)) ==> c.mac == Some(
            ports[i].usb->0.serial_number->0@,
        )
    &&& (forall|i: int|
        0 <= i < ports.len() ==> !((#[trigger] ports[i]).port_name@ == c.path && ports[i].usb is Some
            && ports[i].usb->0.serial_number is Some)) ==> c.mac is None
}

proof fn lemma_mac_at(ports: Seq<PortInfo>, path: Seq<char>, k: int)
    requires
        0 <= k <= ports.len(),
        k < ports.len() ==> ports[k].port_name@ == path && ports[k].usb is Some
            && ports[k].usb->0.serial_number is Some,
        forall|j: int|
            0 <= j < k ==> !((#[trigger] ports[j]).port_name@ == path && ports[j].usb is Some
                && ports[j].usb->0.serial_number is Some),
    ensures
        mac_at(ports, path) == if k < ports.len() {
            Some(ports[k].usb->0.serial_number->0@)
        } else {
            None
        },
    decreases ports.len(),
{
    if k > 0 {
        let rest = ports.drop_first();
        assert(!(ports[0].port_name@ == path && ports[0].usb is Some
            && ports[0].usb->0.serial_number is Some));
        assert forall|j: int| 0 <= j < k - 1 implies !((#[trigger] rest[j]).port_name@ == path
            && rest[j].usb is Some && rest[j].usb->0.serial_number is Some) by {
            assert(rest[j] == ports[j + 1]);
        }
        if k < ports.len() {
            assert(rest[k - 1] == ports[k]);
        }
        lemma_mac_at(rest, path, k - 1);
    }
}

proof fn lemma_told(ports: Seq<PortInfo>, c: CandidateText)
    requires
        c.native_usb == native_at(ports, c.path),
        c.mac == mac_at(ports, c.path),
    ensures
        told_by_system(c, ports),
{
    assert forall|i: int|
        0 <= i < ports.len() && (#[trigger] ports[i]).port_name@ == c.path && ports[i].usb is Some
            && ports[i].usb->0.serial_number is Some && (forall|j: int|
            0 <= j < i ==> !((#[trigger] ports[j]).port_name@ == c.path && ports[j].usb is Some
                && ports[j].usb->0.serial_number is Some)) implies c.mac == Some(
        ports[i].usb->0.serial_number->0@,
    ) by {
        lemma_mac_at(ports, c.path, i);
    }
    if forall|i: int|
        0 <= i < ports.len() ==> !((#[trigger] ports[i]).port_name@ == c.path && ports[i].usb is Some
            && ports[i].usb->0.serial_number is Some) {
        lemma_mac_at(ports, c.path, ports.len() as int);
    }
}

/// What a scan has found so far, and what the aliases add to it.
proof fn lemma_with_pinned(
    v: Seq<CandidateText>,
    ports: Seq<PortInfo>,
    aliases: Seq<(String, String)>,
)
    requires
        forall|i: int| 0 <= i < v.len() ==> told_by_system(#[trigger] v[i], ports),
    ensures
        ({
            let w = with_pinned(v, ports, aliases);
            &&& w.len() >= v.len()
            &&& forall|i: int| 0 <= i < v.len() ==> #[trigger] w[i] == v[i]
            &&& forall|i: int| 0 <= i < w.len() ==> told_by_system(#[trigger] w[i], ports)
            &&& forall|i: int|
                v.len() <= i < w.len() ==> listed(ports, (#[trigger] w[i]).path) && !has_path(
                    v,
                    w[i].path,
                ) && exists|k: int|
                    0 <= k < aliases.len() && (#[trigger] aliases[k]).1@ == w[i].path
                        && aliases[k].0@ == w[i].id && forall|j: int|
                        0 <= j < k ==> (#[trigger] aliases[j]).1@ != w[i].path
            &&& forall|k: int|
                0 <= k < aliases.len() && listed(ports, (#[trigger] aliases[k]).1@) ==> has_path(
                    w,
                    aliases[k].1@,
                )
        }),
    decreases aliases.len(),
{
    if aliases.len() > 0 {
        let rest = aliases.drop_last();
        lemma_with_pinned(v, ports, rest);
        let u = with_pinned(v, ports, rest);
        let w = with_pinned(v, ports, aliases);
        let path = aliases.last().1@;
        let n = aliases.len() - 1;
        if listed(ports, path) && !has_path(u, path) {
            lemma_told(ports, w[w.len() - 1]);
            assert(w[w.len() - 1].path == path);
            assert(has_path(w, path));
        }
        assert forall|p: Seq<char>| has_path(u, p) implies #[trigger] has_path(w, p) by {
            let i = choose|i: int| 0 <= i < u.len() && (#[trigger] u[i]).path == p;
            assert(w[i] == u[i]);
        }
        assert forall|p: Seq<char>| has_path(v, p) implies #[trigger] has_path(u, p) by {
            let i = choose|i: int| 0 <= i < v.len() && (#[trigger] v[i]).path == p;
            assert(u[i] == v[i]);
        }
        assert forall|i: int| 0 <= i < w.len() implies told_by_system(#[trigger] w[i], ports) by {
            if i < u.len() {
                assert(w[i] == u[i]);
            }
        }
        assert forall|i: int| v.len() <= i < w.len() implies listed(ports, (#[trigger] w[i]).path)
            && !has_path(v, w[i].path) && exists|k: int|
            0 <= k < aliases.len() && (#[trigger] aliases[k]).1@ == w[i].path && aliases[k].0@
                == w[i].id && forall|j: int|
                0 <= j < k ==> (#[trigger] aliases[j]).1@ != w[i].path by {
            if i < u.len() {
                assert(w[i] == u[i]);
                let k = choose|k: int|
                    0 <= k < rest.len() && (#[trigger] rest[k]).1@ == u[i].path && rest[k].0@
                        == u[i].id && forall|j: int|
                        0 <= j < k ==> (#[trigger] rest[j]).1@ != u[i].path;
                assert(rest[k] == aliases[k]);
                assert forall|j: int| 0 <= j < k implies (#[trigger] aliases[j]).1@ != w[i].path by {
                    assert(rest[j] == aliases[j]);
                }
            } else {
                assert(aliases[n].1@ == w[i].path);
                assert forall|j: int| 0 <= j < n implies (#[trigger] aliases[j]).1@ != w[i].path by {
                    assert(rest[j] == aliases[j]);
                    if rest[j].1@ == path {
                        assert(has_path(u, rest[j].1@));
                    }
                }
            }
        }
        assert forall|k: int|
            0 <= k < aliases.len() && listed(ports, (#[trigger] aliases[k]).1@) implies has_path(
            w,
            aliases[k].1@,
        ) by {
            if k < n {
                assert(rest[k] == aliases[k]);
                assert(has_path(u, rest[k].1@));
            }
        }
    }
}

/// A scan finds a candidate at every detected port, in order, under the id of the
/// device there; behind them come the ports that an alias is pinned to, where the
/// system lists them and they were not detected, each under its first alias. There is
/// nothing else, and every candidate says of its port what the system says.
pub proof fn law_scan_finds_what_there_is(
    pinned: Option<Seq<char>>,
    ports: Seq<PortInfo>,
    aliases: Seq<(String, String)>,
)
    ensures
        ({
            let found = detected(pinned, ports);
            let w = scanned(pinned, ports, aliases);
            &&& w.len() >= found.len()
            &&& forall|i: int|
                0 <= i < found.len() ==> (#[trigger] w[i]).path == found[i] && w[i].id == id_at(
                    found[i],
                    w[i].mac,
                    aliases,
                )
            &&& forall|i: int| 0 <= i < w.len() ==> told_by_system(#[trigger] w[i], ports)
            &&& forall|i: int|
                found.len() <= i < w.len() ==> !found.contains((#[trigger] w[i]).path) && (exists|n: int|
                    0 <= n < ports.len() && (#[trigger] ports[n]).port_name@ == w[i].path)
                    && exists|k: int|
                    0 <= k < aliases.len() && (#[trigger] aliases[k]).1@ == w[i].path
                        && aliases[k].0@ == w[i].id && forall|j: int|
                        0 <= j < k ==> (#[trigger] aliases[j]).1@ != w[i].path
            &&& forall|k: int, n: int|
                0 <= k < aliases.len() && 0 <= n < ports.len() && (#[trigger] ports[n]).port_name@
                    == (#[trigger] aliases[k]).1@ ==> exists|i: int|
                    0 <= i < w.len() && (#[trigger] w[i]).path == aliases[k].1@
        }),
{
    let found = detected(pinned, ports);
    let v = Seq::new(found.len(), |i: int| candidate_at(found[i], ports, aliases));
    let w = scanned(pinned, ports, aliases);
    assert forall|i: int| 0 <= i < v.len() implies told_by_system(#[trigger] v[i], ports) by {
        lemma_told(ports, v[i]);
    }
    lemma_with_pinned(v, ports, aliases);
    assert forall|i: int| 0 <= i < found.len() implies (#[trigger] w[i]).path == found[i] && w[i].id
        == id_at(found[i], w[i].mac, aliases) by {
        assert(w[i] == v[i]);
    }
    assert forall|i: int| found.len() <= i < w.len() implies !found.contains((#[trigger] w[i]).path) by {
        if found.contains(w[i].path) {
            let j = choose|j: int| 0 <= j < found.len() && found[j] == w[i].path;
            assert(v[j].path == w[i].path);
            assert(has_path(v, w[i].path));
        }
    }
    assert forall|k: int, n: int|
        0 <= k < aliases.len() && 0 <= n < ports.len() && (#[trigger] ports[n]).port_name@ == (
        #[trigger] aliases[k]).1@ implies exists|i: int|
        0 <= i < w.len() && (#[trigger] w[i]).path == aliases[k].1@ by {
        assert(listed(ports, aliases[k].1@));
        assert(has_path(w, aliases[k].1@));
    }
}

/// Candidates show their fields, one by one, in order.
pub proof fn law_candidates_show_their_fields(c: PortCandidate, v: Seq<PortCandidate>)
    ensures
        c@.id == c.id@,
        c@.path == c.path@,
        c@.native_usb == c.native_usb,
        c@.mac is Some <==> c.mac is Some,
        c.mac is Some ==> c@.mac->0 == c.mac->0@,
        candidates_text(v).len() == v.len(),
        forall|i: int| 0 <= i < v.len() ==> #[trigger] candidates_text(v)[i] == v[i]@,
{
}

} // verus!
