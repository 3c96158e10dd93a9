//! The hotplug supervisor: the single authority on which devices exist.

use vstd::prelude::*;

use crate::models::{unset_config, LogMode, OutputMode};
use crate::serial::ports::{candidates_text, CandidateText, PortCandidate};
use crate::state::{
    distinct_ids, lemma_place, lemma_place_unique, lemma_with_device_distinct, lookup,
    place, with_device, AppState, DeviceHandle, DeviceRegistry, DeviceText,
};
use crate::text;

verus! {

/// Consecutive missing scans before a device is removed.
pub const DEBOUNCE: u32 = 3;

/// What the supervisor has to do after a scan.
#[derive(Debug)]
pub enum SupervisorAction {
    /// Start the serial task of a new device at that port.
    Start { id: String, path: String },
    /// The device turned up at another port: stop its serial task and start one
    /// there.
    Follow { id: String, path: String },
    /// Stop the serial task of a device that is gone.
    Stop { id: String },
}

/// What a [`SupervisorAction`] says.
#[verifier::ext_equal]
pub enum ActionText {
    Start { id: Seq<char>, path: Seq<char> },
    Follow { id: Seq<char>, path: Seq<char> },
    Stop { id: Seq<char> },
}

impl View for SupervisorAction {
    type V = ActionText;

    open spec fn view(&self) -> ActionText {
        match *self {
            SupervisorAction::Start { id, path } => ActionText::Start { id: id@, path: path@ },
            SupervisorAction::Follow { id, path } => ActionText::Follow { id: id@, path: path@ },
            SupervisorAction::Stop { id } => ActionText::Stop { id: id@ },
        }
    }
}

/// Actions as text.
pub open spec fn actions_text(v: Seq<SupervisorAction>) -> Seq<ActionText> {
    Seq::new(v.len(), |i: int| v[i]@)
}

/// The device that starts at a candidate port.
pub open spec fn new_device(c: CandidateText, baud: u32) -> DeviceText {
    DeviceText {
        id: c.id,
        mac: c.mac,
        native_usb: c.native_usb,
        state: crate::state::fresh_state(c.path, baud),
        missing_scans: 0,
    }
}

/// Build a [`DeviceHandle`] for a port. Nothing is known of the device yet, and it
/// is not connected.
pub fn spawn_device(
    id: String,
    port_path: String,
    baud: u32,
    native_usb: bool,
    mac: Option<String>,
) -> (r: DeviceHandle)
    ensures
        r@ == new_device(
            (CandidateText { id: id@, path: port_path@, native_usb, mac: text::opt_text(mac) }),
            baud,
        ),
        r@.state.coherent(),
{
    DeviceHandle {
        id,
        mac,
        native_usb,
        state: AppState::new(port_path, baud),
        missing_scans: 0,
    }
}

/// The devices after a candidate was seen: a new one is registered, one that
/// moved starts afresh at its new port, one that is where it was is left alone.
pub open spec fn enroll(v: Seq<DeviceText>, c: CandidateText, baud: u32) -> Seq<DeviceText> {
    match lookup(v, c.id) {
        None => with_device(v, new_device(c, baud)),
        Some(d) => if d.state.port_path != c.path {
            with_device(v, new_device(c, baud))
        } else {
            with_device(v, DeviceText { missing_scans: 0, ..d })
        },
    }
}

/// What is to be done about a candidate.
pub open spec fn enroll_action(v: Seq<DeviceText>, c: CandidateText) -> Seq<ActionText> {
    match lookup(v, c.id) {
        None => seq![ActionText::Start { id: c.id, path: c.path }],
        Some(d) => if d.state.port_path != c.path {
            seq![ActionText::Follow { id: c.id, path: c.path }]
        } else {
            Seq::empty()
        },
    }
}

/// The devices after all candidates were seen.
pub open spec fn enrolled(v: Seq<DeviceText>, cs: Seq<CandidateText>, baud: u32) -> Seq<DeviceText>
    decreases cs.len(),
{
    if cs.len() == 0 {
        v
    } else {
        enroll(enrolled(v, cs.drop_last(), baud), cs.last(), baud)
    }
}

/// What is to be done about the candidates.
pub open spec fn enroll_actions(v: Seq<DeviceText>, cs: Seq<CandidateText>, baud: u32) -> Seq<
    ActionText,
>
    decreases cs.len(),
{
    if cs.len() == 0 {
        Seq::empty()
    } else {
        enroll_actions(v, cs.drop_last(), baud) + enroll_action(
            enrolled(v, cs.drop_last(), baud),
            cs.last(),
        )
    }
}

/// Whether a candidate with that id is there.
pub open spec fn present(cs: Seq<CandidateText>, id: Seq<char>) -> bool {
    exists|i: int| 0 <= i < cs.len() && (#[trigger] cs[i]).id == id
}

/// Whether a device has been absent long enough to be removed.
pub open spec fn expired(d: DeviceText, cs: Seq<CandidateText>) -> bool {
    !present(cs, d.id) && d.missing_scans + 1 >= DEBOUNCE
}

/// A device that stays, with its count of missed scans.
pub open spec fn counted(d: DeviceText, cs: Seq<CandidateText>) -> DeviceText {
    if present(cs, d.id) {
        DeviceText { missing_scans: 0, ..d }
    } else {
        DeviceText { missing_scans: (d.missing_scans + 1) as u32, ..d }
    }
}

/// The devices that stay.
pub open spec fn swept(v: Seq<DeviceText>, cs: Seq<CandidateText>) -> Seq<DeviceText>
    decreases v.len(),
{
    if v.len() == 0 {
        Seq::empty()
    } else if expired(v.last(), cs) {
        swept(v.drop_last(), cs)
    } else {
        swept(v.drop_last(), cs).push(counted(v.last(), cs))
    }
}

/// The devices that go.
pub open spec fn sweep_actions(v: Seq<DeviceText>, cs: Seq<CandidateText>) -> Seq<ActionText>
    decreases v.len(),
{
    if v.len() == 0 {
        Seq::empty()
    } else if expired(v.last(), cs) {
        sweep_actions(v.drop_last(), cs).push(ActionText::Stop { id: v.last().id })
    } else {
        sweep_actions(v.drop_last(), cs)
    }
}

/// The registry after a scan.
pub open spec fn supervised(v: Seq<DeviceText>, cs: Seq<CandidateText>, baud: u32) -> Seq<
    DeviceText,
> {
    swept(enrolled(v, cs, baud), cs)
}

/// What is to be done after a scan.
pub open spec fn supervisor_actions(v: Seq<DeviceText>, cs: Seq<CandidateText>, baud: u32) -> Seq<
    ActionText,
> {
    enroll_actions(v, cs, baud) + sweep_actions(enrolled(v, cs, baud), cs)
}

/// No count of missed scans has reached the limit: such a device is removed.
pub open spec fn counts_low(v: Seq<DeviceText>) -> bool {
    forall|i: int| 0 <= i < v.len() ==> (#[trigger] v[i]).missing_scans < DEBOUNCE
}

proof fn lemma_enroll_counts(v: Seq<DeviceText>, c: CandidateText, baud: u32)
    requires
        counts_low(v),
    ensures
        counts_low(enroll(v, c, baud)),
{
    lemma_place(v, c.id);
    let w = enroll(v, c, baud);
    assert forall|i: int| 0 <= i < w.len() implies (#[trigger] w[i]).missing_scans < DEBOUNCE by {
        if i < v.len() && i != place(v, c.id) {
            assert(w[i] == v[i]);
        }
    }
}

proof fn lemma_enrolled_counts(v: Seq<DeviceText>, cs: Seq<CandidateText>, baud: u32)
    requires
        counts_low(v),
    ensures
        counts_low(enrolled(v, cs, baud)),
    decreases cs.len(),
{
    if cs.len() > 0 {
        lemma_enrolled_counts(v, cs.drop_last(), baud);
        lemma_enroll_counts(enrolled(v, cs.drop_last(), baud), cs.last(), baud);
    }
}

proof fn lemma_swept_counts(v: Seq<DeviceText>, cs: Seq<CandidateText>)
    requires
        counts_low(v),
    ensures
        counts_low(swept(v, cs)),
    decreases v.len(),
{
    if v.len() > 0 {
        let w = v.drop_last();
        assert forall|i: int| 0 <= i < w.len() implies (#[trigger] w[i]).missing_scans
            < DEBOUNCE by {
            assert(w[i] == v[i]);
        }
        lemma_swept_counts(w, cs);
        assert(v.last().missing_scans < DEBOUNCE);
    }
}

fn is_present(cs: &Vec<PortCandidate>, id: &str) -> (r: bool)
    ensures
        r == present(candidates_text(cs@), id@),
{
    let mut i: usize = 0;
    while i < cs.len()
        invariant
            i <= cs@.len(),
            forall|k: int| 0 <= k < i ==> (#[trigger] candidates_text(cs@)[k]).id != id@,
        decreases cs@.len() - i,
    {
        if text::same(cs[i].id.as_str(), id) {
            let ghost at: int = i as int;
            assert(candidates_text(cs@)[at].id == id@);
            return true;
        }
        i += 1;
    }
    false
}

/// Registers a candidate, or follows it to its new port.
fn enroll_candidate(registry: &mut DeviceRegistry, c: &PortCandidate, baud: u32) -> (r: Option<
    SupervisorAction,
>)
    ensures
        final(registry)@ == enroll(old(registry)@, c@, baud),
        enroll_action(old(registry)@, c@) == match r {
            Some(a) => seq![a@],
            None => Seq::empty(),
        },
{
    let ghost before = registry@;
    let i: usize = registry.position(c.id.as_str());
    proof {
        lemma_place(before, c@.id);
    }
    if i == registry.devices.len() {
        registry.insert(
            spawn_device(
                c.id.clone(),
                c.path.clone(),
                baud,
                c.native_usb,
                text::copy_opt(&c.mac),
            ),
        );
        return Some(SupervisorAction::Start { id: c.id.clone(), path: c.path.clone() });
    }
    assert(before[i as int] == registry.devices@[i as int]@);
    if !text::same(registry.devices[i].state.port_path.as_str(), c.path.as_str()) {
        registry.insert(
            spawn_device(
                c.id.clone(),
                c.path.clone(),
                baud,
                c.native_usb,
                text::copy_opt(&c.mac),
            ),
        );
        return Some(SupervisorAction::Follow { id: c.id.clone(), path: c.path.clone() });
    }
    registry.devices[i].missing_scans = 0;
    assert(registry@ =~= before.update(
        i as int,
        (DeviceText { missing_scans: 0, ..before[i as int] }),
    ));
    None
}

/// Counts the scans that devices have missed and takes out those that are gone.
fn sweep(registry: &mut DeviceRegistry, cs: &Vec<PortCandidate>) -> (r: Vec<SupervisorAction>)
    requires
        counts_low(old(registry)@),
    ensures
        final(registry)@ == swept(old(registry)@, candidates_text(cs@)),
        actions_text(r@) == sweep_actions(old(registry)@, candidates_text(cs@)),
{
    let ghost before = registry@;
    let ghost cands = candidates_text(cs@);
    let ghost mut seen: int = 0;
    let mut out: Vec<SupervisorAction> = Vec::new();
    let mut i: usize = 0;
    assert(before.take(0) =~= Seq::empty());
    assert(before.skip(0) =~= before);
    assert(actions_text(out@) =~= Seq::empty());
    assert(registry@.take(0) =~= Seq::empty());
    while i < registry.devices.len()
        invariant
            cands == candidates_text(cs@),
            counts_low(before),
            i <= registry.devices@.len(),
            0 <= seen <= before.len(),
            registry@.take(i as int) == swept(before.take(seen), cands),
            registry@.skip(i as int) == before.skip(seen),
            actions_text(out@) == sweep_actions(before.take(seen), cands),
        decreases registry.devices@.len() - i,
    {
        let ghost now = registry@;
        let ghost d = before[seen];
        proof {
            assert(now.skip(i as int)[0] == now[i as int]);
            assert(now.skip(i as int).len() == before.skip(seen).len());
            assert(before.skip(seen)[0] == d);
            assert(before.take(seen + 1).drop_last() =~= before.take(seen));
            assert(before.take(seen + 1).last() == d);
            assert(before.skip(seen).drop_first() =~= before.skip(seen + 1));
        }
        assert(registry.devices@[i as int]@ == d);
        if is_present(cs, registry.devices[i].id.as_str()) {
            registry.devices[i].missing_scans = 0;
            proof {
                assert(registry@ =~= now.update(i as int, counted(d, cands)));
                assert(registry@.take(i + 1) =~= now.take(i as int).push(counted(d, cands)));
                assert(registry@.skip(i + 1) =~= now.skip(i as int).drop_first());
                seen = seen + 1;
            }
            i += 1;
        } else if registry.devices[i].missing_scans + 1 >= DEBOUNCE {
            let ghost said = actions_text(out@);
            let gone = registry.devices.remove(i);
            let a = SupervisorAction::Stop { id: gone.id };
            let ghost added = a@;
            out.push(a);
            proof {
                assert(actions_text(out@) =~= said.push(added));
                assert(registry@ =~= now.remove(i as int));
                assert(registry@.take(i as int) =~= now.take(i as int));
                assert(registry@.skip(i as int) =~= now.skip(i as int).drop_first());
                seen = seen + 1;
            }
        } else {
            let count: u32 = registry.devices[i].missing_scans;
            registry.devices[i].missing_scans = count + 1;
            proof {
                assert(registry@ =~= now.update(i as int, counted(d, cands)));
                assert(registry@.take(i + 1) =~= now.take(i as int).push(counted(d, cands)));
                assert(registry@.skip(i + 1) =~= now.skip(i as int).drop_first());
                seen = seen + 1;
            }
            i += 1;
        }
    }
    proof {
        assert(registry@.skip(i as int).len() == 0);
        assert(before.skip(seen).len() == 0);
        assert(before.take(seen) =~= before);
        assert(registry@.take(i as int) =~= registry@);
    }
    out
}

/// One pass of the hotplug supervisor.
///
/// Registers newly appeared devices and takes out the ones that have been absent
/// for [`DEBOUNCE`] consecutive scans (the debounce absorbs transient USB drops,
/// which the per-device reconnect loop handles on its own).
///
/// Identity is the stable id (MAC-derived), not the port path, so a board that
/// re-enumerates under a different `/dev/ttyACMx` is the same device. If its path
/// changed, the old task is stopped (it is pinned to the now-stale path) and one
/// is started at the new path; else the healthy task is left alone.
///
/// The caller scans the ports off its runtime, performs the actions in order, and
/// sleeps for the scan interval.
pub fn run_supervisor(registry: &mut DeviceRegistry, baud: u32, candidates: &Vec<PortCandidate>) -> (r:
    Vec<SupervisorAction>)
    requires
        counts_low(old(registry)@),
    ensures
        final(registry)@ == supervised(old(registry)@, candidates_text(candidates@), baud),
        actions_text(r@) == supervisor_actions(
            old(registry)@,
            candidates_text(candidates@),
            baud,
        ),
        counts_low(final(registry)@),
        distinct_ids(old(registry)@) ==> distinct_ids(final(registry)@),
{
    let ghost before = registry@;
    let ghost cands = candidates_text(candidates@);
    let mut out: Vec<SupervisorAction> = Vec::new();
    let mut i: usize = 0;
    assert(cands.take(0) =~= Seq::empty());
    assert(actions_text(out@) =~= Seq::empty());
    while i < candidates.len()
        invariant
            cands == candidates_text(candidates@),
            i <= candidates@.len(),
            registry@ == enrolled(before, cands.take(i as int), baud),
            actions_text(out@) == enroll_actions(before, cands.take(i as int), baud),
        decreases candidates@.len() - i,
    {
        let ghost so_far = cands.take(i + 1);
        assert(so_far.drop_last() =~= cands.take(i as int));
        assert(so_far.last() == candidates@[i as int]@);
        let ghost said = actions_text(out@);
        match enroll_candidate(registry, &candidates[i], baud) {
            Some(a) => {
                let ghost added = a@;
                out.push(a);
                assert(actions_text(out@) =~= said + seq![added]);
            },
            None => {
                assert(said + Seq::<ActionText>::empty() =~= said);
            },
        }
        i += 1;
    }
    assert(cands.take(i as int) =~= cands);
    proof {
        lemma_enrolled_counts(before, cands, baud);
        lemma_swept_counts(registry@, cands);
        if distinct_ids(before) {
            lemma_enrolled_distinct(before, cands, baud);
            lemma_swept_distinct(registry@, cands);
        }
    }
    let mut gone = sweep(registry, candidates);
    let ghost first = out@;
    let ghost second = gone@;
    out.append(&mut gone);
    assert(actions_text(out@) =~= actions_text(first) + actions_text(second));
    out
}

// ── Laws ──────────────────────────────────────────────────────────────────

proof fn lemma_enrolled_distinct(v: Seq<DeviceText>, cs: Seq<CandidateText>, baud: u32)
    requires
        distinct_ids(v),
    ensures
        distinct_ids(enrolled(v, cs, baud)),
    decreases cs.len(),
{
    if cs.len() > 0 {
        let w = enrolled(v, cs.drop_last(), baud);
        lemma_enrolled_distinct(v, cs.drop_last(), baud);
        lemma_place(w, cs.last().id);
        match lookup(w, cs.last().id) {
            None => lemma_with_device_distinct(w, new_device(cs.last(), baud)),
            Some(d) => {
                lemma_with_device_distinct(w, new_device(cs.last(), baud));
                lemma_with_device_distinct(w, DeviceText { missing_scans: 0, ..d });
            },
        }
    }
}

/// What stays was there before, under the same id.
proof fn lemma_swept_from(v: Seq<DeviceText>, cs: Seq<CandidateText>, i: int) -> (j: int)
    requires
        0 <= i < swept(v, cs).len(),
    ensures
        0 <= j < v.len(),
        !expired(v[j], cs),
        swept(v, cs)[i] == counted(v[j], cs),
        i <= j,
    decreases v.len(),
{
    let rest = v.drop_last();
    if expired(v.last(), cs) {
        let j = lemma_swept_from(rest, cs, i);
        assert(rest[j] == v[j]);
        j
    } else if i == swept(rest, cs).len() {
        lemma_swept_len(rest, cs);
        v.len() - 1
    } else {
        let j = lemma_swept_from(rest, cs, i);
        assert(rest[j] == v[j]);
        j
    }
}

proof fn lemma_swept_len(v: Seq<DeviceText>, cs: Seq<CandidateText>)
    ensures
        swept(v, cs).len() <= v.len(),
    decreases v.len(),
{
    if v.len() > 0 {
        lemma_swept_len(v.drop_last(), cs);
    }
}

/// What does not expire stays.
proof fn lemma_swept_keeps(v: Seq<DeviceText>, cs: Seq<CandidateText>, j: int) -> (i: int)
    requires
        0 <= j < v.len(),
        !expired(v[j], cs),
    ensures
        0 <= i < swept(v, cs).len(),
        swept(v, cs)[i] == counted(v[j], cs),
    decreases v.len(),
{
    let rest = v.drop_last();
    if j == v.len() - 1 {
        swept(rest, cs).len() as int
    } else {
        assert(rest[j] == v[j]);
        lemma_swept_keeps(rest, cs, j)
    }
}

proof fn lemma_swept_distinct(v: Seq<DeviceText>, cs: Seq<CandidateText>)
    requires
        distinct_ids(v),
    ensures
        distinct_ids(swept(v, cs)),
    decreases v.len(),
{
    if v.len() > 0 {
        let rest = v.drop_last();
        assert forall|i: int, j: int| 0 <= i < j < rest.len() implies (#[trigger] rest[i]).id != (
        #[trigger] rest[j]).id by {
            assert(rest[i] == v[i] && rest[j] == v[j]);
        }
        lemma_swept_distinct(rest, cs);
        if !expired(v.last(), cs) {
            let s = swept(rest, cs);
            assert forall|i: int| 0 <= i < s.len() implies (#[trigger] s[i]).id
                != v.last().id by {
                let j = lemma_swept_from(rest, cs, i);
                assert(rest[j] == v[j]);
                assert(v[j].id != v[v.len() - 1].id);
            }
        }
    }
}

/// A candidate under another id changes nothing for a device.
proof fn lemma_enroll_other(v: Seq<DeviceText>, c: CandidateText, baud: u32, id: Seq<char>)
    requires
        c.id != id,
    ensures
        lookup(enroll(v, c, baud), id) == lookup(v, id),
{
    lemma_place(v, id);
    lemma_place(v, c.id);
    let w = enroll(v, c, baud);
    let p = place(v, id);
    assert forall|j: int| 0 <= j < p implies (#[trigger] w[j]).id != id by {
        if j != place(v, c.id) {
            assert(w[j] == v[j]);
        }
    }
    if p < v.len() {
        assert(w[p] == v[p]);
        lemma_place_unique(w, id, p);
    } else {
        assert forall|j: int| 0 <= j < w.len() implies (#[trigger] w[j]).id != id by {
            if j < v.len() && j != place(v, c.id) {
                assert(w[j] == v[j]);
            }
        }
        lemma_place_unique(w, id, w.len() as int);
    }
}

proof fn lemma_enrolled_absent(
    v: Seq<DeviceText>,
    cs: Seq<CandidateText>,
    baud: u32,
    id: Seq<char>,
)
    requires
        !present(cs, id),
    ensures
        lookup(enrolled(v, cs, baud), id) == lookup(v, id),
    decreases cs.len(),
{
    if cs.len() > 0 {
        let rest = cs.drop_last();
        assert(!present(rest, id)) by {
            if present(rest, id) {
                let i = choose|i: int| 0 <= i < rest.len() && (#[trigger] rest[i]).id == id;
                assert(cs[i].id == id);
            }
        }
        lemma_enrolled_absent(v, rest, baud, id);
        assert(cs[cs.len() - 1].id != id);
        lemma_enroll_other(enrolled(v, rest, baud), cs.last(), baud, id);
    }
}

/// Where ids are distinct, a device that stands somewhere is found.
proof fn lemma_found(v: Seq<DeviceText>, i: int)
    requires
        distinct_ids(v),
        0 <= i < v.len(),
    ensures
        lookup(v, v[i].id) == Some(v[i]),
{
    assert forall|j: int| 0 <= j < i implies (#[trigger] v[j]).id != v[i].id by {}
    lemma_place_unique(v, v[i].id, i);
}

/// What the sweep makes of the device with that id.
proof fn lemma_swept_lookup(v: Seq<DeviceText>, cs: Seq<CandidateText>, id: Seq<char>)
    requires
        distinct_ids(v),
    ensures
        lookup(swept(v, cs), id) == match lookup(v, id) {
            Some(d) => if expired(d, cs) {
                None
            } else {
                Some(counted(d, cs))
            },
            None => None,
        },
{
    lemma_swept_distinct(v, cs);
    lemma_place(v, id);
    let s = swept(v, cs);
    lemma_place(s, id);
    if place(s, id) < s.len() {
        let j = lemma_swept_from(v, cs, place(s, id));
        lemma_found(v, j);
    }
    if place(v, id) < v.len() && !expired(v[place(v, id)], cs) {
        let i = lemma_swept_keeps(v, cs, place(v, id));
        lemma_found(s, i);
    }
}

/// A device that a scan misses stays, as it was, until it has been missed
/// [`DEBOUNCE`] times in a row; with that scan it is gone.
pub proof fn law_missed_device_is_debounced(
    v: Seq<DeviceText>,
    cs: Seq<CandidateText>,
    baud: u32,
    d: DeviceText,
)
    requires
        distinct_ids(v),
        lookup(v, d.id) == Some(d),
        !present(cs, d.id),
    ensures
        lookup(supervised(v, cs, baud), d.id) == if d.missing_scans + 1 >= DEBOUNCE {
            None::<DeviceText>
        } else {
            Some(DeviceText { missing_scans: (d.missing_scans + 1) as u32, ..d })
        },
{
    lemma_enrolled_distinct(v, cs, baud);
    lemma_enrolled_absent(v, cs, baud, d.id);
    lemma_swept_lookup(enrolled(v, cs, baud), cs, d.id);
}

/// A device that goes missing is still there after two scans, and is removed by
/// the third, whatever else these scans see.
pub proof fn law_third_missing_scan_removes(
    v: Seq<DeviceText>,
    first: Seq<CandidateText>,
    second: Seq<CandidateText>,
    third: Seq<CandidateText>,
    baud: u32,
    d: DeviceText,
)
    requires
        distinct_ids(v),
        lookup(v, d.id) == Some(d),
        d.missing_scans == 0,
        !present(first, d.id),
        !present(second, d.id),
        !present(third, d.id),
    ensures
        ({
            let once = supervised(v, first, baud);
            let twice = supervised(once, second, baud);
            let thrice = supervised(twice, third, baud);
            &&& lookup(once, d.id) == Some(DeviceText { missing_scans: 1, ..d })
            &&& lookup(twice, d.id) == Some(DeviceText { missing_scans: 2, ..d })
            &&& lookup(thrice, d.id) is None
        }),
{
    law_ids_stay_distinct(v, first, baud);
    law_missed_device_is_debounced(v, first, baud, d);
    let once = supervised(v, first, baud);
    let d1 = DeviceText { missing_scans: 1, ..d };
    law_ids_stay_distinct(once, second, baud);
    law_missed_device_is_debounced(once, second, baud, d1);
    let twice = supervised(once, second, baud);
    let d2 = DeviceText { missing_scans: 2, ..d };
    law_missed_device_is_debounced(twice, third, baud, d2);
}

/// The ids of the registry stay distinct.
pub proof fn law_ids_stay_distinct(v: Seq<DeviceText>, cs: Seq<CandidateText>, baud: u32)
    requires
        distinct_ids(v),
    ensures
        distinct_ids(supervised(v, cs, baud)),
{
    lemma_enrolled_distinct(v, cs, baud);
    lemma_swept_distinct(enrolled(v, cs, baud), cs);
}

proof fn lemma_enroll_same(v: Seq<DeviceText>, c: CandidateText, baud: u32, d: DeviceText)
    requires
        lookup(v, d.id) == Some(d),
        c.id == d.id ==> c.path == d.state.port_path,
    ensures
        lookup(enroll(v, c, baud), d.id) == Some(
            if c.id == d.id {
                DeviceText { missing_scans: 0, ..d }
            } else {
                d
            },
        ),
{
    if c.id == d.id {
        lemma_place(v, d.id);
        let w = enroll(v, c, baud);
        let p = place(v, d.id);
        assert forall|j: int| 0 <= j < p implies (#[trigger] w[j]).id != d.id by {
            assert(w[j] == v[j]);
        }
        lemma_place_unique(w, d.id, p);
    } else {
        lemma_enroll_other(v, c, baud, d.id);
    }
}

/// Up to the count of missed scans, a device that is only seen at its own port
/// stays what it is.
proof fn lemma_enrolled_same(v: Seq<DeviceText>, cs: Seq<CandidateText>, baud: u32, d: DeviceText)
    requires
        lookup(v, d.id) == Some(d),
        forall|i: int|
            0 <= i < cs.len() && (#[trigger] cs[i]).id == d.id ==> cs[i].path
                == d.state.port_path,
    ensures
        lookup(enrolled(v, cs, baud), d.id) is Some,
        (DeviceText { missing_scans: 0, ..lookup(enrolled(v, cs, baud), d.id)->0 }) == (DeviceText {
            missing_scans: 0,
            ..d
        }),
    decreases cs.len(),
{
    if cs.len() > 0 {
        let rest = cs.drop_last();
        assert forall|i: int| 0 <= i < rest.len() && (#[trigger] rest[i]).id == d.id implies rest[i].path
            == d.state.port_path by {
            assert(rest[i] == cs[i]);
        }
        lemma_enrolled_same(v, rest, baud, d);
        let w = enrolled(v, rest, baud);
        let d1 = lookup(w, d.id)->0;
        assert(d1.id == d.id);
        assert(d1.state == d.state);
        assert(cs[cs.len() - 1] == cs.last());
        lemma_enroll_same(w, cs.last(), baud, d1);
    }
}

/// A device that a scan sees at its own port, and nowhere else, keeps its state:
/// its task is left alone. Only its count of missed scans starts anew.
pub proof fn law_device_at_its_port_is_left_alone(
    v: Seq<DeviceText>,
    cs: Seq<CandidateText>,
    baud: u32,
    d: DeviceText,
)
    requires
        distinct_ids(v),
        lookup(v, d.id) == Some(d),
        present(cs, d.id),
        forall|i: int|
            0 <= i < cs.len() && (#[trigger] cs[i]).id == d.id ==> cs[i].path
                == d.state.port_path,
    ensures
        lookup(supervised(v, cs, baud), d.id) == Some(DeviceText { missing_scans: 0, ..d }),
{
    lemma_enrolled_distinct(v, cs, baud);
    lemma_enrolled_same(v, cs, baud, d);
    lemma_swept_lookup(enrolled(v, cs, baud), cs, d.id);
}

/// The last candidate under an id decides at which port its device is.
proof fn lemma_enrolled_path(v: Seq<DeviceText>, cs: Seq<CandidateText>, baud: u32, k: int)
    requires
        0 <= k < cs.len(),
        forall|i: int| k < i < cs.len() ==> (#[trigger] cs[i]).id != cs[k].id,
    ensures
        lookup(enrolled(v, cs, baud), cs[k].id) is Some,
        lookup(enrolled(v, cs, baud), cs[k].id)->0.state.port_path == cs[k].path,
    decreases cs.len(),
{
    let rest = cs.drop_last();
    let w = enrolled(v, rest, baud);
    let id = cs[k].id;
    if k == cs.len() - 1 {
        lemma_place(w, id);
        let u = enroll(w, cs.last(), baud);
        let p = place(w, id);
        assert forall|j: int| 0 <= j < p implies (#[trigger] u[j]).id != id by {
            assert(u[j] == w[j]);
        }
        lemma_place_unique(u, id, p);
    } else {
        assert(rest[k] == cs[k]);
        assert forall|i: int| k < i < rest.len() implies (#[trigger] rest[i]).id != rest[k].id by {
            assert(rest[i] == cs[i]);
        }
        lemma_enrolled_path(v, rest, baud, k);
        assert(cs[cs.len() - 1].id != id);
        lemma_enroll_other(w, cs.last(), baud, id);
    }
}

/// After a scan every candidate's device is registered, at the candidate's port
/// (where several claim one id, at that of the last).
pub proof fn law_candidates_are_registered(
    v: Seq<DeviceText>,
    cs: Seq<CandidateText>,
    baud: u32,
    k: int,
)
    requires
        distinct_ids(v),
        0 <= k < cs.len(),
        forall|i: int| k < i < cs.len() ==> (#[trigger] cs[i]).id != cs[k].id,
    ensures
        lookup(supervised(v, cs, baud), cs[k].id) is Some,
        lookup(supervised(v, cs, baud), cs[k].id)->0.state.port_path == cs[k].path,
{
    lemma_enrolled_distinct(v, cs, baud);
    lemma_enrolled_path(v, cs, baud, k);
    let w = enrolled(v, cs, baud);
    lemma_place(w, cs[k].id);
    lemma_swept_lookup(w, cs, cs[k].id);
}

/// No two candidates claim the same id.
pub open spec fn distinct_candidates(cs: Seq<CandidateText>) -> bool {
    forall|i: int, j: int| 0 <= i < j < cs.len() ==> (#[trigger] cs[i]).id != (#[trigger] cs[j]).id
}

proof fn lemma_candidates_so_far(cs: Seq<CandidateText>)
    requires
        distinct_candidates(cs),
        cs.len() > 0,
    ensures
        distinct_candidates(cs.drop_last()),
        !present(cs.drop_last(), cs.last().id),
{
    let rest = cs.drop_last();
    assert forall|i: int, j: int| 0 <= i < j < rest.len() implies (#[trigger] rest[i]).id != (
    #[trigger] rest[j]).id by {
        assert(rest[i] == cs[i] && rest[j] == cs[j]);
    }
    if present(rest, cs.last().id) {
        let i = choose|i: int| 0 <= i < rest.len() && (#[trigger] rest[i]).id == cs.last().id;
        assert(rest[i] == cs[i]);
        assert(cs[i].id != cs[cs.len() - 1].id);
    }
}

/// The actions about the candidates, each judged by the registry before the scan.
proof fn lemma_enroll_actions(v: Seq<DeviceText>, cs: Seq<CandidateText>, baud: u32)
    requires
        distinct_candidates(cs),
    ensures
        forall|a: ActionText| #[trigger]
            enroll_actions(v, cs, baud).contains(a) <==> exists|k: int|
                0 <= k < cs.len() && enroll_action(v, #[trigger] cs[k]).contains(a),
        enroll_actions(v, cs, baud).no_duplicates(),
    decreases cs.len(),
{
    let acts = enroll_actions(v, cs, baud);
    if cs.len() > 0 {
        let rest = cs.drop_last();
        let c = cs.last();
        let n = cs.len() - 1;
        lemma_candidates_so_far(cs);
        lemma_enroll_actions(v, rest, baud);
        lemma_enrolled_absent(v, rest, baud, c.id);
        let before = enroll_actions(v, rest, baud);
        let own = enroll_action(v, c);
        assert(acts == before + own);
        assert(own.len() <= 1);
        assert forall|a: ActionText| #[trigger] acts.contains(a) <==> exists|k: int|
            0 <= k < cs.len() && enroll_action(v, #[trigger] cs[k]).contains(a) by {
            if acts.contains(a) {
                let i = choose|i: int| 0 <= i < acts.len() && acts[i] == a;
                if i < before.len() {
                    assert(before[i] == a);
                    assert(before.contains(a));
                    let k = choose|k: int|
                        0 <= k < rest.len() && enroll_action(v, #[trigger] rest[k]).contains(a);
                    assert(rest[k] == cs[k]);
                } else {
                    assert(own[i - before.len()] == a);
                    assert(enroll_action(v, cs[n]).contains(a));
                }
            }
            if exists|k: int|
                0 <= k < cs.len() && enroll_action(v, #[trigger] cs[k]).contains(a) {
                let k = choose|k: int|
                    0 <= k < cs.len() && enroll_action(v, #[trigger] cs[k]).contains(a);
                if k < n {
                    assert(rest[k] == cs[k]);
                    assert(before.contains(a));
                    let i = choose|i: int| 0 <= i < before.len() && before[i] == a;
                    assert(acts[i] == a);
                } else {
                    let i = choose|i: int| 0 <= i < own.len() && own[i] == a;
                    assert(acts[before.len() + i] == a);
                }
            }
        }
        assert forall|i: int, j: int| 0 <= i < j < acts.len() implies acts[i] != acts[j] by {
            assert(acts[i] == before[i]);
            if j < before.len() {
                assert(acts[j] == before[j]);
            } else if acts[i] == acts[j] {
                assert(acts[j] == own[0]);
                assert(before.contains(before[i]));
                let k = choose|k: int|
                    0 <= k < rest.len() && enroll_action(v, #[trigger] rest[k]).contains(before[i]);
                assert(rest[k] == cs[k]);
                assert(cs[k].id != cs[n].id);
            }
        }
    }
}

/// What the sweep stops: the devices that have been absent long enough, and no others.
proof fn lemma_sweep_actions(v: Seq<DeviceText>, cs: Seq<CandidateText>)
    requires
        distinct_ids(v),
    ensures
        forall|a: ActionText| #[trigger]
            sweep_actions(v, cs).contains(a) <==> exists|j: int|
                0 <= j < v.len() && expired(#[trigger] v[j], cs) && a == (ActionText::Stop {
                    id: v[j].id,
                }),
        sweep_actions(v, cs).no_duplicates(),
    decreases v.len(),
{
    let acts = sweep_actions(v, cs);
    if v.len() > 0 {
        let rest = v.drop_last();
        let n = v.len() - 1;
        assert forall|i: int, j: int| 0 <= i < j < rest.len() implies (#[trigger] rest[i]).id != (
        #[trigger] rest[j]).id by {
            assert(rest[i] == v[i] && rest[j] == v[j]);
        }
        lemma_sweep_actions(rest, cs);
        let before = sweep_actions(rest, cs);
        assert forall|a: ActionText| #[trigger] acts.contains(a) <==> exists|j: int|
            0 <= j < v.len() && expired(#[trigger] v[j], cs) && a == (ActionText::Stop {
                id: v[j].id,
            }) by {
            if acts.contains(a) {
                let i = choose|i: int| 0 <= i < acts.len() && acts[i] == a;
                if i < before.len() {
                    assert(before[i] == a);
                    assert(before.contains(a));
                    let j = choose|j: int|
                        0 <= j < rest.len() && expired(#[trigger] rest[j], cs) && a == (
                        ActionText::Stop { id: rest[j].id });
                    assert(rest[j] == v[j]);
                } else {
                    assert(expired(v[n], cs));
                }
            }
            if exists|j: int|
                0 <= j < v.len() && expired(#[trigger] v[j], cs) && a == (ActionText::Stop {
                    id: v[j].id,
                }) {
                let j = choose|j: int|
                    0 <= j < v.len() && expired(#[trigger] v[j], cs) && a == (ActionText::Stop {
                        id: v[j].id,
                    });
                if j < n {
                    assert(rest[j] == v[j]);
                    assert(before.contains(a));
                    let i = choose|i: int| 0 <= i < before.len() && before[i] == a;
                    assert(acts[i] == a);
                } else {
                    assert(acts[acts.len() - 1] == a);
                }
            }
        }
        assert forall|i: int, j: int| 0 <= i < j < acts.len() implies acts[i] != acts[j] by {
            assert(acts[i] == before[i]);
            assert(before.contains(before[i]));
            let k = choose|k: int|
                0 <= k < rest.len() && expired(#[trigger] rest[k], cs) && before[i] == (
                ActionText::Stop { id: rest[k].id });
            assert(rest[k] == v[k]);
            if j < before.len() {
                assert(acts[j] == before[j]);
            } else {
                assert(v[k].id != v[n].id);
            }
        }
    }
}

/// What is done after a scan follows from the registry before and after it. A board that
/// was not registered is started at its port, whatever else is attached; one that was
/// registered at another port is followed to its new one; one that the scan takes out is
/// stopped. Nothing else is done, and nothing twice.
pub proof fn law_actions_of_a_scan(v: Seq<DeviceText>, cs: Seq<CandidateText>, baud: u32)
    requires
        distinct_ids(v),
        distinct_candidates(cs),
    ensures
        ({
            let actions = supervisor_actions(v, cs, baud);
            let after = supervised(v, cs, baud);
            &&& forall|k: int|
                0 <= k < cs.len() && lookup(v, (#[trigger] cs[k]).id) is None ==> actions.contains(
                    ActionText::Start { id: cs[k].id, path: cs[k].path },
                )
            &&& forall|k: int|
                0 <= k < cs.len() && lookup(v, (#[trigger] cs[k]).id) is Some && lookup(
                    v,
                    cs[k].id,
                )->0.state.port_path != cs[k].path ==> actions.contains(
                    ActionText::Follow { id: cs[k].id, path: cs[k].path },
                )
            &&& forall|id: Seq<char>|
                lookup(v, id) is Some && #[trigger] lookup(after, id) is None ==> actions.contains(
                    ActionText::Stop { id },
                )
            &&& forall|a: ActionText| #[trigger]
                actions.contains(a) ==> match a {
                    ActionText::Start { id, path } => lookup(v, id) is None && exists|k: int|
                        0 <= k < cs.len() && (#[trigger] cs[k]).id == id && cs[k].path == path,
                    ActionText::Follow { id, path } => lookup(v, id) is Some && lookup(
                        v,
                        id,
                    )->0.state.port_path != path && exists|k: int|
                        0 <= k < cs.len() && (#[trigger] cs[k]).id == id && cs[k].path == path,
                    ActionText::Stop { id } => lookup(v, id) is Some && lookup(after, id) is None,
                }
            &&& actions.no_duplicates()
        }),
{
    let w = enrolled(v, cs, baud);
    let after = supervised(v, cs, baud);
    let first = enroll_actions(v, cs, baud);
    let second = sweep_actions(w, cs);
    let actions = supervisor_actions(v, cs, baud);
    lemma_enroll_actions(v, cs, baud);
    lemma_enrolled_distinct(v, cs, baud);
    lemma_sweep_actions(w, cs);
    assert forall|a: ActionText| first.contains(a) || second.contains(a) implies #[trigger] actions.contains(
        a,
    ) by {
        if first.contains(a) {
            let i = choose|i: int| 0 <= i < first.len() && first[i] == a;
            assert(actions[i] == a);
        } else {
            let i = choose|i: int| 0 <= i < second.len() && second[i] == a;
            assert(actions[first.len() + i] == a);
        }
    }
    assert forall|k: int| 0 <= k < cs.len() && lookup(v, (#[trigger] cs[k]).id) is None implies actions.contains(
        ActionText::Start { id: cs[k].id, path: cs[k].path },
    ) by {
        let a = ActionText::Start { id: cs[k].id, path: cs[k].path };
        assert(enroll_action(v, cs[k])[0] == a);
        assert(enroll_action(v, cs[k]).contains(a));
        assert(first.contains(a));
    }
    assert forall|k: int|
        0 <= k < cs.len() && lookup(v, (#[trigger] cs[k]).id) is Some && lookup(
            v,
            cs[k].id,
        )->0.state.port_path != cs[k].path implies actions.contains(
        ActionText::Follow { id: cs[k].id, path: cs[k].path },
    ) by {
        let a = ActionText::Follow { id: cs[k].id, path: cs[k].path };
        assert(enroll_action(v, cs[k])[0] == a);
        assert(enroll_action(v, cs[k]).contains(a));
        assert(first.contains(a));
    }
    assert forall|id: Seq<char>| lookup(v, id) is Some && #[trigger] lookup(after, id) is None implies actions.contains(
        ActionText::Stop { id },
    ) by {
        lemma_swept_lookup(w, cs, id);
        if present(cs, id) {
            let i = choose|i: int| 0 <= i < cs.len() && (#[trigger] cs[i]).id == id;
            lemma_enrolled_path(v, cs, baud, i);
            lemma_place(w, id);
        } else {
            lemma_enrolled_absent(v, cs, baud, id);
            lemma_place(w, id);
            assert(expired(w[place(w, id)], cs));
            assert(second.contains(ActionText::Stop { id }));
        }
    }
    assert forall|a: ActionText| #[trigger] actions.contains(a) implies match a {
        ActionText::Start { id, path } => lookup(v, id) is None && exists|k: int|
            0 <= k < cs.len() && (#[trigger] cs[k]).id == id && cs[k].path == path,
        ActionText::Follow { id, path } => lookup(v, id) is Some && lookup(
            v,
            id,
        )->0.state.port_path != path && exists|k: int|
            0 <= k < cs.len() && (#[trigger] cs[k]).id == id && cs[k].path == path,
        ActionText::Stop { id } => lookup(v, id) is Some && lookup(after, id) is None,
    } by {
        let i = choose|i: int| 0 <= i < actions.len() && actions[i] == a;
        if i < first.len() {
            assert(first[i] == a);
            assert(first.contains(a));
            let k = choose|k: int|
                0 <= k < cs.len() && enroll_action(v, #[trigger] cs[k]).contains(a);
            assert(cs[k].id == cs[k].id);
        } else {
            assert(second[i - first.len()] == a);
            assert(second.contains(a));
            let j = choose|j: int|
                0 <= j < w.len() && expired(#[trigger] w[j], cs) && a == (ActionText::Stop {
                    id: w[j].id,
                });
            lemma_found(w, j);
            lemma_enrolled_absent(v, cs, baud, w[j].id);
            lemma_swept_lookup(w, cs, w[j].id);
        }
    }
    assert forall|i: int, j: int| 0 <= i < j < actions.len() implies actions[i] != actions[j] by {
        if j < first.len() {
            assert(actions[i] == first[i] && actions[j] == first[j]);
        } else if i >= first.len() {
            assert(actions[i] == second[i - first.len()] && actions[j] == second[j - first.len()]);
        } else {
            assert(actions[i] == first[i] && actions[j] == second[j - first.len()]);
            assert(first.contains(first[i]));
            assert(second.contains(second[j - first.len()]));
            let k = choose|k: int|
                0 <= k < cs.len() && enroll_action(v, #[trigger] cs[k]).contains(first[i]);
            assert(!(first[i] is Stop));
        }
    }
}

/// Where candidates are distinct, each is enrolled as if it were alone.
proof fn lemma_enrolled_device(
    v: Seq<DeviceText>,
    cs: Seq<CandidateText>,
    baud: u32,
    k: int,
)
    requires
        distinct_candidates(cs),
        0 <= k < cs.len(),
        lookup(v, cs[k].id) matches Some(d) ==> d.state.port_path != cs[k].path,
    ensures
        lookup(enrolled(v, cs, baud), cs[k].id) == Some(new_device(cs[k], baud)),
    decreases cs.len(),
{
    let rest = cs.drop_last();
    let w = enrolled(v, rest, baud);
    let id = cs[k].id;
    lemma_candidates_so_far(cs);
    if k == cs.len() - 1 {
        lemma_enrolled_absent(v, rest, baud, id);
        lemma_place(w, id);
        let u = enroll(w, cs.last(), baud);
        let p = place(w, id);
        assert forall|j: int| 0 <= j < p implies (#[trigger] u[j]).id != id by {
            assert(u[j] == w[j]);
        }
        lemma_place_unique(u, id, p);
    } else {
        assert(rest[k] == cs[k]);
        lemma_enrolled_device(v, rest, baud, k);
        assert(cs[k].id != cs[cs.len() - 1].id);
        lemma_enroll_other(w, cs.last(), baud, id);
    }
}

/// A board that was not registered, or was at another port, is registered afresh: under
/// the candidate's id and port, at the given baud rate, not connected, not collecting,
/// not verified, without a session, streaming, and with nothing known of its
/// configuration.
pub proof fn law_new_and_moved_boards_start_afresh(
    v: Seq<DeviceText>,
    cs: Seq<CandidateText>,
    baud: u32,
    k: int,
)
    requires
        distinct_ids(v),
        distinct_candidates(cs),
        0 <= k < cs.len(),
        lookup(v, cs[k].id) matches Some(d) ==> d.state.port_path != cs[k].path,
    ensures
        lookup(supervised(v, cs, baud), cs[k].id) matches Some(d) && {
            &&& d.id == cs[k].id
            &&& d.mac == cs[k].mac
            &&& d.native_usb == cs[k].native_usb
            &&& d.missing_scans == 0
            &&& d.state.port_path == cs[k].path
            &&& d.state.baud_rate == baud
            &&& !d.state.serial_connected
            &&& !d.state.collection_running
            &&& !d.state.firmware_verified
            &&& d.state.device_info is None
            &&& d.state.session_file is None
            &&& d.state.output_mode == OutputMode::Stream
            &&& d.state.log_mode == LogMode::ArrayList
            &&& d.state.config == unset_config()
        },
{
    lemma_enrolled_distinct(v, cs, baud);
    lemma_enrolled_device(v, cs, baud, k);
    lemma_swept_lookup(enrolled(v, cs, baud), cs, cs[k].id);
    assert(present(cs, cs[k].id));
}

/// What no scan saw is not registered.
pub proof fn law_nothing_is_registered_unseen(
    v: Seq<DeviceText>,
    cs: Seq<CandidateText>,
    baud: u32,
    id: Seq<char>,
)
    requires
        distinct_ids(v),
        lookup(v, id) is None,
        forall|k: int| 0 <= k < cs.len() ==> (#[trigger] cs[k]).id != id,
    ensures
        lookup(supervised(v, cs, baud), id) is None,
{
    lemma_enrolled_distinct(v, cs, baud);
    lemma_enrolled_absent(v, cs, baud, id);
    lemma_swept_lookup(enrolled(v, cs, baud), cs, id);
}

/// Actions show whom they are about and where, one by one, in order.
pub proof fn law_actions_show_their_fields(a: SupervisorAction, v: Seq<SupervisorAction>)
    ensures
        a matches SupervisorAction::Start { id, path } ==> a@ == (ActionText::Start {
            id: id@,
            path: path@,
        }),
        a matches SupervisorAction::Follow { id, path } ==> a@ == (ActionText::Follow {
            id: id@,
            path: path@,
        }),
        a matches SupervisorAction::Stop { id } ==> a@ == (ActionText::Stop { id: id@ }),
        actions_text(v).len() == v.len(),
        forall|i: int| 0 <= i < v.len() ==> #[trigger] actions_text(v)[i] == v[i]@,
{
}

} // verus!
