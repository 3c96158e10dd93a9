//! An open link as one state machine: what happens on it, and what is done.

use vstd::prelude::*;

use crate::models::{DeviceInfo, InfoText, OutputMode};
use crate::parquet_sink::{ParquetSink, SinkText};
use crate::serial::connection::{
    after_chunk, after_outputs, chunk_forward, dumps, ended_sink, exit_after, frame_of, info_reply,
    nothing, opt_sink, outputs_step, records, reverified_state, started_state, stop_line, streams,
    with_verdict, Connection, ConnectionExit, ConnectionText, Forward, ForwardText, SinkStep,
    SinkStepText,
};
use crate::serial::info::{exchange_view, info_line, info_view, InfoExchangeError};
use crate::state::{AppState, StateText};

verus! {

/// What happens on a link.
#[derive(Debug)]
pub enum LinkEvent {
    /// The output mode or the session file may have changed. The caller looks, and
    /// hands this in, before each [`LinkEvent::Chunk`]: a change governs the very next
    /// frame.
    Outputs { mode_changed: bool, session_changed: bool },
    /// One second is over.
    Tick,
    /// The device is to be torn down.
    Shutdown,
    /// It is time to look whether the firmware is verified.
    ProbeDue,
    /// The firmware was asked again who it is.
    Probed(Result<DeviceInfo, InfoExchangeError>),
    /// A chunk up to and including a zero was read.
    Chunk(Vec<u8>),
    /// The port was closed, or could not be read or written.
    Lost,
    /// A command for the device.
    Command(String),
    /// No more commands will come.
    CommandsClosed,
    /// Someone asks for the device's identification.
    InfoRequested,
    /// The identification exchange for whoever asked is over.
    InfoExchanged(Result<DeviceInfo, InfoExchangeError>),
    /// The session file was created, as a [`SinkStep::Open`] asked.
    SinkOpened { path: String, chip: String },
    /// The due batch of a [`Forward`] was written to the session file.
    BatchWritten,
    /// The frame of a [`Forward`] was handed to the clients, or nobody was there to
    /// take it.
    Broadcast(bool),
}

/// What is done on a link.
#[derive(Debug)]
pub enum LinkStep {
    /// Wait for the next event.
    Wait,
    /// Report the frames of the last second: taken off the port, handed to clients.
    Report(u64, u64),
    /// Drop the partial frame and run an identification exchange for
    /// [`LinkEvent::Probed`].
    Probe,
    /// Send out what a chunk came to.
    Forward(Forward),
    /// Write this line to the port.
    Write(String),
    /// Refuse the identification to whoever asked.
    Refuse(String),
    /// Drop the partial frame and run an identification exchange for
    /// [`LinkEvent::InfoExchanged`].
    Exchange,
    /// Answer whoever asked for the identification; the link may be lost.
    Answer(Result<DeviceInfo, String>, Option<ConnectionExit>),
    /// Finish the sink of a session that ended, and look after the session file.
    Session(Option<ParquetSink>, SinkStep),
    /// The link is over.
    Exit(ConnectionExit),
}

/// What a [`LinkStep`] says.
#[verifier::ext_equal]
pub enum LinkStepText {
    Wait,
    Report(u64, u64),
    Probe,
    Forward(ForwardText),
    Write(Seq<char>),
    Refuse(Seq<char>),
    Exchange,
    Answer(Result<InfoText, Seq<char>>, Option<ConnectionExit>),
    Session(Option<SinkText>, SinkStepText),
    Exit(ConnectionExit),
}

impl View for LinkStep {
    type V = LinkStepText;

    open spec fn view(&self) -> LinkStepText {
        match *self {
            LinkStep::Wait => LinkStepText::Wait,
            LinkStep::Report(a, b) => LinkStepText::Report(a, b),
            LinkStep::Probe => LinkStepText::Probe,
            LinkStep::Forward(f) => LinkStepText::Forward(f@),
            LinkStep::Write(l) => LinkStepText::Write(l@),
            LinkStep::Refuse(m) => LinkStepText::Refuse(m@),
            LinkStep::Exchange => LinkStepText::Exchange,
            LinkStep::Answer(a, exit) => LinkStepText::Answer(info_view(a), exit),
            LinkStep::Session(ended, step) => LinkStepText::Session(opt_sink(ended), step@),
            LinkStep::Exit(e) => LinkStepText::Exit(e),
        }
    }
}

/// Whether the firmware is to be asked again who it is.
pub open spec fn probe_due(s: StateText) -> bool {
    !s.firmware_verified && !s.collection_running
}

/// The link after an event.
pub open spec fn link_after(c: ConnectionText, s: StateText, event: LinkEvent, t: i64) -> ConnectionText {
    match event {
        LinkEvent::Outputs { mode_changed, session_changed } => after_outputs(
            c,
            s,
            mode_changed,
            session_changed,
        ),
        LinkEvent::Tick => ConnectionText { frames_in: 0, frames_broadcast: 0, ..c },
        LinkEvent::ProbeDue => if probe_due(s) {
            ConnectionText { drop_next_chunk: true, ..c }
        } else {
            c
        },
        LinkEvent::Probed(v) => with_verdict(c, exchange_view(v)),
        LinkEvent::Chunk(b) => after_chunk(c, s.collection_running, b@, t),
        LinkEvent::Command(_) => ConnectionText { drop_next_chunk: true, ..c },
        LinkEvent::InfoRequested => ConnectionText {
            drop_next_chunk: c.drop_next_chunk || !s.collection_running,
            ..c
        },
        LinkEvent::InfoExchanged(v) => with_verdict(c, exchange_view(v)),
        LinkEvent::SinkOpened { path, chip } => ConnectionText {
            sink: Some(SinkText { open: true, chip: chip@, path: path@, rows: Seq::empty() }),
            ..c
        },
        LinkEvent::BatchWritten => ConnectionText {
            sink: match c.sink {
                Some(s) => Some(SinkText { rows: Seq::empty(), ..s }),
                None => None,
            },
            ..c
        },
        LinkEvent::Broadcast(taken) => ConnectionText {
            frames_broadcast: if taken {
                (c.frames_broadcast + 1) as u64
            } else {
                c.frames_broadcast
            },
            ..c
        },
        LinkEvent::Shutdown => c,
        LinkEvent::Lost => c,
        LinkEvent::CommandsClosed => c,
    }
}

/// Whether an event can happen on a link: a session file is only created where one
/// was asked for.
pub open spec fn fits(c: ConnectionText, event: LinkEvent) -> bool {
    event matches LinkEvent::SinkOpened { path, .. } ==> dumps(c.mode) && c.session == Some(path@)
}

/// The device's state after an event on its link.
pub open spec fn state_after(s: StateText, event: LinkEvent) -> StateText {
    match event {
        LinkEvent::Probed(v) => reverified_state(s, exchange_view(v)),
        LinkEvent::InfoExchanged(v) => started_state(s, exchange_view(v)),
        _ => s,
    }
}

/// What is done about an event.
pub open spec fn link_step(c: ConnectionText, s: StateText, event: LinkEvent, t: i64) -> LinkStepText {
    match event {
        LinkEvent::Outputs { mode_changed, session_changed } => LinkStepText::Session(
            ended_sink(c, s, session_changed),
            outputs_step(c, s, mode_changed, session_changed),
        ),
        LinkEvent::Tick => if s.collection_running {
            LinkStepText::Report(c.frames_in, c.frames_broadcast)
        } else {
            LinkStepText::Wait
        },
        LinkEvent::Shutdown => LinkStepText::Exit(ConnectionExit::Shutdown),
        LinkEvent::ProbeDue => if probe_due(s) {
            LinkStepText::Probe
        } else {
            LinkStepText::Wait
        },
        LinkEvent::Probed(v) => match exit_after(exchange_view(v)) {
            Some(e) => LinkStepText::Exit(e),
            None => LinkStepText::Wait,
        },
        LinkEvent::Chunk(b) => LinkStepText::Forward(chunk_forward(c, s.collection_running, b@, t)),
        LinkEvent::Lost => LinkStepText::Exit(ConnectionExit::Disconnected),
        LinkEvent::Command(cmd) => LinkStepText::Write(cmd@ + "\r\n"@),
        LinkEvent::CommandsClosed => LinkStepText::Exit(ConnectionExit::CommandChannelClosed),
        LinkEvent::InfoRequested => if s.collection_running {
            LinkStepText::Refuse("collection is running; CLI is locked until stop"@)
        } else {
            LinkStepText::Exchange
        },
        LinkEvent::InfoExchanged(v) => LinkStepText::Answer(
            info_reply(exchange_view(v)),
            exit_after(exchange_view(v)),
        ),
        LinkEvent::SinkOpened { .. } => LinkStepText::Wait,
        LinkEvent::BatchWritten => LinkStepText::Wait,
        LinkEvent::Broadcast(_) => LinkStepText::Wait,
    }
}

/// One step of serving an open link.
///
/// The caller waits for what happens on the link, hands it in, and does what comes
/// back. The link starts with [`Connection::start`]. A frame is stamped with the time
/// at which it is handed in.
pub fn run_serial_connection(c: &mut Connection, state: &mut AppState, event: LinkEvent) -> (r:
    LinkStep)
    requires
        event is Chunk ==> old(c).frames_in < u64::MAX && old(c).decode_errors < u64::MAX,
        event is Broadcast ==> old(c).frames_broadcast < u64::MAX,
    ensures
        exists|t: i64|
            final(c)@ == #[trigger] link_after(old(c)@, old(state)@, event, t) && r@ == link_step(
                old(c)@,
                old(state)@,
                event,
                t,
            ),
        final(state)@ == state_after(old(state)@, event),
        old(c)@.sound() && fits(old(c)@, event) ==> final(c)@.sound(),
        old(state)@.coherent() && old(state)@.serial_connected && (event is InfoExchanged ==> !old(
            state,
        )@.collection_running) ==> final(state)@.coherent(),
{
    let ghost before = c@;
    let ghost known = state@;
    let ghost what = event;
    let ghost mut t: i64 = 0;
    let r = match event {
        LinkEvent::Outputs { mode_changed, session_changed } => {
            let (ended, step) = c.outputs_changed(state, mode_changed, session_changed);
            LinkStep::Session(ended, step)
        },
        LinkEvent::Tick => match c.metrics_tick(state.collection_running) {
            Some((frames_in, frames_broadcast)) => LinkStep::Report(frames_in, frames_broadcast),
            None => LinkStep::Wait,
        },
        LinkEvent::Shutdown => LinkStep::Exit(ConnectionExit::Shutdown),
        LinkEvent::ProbeDue => {
            if Connection::reverify_due(state) {
                c.probe();
                LinkStep::Probe
            } else {
                LinkStep::Wait
            }
        },
        LinkEvent::Probed(verdict) => match c.reverified(state, verdict) {
            Some(e) => LinkStep::Exit(e),
            None => LinkStep::Wait,
        },
        LinkEvent::Chunk(chunk) => {
            let ghost bytes = chunk@;
            let running = state.collection_running;
            let out = c.chunk(running, chunk);
            proof {
                t = choose|t: i64|
                    c@ == #[trigger] after_chunk(before, running, bytes, t) && out@
                        == chunk_forward(before, running, bytes, t);
            }
            LinkStep::Forward(out)
        },
        LinkEvent::Lost => LinkStep::Exit(ConnectionExit::Disconnected),
        LinkEvent::Command(cmd) => LinkStep::Write(c.command(cmd.as_str())),
        LinkEvent::CommandsClosed => LinkStep::Exit(ConnectionExit::CommandChannelClosed),
        LinkEvent::InfoRequested => match c.info_requested(state) {
            Some(m) => LinkStep::Refuse(m),
            None => LinkStep::Exchange,
        },
        LinkEvent::InfoExchanged(verdict) => {
            let (reply, exit) = c.info_answered(state, verdict);
            LinkStep::Answer(reply, exit)
        },
        LinkEvent::SinkOpened { path, chip } => {
            c.sink_opened(path.as_str(), chip.as_str());
            LinkStep::Wait
        },
        LinkEvent::BatchWritten => {
            c.batch_written();
            LinkStep::Wait
        },
        LinkEvent::Broadcast(taken) => {
            c.broadcast_done(taken);
            LinkStep::Wait
        },
    };
    assert(c@ == link_after(before, known, what, t));
    assert(r@ == link_step(before, known, what, t));
    r
}

// ── Laws ──────────────────────────────────────────────────────────────────

/// A link after a run of events, each at its time, and each with the device's state
/// as the server knew it then.
pub open spec fn link_after_all(
    c: ConnectionText,
    run: Seq<(LinkEvent, StateText, i64)>,
) -> ConnectionText
    decreases run.len(),
{
    if run.len() == 0 {
        c
    } else {
        let (event, s, t) = run.last();
        link_after(link_after_all(c, run.drop_last()), s, event, t)
    }
}

/// Whether every event of a run can happen when it does.
pub open spec fn all_fit(c: ConnectionText, run: Seq<(LinkEvent, StateText, i64)>) -> bool
    decreases run.len(),
{
    run.len() > 0 ==> {
        &&& all_fit(c, run.drop_last())
        &&& fits(link_after_all(c, run.drop_last()), run.last().0)
    }
}

/// Whatever happens on a link, and whatever becomes of the device's state meanwhile, a
/// session file is only open while frames are dumped, and is that of the session that
/// is on.
pub proof fn law_links_stay_sound(c: ConnectionText, run: Seq<(LinkEvent, StateText, i64)>)
    requires
        c.sound(),
        all_fit(c, run),
    ensures
        link_after_all(c, run).sound(),
    decreases run.len(),
{
    if run.len() > 0 {
        law_links_stay_sound(c, run.drop_last());
    }
}

/// A session file that a link asks for is one that it can take: creating it right
/// away fits, and leaves it open at the path and for the chip that were asked for, with
/// the very next frame going into it.
pub proof fn law_asked_files_fit(
    c: ConnectionText,
    s: StateText,
    event: LinkEvent,
    t: i64,
    opened: LinkEvent,
    path: String,
    chip: String,
)
    requires
        link_step(c, s, event, t) matches LinkStepText::Session(_, step) && step
            == (SinkStepText::Open { path: path@, chip: chip@ }),
        opened == (LinkEvent::SinkOpened { path, chip }),
    ensures
        fits(link_after(c, s, event, t), opened),
        ({
            let after = link_after(link_after(c, s, event, t), s, opened, t);
            &&& records(after)
            &&& after.session == Some(path@)
            &&& after.sink == Some(
                SinkText { open: true, chip: chip@, path: path@, rows: Seq::empty() },
            )
        }),
{
}

/// Whatever happens on a link, a frame goes to clients only while a collection runs
/// and the mode streams, and to the session file only while it runs and the mode
/// dumps.
pub proof fn law_frames_need_a_collection(
    c: ConnectionText,
    s: StateText,
    event: LinkEvent,
    t: i64,
)
    requires
        c.sound(),
    ensures
        link_step(c, s, event, t) matches LinkStepText::Forward(f) ==> {
            &&& f.stream is Some ==> s.collection_running && c.mode != OutputMode::Dump
            &&& f.write is Some ==> s.collection_running && dumps(c.mode) && c.session is Some
            &&& !s.collection_running ==> f == nothing()
        },
{
}

/// A switch of the output mode governs the very next frame: once the change is taken
/// over, a frame goes to clients exactly where the new mode streams, and is decoded for
/// the session file only where it dumps.
pub proof fn law_mode_switch_governs_the_next_frame(
    c: ConnectionText,
    s: StateText,
    switched: LinkEvent,
    session_changed: bool,
    later: StateText,
    event: LinkEvent,
    chunk: Vec<u8>,
    t: i64,
)
    requires
        switched == (LinkEvent::Outputs { mode_changed: true, session_changed }),
        event == LinkEvent::Chunk(chunk),
        later.collection_running,
        !c.drop_next_chunk,
        frame_of(chunk@).len() > 0,
    ensures
        ({
            let after = link_after(c, s, switched, t);
            let forward = chunk_forward(after, true, chunk@, t);
            &&& after.mode == s.output_mode
            &&& link_step(after, later, event, t) == LinkStepText::Forward(forward)
            &&& forward.stream == if streams(s.output_mode) {
                Some(frame_of(chunk@))
            } else {
                None
            }
            &&& !dumps(s.output_mode) ==> {
                &&& forward.write is None
                &&& forward.fault is None
                &&& link_after(after, later, event, t).sink is None
            }
            &&& dumps(s.output_mode) && after.sink is Some && after.chip is Some ==> records(after)
        }),
{
}

/// A link that is lost, shut down or without commands is over, as is one whose
/// identification exchange failed hard. It keeps its open session file to the last,
/// to be handed over by [`Connection::end`].
pub proof fn law_ended_links_hand_over_their_file(
    c: ConnectionText,
    s: StateText,
    event: LinkEvent,
    t: i64,
)
    ensures
        event is Lost || event is Shutdown || event is CommandsClosed ==> link_step(
            c,
            s,
            event,
            t,
        ) is Exit,
        (link_step(c, s, event, t) is Exit || link_step(c, s, event, t) matches LinkStepText::Answer(
            _,
            Some(_),
        )) ==> link_after(c, s, event, t).sink == c.sink,
{
}

/// Nothing is written to the port but commands that were handed in, each as one line;
/// the chunk that follows is discarded.
pub proof fn law_only_commands_are_written(
    c: ConnectionText,
    s: StateText,
    event: LinkEvent,
    t: i64,
)
    ensures
        link_step(c, s, event, t) is Write <==> event is Command,
        event matches LinkEvent::Command(cmd) ==> {
            &&& link_step(c, s, event, t) == LinkStepText::Write(cmd@ + "\r\n"@)
            &&& link_after(c, s, event, t).drop_next_chunk
        },
{
}

/// While a device collects, its identification is refused and it is not asked again; else
/// an exchange is run for whoever asks, and of its own accord only while the firmware is
/// not verified. The chunk that straddles an exchange is discarded.
pub proof fn law_exchanges_wait_for_collections(c: ConnectionText, s: StateText, t: i64)
    ensures
        s.collection_running ==> {
            &&& link_step(c, s, LinkEvent::InfoRequested, t) == LinkStepText::Refuse(
                "collection is running; CLI is locked until stop"@,
            )
            &&& link_after(c, s, LinkEvent::InfoRequested, t) == c
            &&& link_step(c, s, LinkEvent::ProbeDue, t) is Wait
            &&& link_after(c, s, LinkEvent::ProbeDue, t) == c
        },
        !s.collection_running ==> {
            &&& link_step(c, s, LinkEvent::InfoRequested, t) is Exchange
            &&& link_after(c, s, LinkEvent::InfoRequested, t) == (ConnectionText {
                drop_next_chunk: true,
                ..c
            })
        },
        !s.collection_running && s.firmware_verified ==> {
            &&& link_step(c, s, LinkEvent::ProbeDue, t) is Wait
            &&& link_after(c, s, LinkEvent::ProbeDue, t) == c
        },
        !s.collection_running && !s.firmware_verified ==> {
            &&& link_step(c, s, LinkEvent::ProbeDue, t) is Probe
            &&& link_after(c, s, LinkEvent::ProbeDue, t) == (ConnectionText {
                drop_next_chunk: true,
                ..c
            })
        },
{
}

/// Each second of a collection is reported, with what was taken off the port and then what
/// was handed to clients; counting starts anew with every second.
pub proof fn law_every_second_is_counted_anew(c: ConnectionText, s: StateText, t: i64)
    requires
        c.frames_broadcast < u64::MAX,
    ensures
        s.collection_running ==> link_step(c, s, LinkEvent::Tick, t) == LinkStepText::Report(
            c.frames_in,
            c.frames_broadcast,
        ),
        !s.collection_running ==> link_step(c, s, LinkEvent::Tick, t) is Wait,
        link_after(c, s, LinkEvent::Tick, t) == (ConnectionText {
            frames_in: 0,
            frames_broadcast: 0,
            ..c
        }),
        link_after(c, s, LinkEvent::Broadcast(false), t) == c,
        link_after(c, s, LinkEvent::Broadcast(true), t).frames_broadcast == c.frames_broadcast + 1,
        link_after(c, s, LinkEvent::Broadcast(true), t) == (ConnectionText {
            frames_broadcast: link_after(c, s, LinkEvent::Broadcast(true), t).frames_broadcast,
            ..c
        }),
        link_step(c, s, LinkEvent::Broadcast(true), t) is Wait,
        link_step(c, s, LinkEvent::Broadcast(false), t) is Wait,
{
}

/// Each way in which a link ends is told by its own reason.
pub proof fn law_reasons_of_the_end(c: ConnectionText, s: StateText, event: LinkEvent, t: i64)
    ensures
        event is Lost ==> link_step(c, s, event, t) == LinkStepText::Exit(
            ConnectionExit::Disconnected,
        ),
        event is Shutdown ==> link_step(c, s, event, t) == LinkStepText::Exit(
            ConnectionExit::Shutdown,
        ),
        event is CommandsClosed ==> link_step(c, s, event, t) == LinkStepText::Exit(
            ConnectionExit::CommandChannelClosed,
        ),
        event matches LinkEvent::Probed(v) ==> link_step(c, s, event, t) == match v {
            Err(InfoExchangeError::Hard(_)) => LinkStepText::Exit(ConnectionExit::Disconnected),
            _ => LinkStepText::Wait,
        },
        link_step(c, s, event, t) is Exit ==> event is Lost || event is Shutdown
            || event is CommandsClosed || event is Probed,
        event is Lost || event is Shutdown || event is CommandsClosed ==> link_after(c, s, event, t)
            == c && state_after(s, event) == s,
{
}

/// Whoever asked for the identification is answered with what the exchange brought, or
/// with what went wrong; the link is lost where the failure was hard.
pub proof fn law_whoever_asked_is_answered(
    c: ConnectionText,
    s: StateText,
    verdict: Result<DeviceInfo, InfoExchangeError>,
    t: i64,
)
    ensures
        link_step(c, s, LinkEvent::InfoExchanged(verdict), t) == match verdict {
            Ok(info) => LinkStepText::Answer(Ok(info@), None),
            Err(InfoExchangeError::Soft(m)) => LinkStepText::Answer(Err(m@), None),
            Err(InfoExchangeError::Hard(m)) => LinkStepText::Answer(
                Err(m@),
                Some(ConnectionExit::Disconnected),
            ),
        },
        ({
            let after = state_after(s, LinkEvent::InfoExchanged(verdict));
            &&& after.firmware_verified <==> verdict is Ok
            &&& after.device_info is Some <==> verdict is Ok
            &&& verdict matches Ok(info) ==> after.device_info == Some(info@)
        }),
        verdict matches Ok(info) ==> {
            &&& state_after(s, LinkEvent::Probed(verdict)).firmware_verified
            &&& state_after(s, LinkEvent::Probed(verdict)).device_info == Some(info@)
        },
        verdict is Err ==> state_after(s, LinkEvent::Probed(verdict)) == s,
        link_after(c, s, LinkEvent::Probed(verdict), t) == link_after(
            c,
            s,
            LinkEvent::InfoExchanged(verdict),
            t,
        ),
{
}

/// Only identification exchanges change what is known of the device.
pub proof fn law_other_events_keep_the_state(s: StateText, event: LinkEvent)
    ensures
        !(event is Probed) && !(event is InfoExchanged) ==> state_after(s, event) == s,
{
}

/// A file that was created is open for its path and its chip, with no rows; a batch that
/// was written takes all rows with it and nothing else.
pub proof fn law_files_of_a_link(
    c: ConnectionText,
    s: StateText,
    path: String,
    chip: String,
    t: i64,
)
    ensures
        ({
            let after = link_after(c, s, LinkEvent::SinkOpened { path, chip }, t);
            &&& after.sink matches Some(k) && k.open && k.path == path@ && k.chip == chip@
                && k.rows.len() == 0
            &&& after == (ConnectionText { sink: after.sink, ..c })
            &&& link_step(c, s, LinkEvent::SinkOpened { path, chip }, t) is Wait
        }),
        ({
            let after = link_after(c, s, LinkEvent::BatchWritten, t);
            &&& after.sink is Some <==> c.sink is Some
            &&& after.sink matches Some(k) ==> k.rows.len() == 0 && k.path == c.sink->0.path
                && k.chip == c.sink->0.chip && k.open == c.sink->0.open
            &&& after == (ConnectionText { sink: after.sink, ..c })
            &&& link_step(c, s, LinkEvent::BatchWritten, t) is Wait
        }),
{
}

/// A changed output hands over the file of the session that ended, and nothing else.
pub proof fn law_changed_outputs_end_sessions(
    c: ConnectionText,
    s: StateText,
    mode_changed: bool,
    session_changed: bool,
    t: i64,
)
    ensures
        link_step(c, s, LinkEvent::Outputs { mode_changed, session_changed }, t)
            matches LinkStepText::Session(ended, step) && ({
            &&& ended == ended_sink(c, s, session_changed)
            &&& step == outputs_step(c, s, mode_changed, session_changed)
            &&& step is Finalize ==> ended is None && c.sink is Some
            &&& step is Open ==> ended is Some || c.sink is None
        }),
{
}

/// A device that may still be streaming is stopped as any other: by the line for the
/// command `q`.
pub proof fn law_stale_streams_are_stopped_by_q(
    c: ConnectionText,
    s: StateText,
    cmd: String,
    t: i64,
)
    requires
        cmd@ == "q"@,
    ensures
        link_step(c, s, LinkEvent::Command(cmd), t) == LinkStepText::Write(stop_line()),
{
    reveal_strlit("q");
    reveal_strlit("\r\n");
    reveal_strlit("q\r\n");
    assert("q"@ + "\r\n"@ =~= "q\r\n"@);
}

/// What is done on a link says what it holds.
pub proof fn law_link_steps_show_their_fields(step: LinkStep)
    ensures
        step matches LinkStep::Report(a, b) ==> step@ == LinkStepText::Report(a, b),
        step matches LinkStep::Forward(f) ==> step@ == LinkStepText::Forward(f@),
        step matches LinkStep::Write(l) ==> step@ == LinkStepText::Write(l@),
        step matches LinkStep::Refuse(m) ==> step@ == LinkStepText::Refuse(m@),
        step matches LinkStep::Exit(e) ==> step@ == LinkStepText::Exit(e),
        step matches LinkStep::Answer(a, exit) ==> step@ matches LinkStepText::Answer(b, e)
            && e == exit && (a matches Ok(i) ==> b == Ok::<InfoText, Seq<char>>(i@)) && (
        a matches Err(m) ==> b == Err::<InfoText, Seq<char>>(m@)),
        step matches LinkStep::Session(k, f) ==> step@ matches LinkStepText::Session(j, g) && g
            == f@ && (j is Some <==> k is Some) && (k is Some ==> j->0 == k->0@),
        step is Wait <==> step@ is Wait,
        step is Probe <==> step@ is Probe,
        step is Exchange <==> step@ is Exchange,
{
}

/// A device is asked for its identification as by any other command, by the line for
/// `info`.
pub proof fn law_identification_is_asked_by_info(
    c: ConnectionText,
    s: StateText,
    cmd: String,
    t: i64,
)
    requires
        cmd@ == "info"@,
    ensures
        link_step(c, s, LinkEvent::Command(cmd), t) == LinkStepText::Write(info_line()),
{
    reveal_strlit("info");
    reveal_strlit("\r\n");
    reveal_strlit("info\r\n");
    assert("info"@ + "\r\n"@ =~= "info\r\n"@);
}

} // verus!
