//! One serial task: opening the port, the open link, and the session file.
//!
//! The wire format is always the firmware's `serialized` mode: COBS-framed
//! postcard records delimited by a zero byte. Each frame is broadcast verbatim to
//! WebSocket clients and, when dumping, decoded and collected for the session file.
//!
//! The task's owner reads and writes the port, and tells the functions here what
//! happened; they keep the books and say what is to be done.

use vstd::prelude::*;

use crate::csi::{self, DecodeError};
use crate::models::{DeviceInfo, InfoText, OutputMode};
use crate::parquet_sink::{
    after_push, batch_view, due_after_push, push_hex, ColumnData, ColumnValues, ParquetSink,
    RowText, SinkText,
};
use crate::serial::info::{
    chip_of, exchange_view, info_view, opt_chip, ChipInfo, ChipText, ErrorText, InfoExchangeError,
};
use crate::state::{AppState, StateText};
use crate::text;

verus! {

// ── The task ──────────────────────────────────────────────────────────────

/// Why a link ended.
#[derive(Debug, Clone, Copy, PartialEq, Eq, Structural)]
pub enum ConnectionExit {
    Disconnected,
    CommandChannelClosed,
    Shutdown,
}

/// What happens to a serial task.
#[derive(Debug, Clone, Copy, PartialEq, Eq, Structural)]
pub enum TaskEvent {
    /// The device is to be torn down.
    ShutdownRequested,
    /// The port could not be opened.
    OpenFailed,
    /// The port is open, and the board was reset where it has to be.
    Opened,
    /// The link ended.
    Ended(ConnectionExit),
}

/// What a serial task does next.
#[derive(Debug, Clone, Copy, PartialEq, Eq, Structural)]
pub enum TaskStep {
    /// Serve the link.
    Serve,
    /// Wait, then open the same port again. Opening another one would let two
    /// tasks race for one port.
    Retry,
    /// End the task.
    Stop,
}

/// Whether opening a port resets the board behind it.
pub open spec fn reset_on_open(native_usb: bool) -> bool {
    !native_usb
}

/// Whether a board is reset by pulsing RTS right after its port was opened. The
/// pulse reboots the USB peripheral of native USB-Serial-JTAG chips, which then
/// re-enumerate: those are not reset.
pub fn resets_on_connect(native_usb: bool) -> (r: bool)
    ensures
        r == reset_on_open(native_usb),
{
    !native_usb
}

/// The state after an event of the serial task.
pub open spec fn task_state(s: StateText, event: TaskEvent) -> StateText {
    match event {
        TaskEvent::ShutdownRequested => s,
        TaskEvent::OpenFailed => StateText {
            serial_connected: false,
            collection_running: false,
            ..s
        },
        TaskEvent::Opened => StateText { serial_connected: true, ..s },
        TaskEvent::Ended(_) => StateText {
            serial_connected: false,
            collection_running: false,
            firmware_verified: false,
            device_info: None,
            ..s
        },
    }
}

/// What a serial task does after an event.
pub open spec fn task_step(event: TaskEvent) -> TaskStep {
    match event {
        TaskEvent::ShutdownRequested => TaskStep::Stop,
        TaskEvent::OpenFailed => TaskStep::Retry,
        TaskEvent::Opened => TaskStep::Serve,
        TaskEvent::Ended(ConnectionExit::Disconnected) => TaskStep::Retry,
        TaskEvent::Ended(_) => TaskStep::Stop,
    }
}

/// One step of the background task that owns the serial port for its lifetime:
/// it reconnects whenever the link is lost. A disconnect invalidates the firmware
/// identity, since a different chip may be attached on reconnect.
pub fn run_serial_task(state: &mut AppState, event: TaskEvent) -> (r: TaskStep)
    ensures
        final(state)@ == task_state(old(state)@, event),
        r == task_step(event),
        old(state)@.coherent() && (event == TaskEvent::OpenFailed ==> !old(
            state,
        )@.serial_connected) ==> final(state)@.coherent(),
{
    match event {
        TaskEvent::ShutdownRequested => TaskStep::Stop,
        TaskEvent::OpenFailed => {
            state.serial_connected = false;
            state.collection_running = false;
            TaskStep::Retry
        },
        TaskEvent::Opened => {
            state.serial_connected = true;
            TaskStep::Serve
        },
        TaskEvent::Ended(exit) => {
            state.serial_connected = false;
            state.collection_running = false;
            state.unverify();
            match exit {
                ConnectionExit::Disconnected => TaskStep::Retry,
                _ => TaskStep::Stop,
            }
        },
    }
}

// ── The link ──────────────────────────────────────────────────────────────

/// An open link to a device.
#[derive(Debug)]
pub struct Connection {
    /// The chip, which selects the wire layout; refreshed on every successful info
    /// exchange.
    pub chip: Option<ChipInfo>,
    pub mode: OutputMode,
    pub session: Option<String>,
    /// Whether the next chunk may hold CLI text and is to be discarded.
    pub drop_next_chunk: bool,
    pub sink: Option<ParquetSink>,
    pub decode_errors: u64,
    /// Frames taken off the port since the last report.
    pub frames_in: u64,
    /// Frames handed to clients since the last report.
    pub frames_broadcast: u64,
}

/// What a [`Connection`] says.
#[verifier::ext_equal]
pub struct ConnectionText {
    pub chip: Option<ChipText>,
    pub mode: OutputMode,
    pub session: Option<Seq<char>>,
    pub drop_next_chunk: bool,
    pub sink: Option<SinkText>,
    pub decode_errors: u64,
    pub frames_in: u64,
    pub frames_broadcast: u64,
}

/// An optional sink, as text.
pub open spec fn opt_sink(s: Option<ParquetSink>) -> Option<SinkText> {
    match s {
        Some(k) => Some(k@),
        None => None,
    }
}

impl View for Connection {
    type V = ConnectionText;

    open spec fn view(&self) -> ConnectionText {
        ConnectionText {
            chip: opt_chip(self.chip),
            mode: self.mode,
            session: text::opt_text(self.session),
            drop_next_chunk: self.drop_next_chunk,
            sink: opt_sink(self.sink),
            decode_errors: self.decode_errors,
            frames_in: self.frames_in,
            frames_broadcast: self.frames_broadcast,
        }
    }
}

/// Whether frames go to the session file.
pub open spec fn dumps(mode: OutputMode) -> bool {
    mode == OutputMode::Dump || mode == OutputMode::Both
}

/// Whether frames go to the clients.
pub open spec fn streams(mode: OutputMode) -> bool {
    mode == OutputMode::Stream || mode == OutputMode::Both
}

impl ConnectionText {
    /// A session file is only open while frames are dumped, and it is that of the
    /// session that is on.
    pub open spec fn sound(self) -> bool {
        self.sink is Some ==> dumps(self.mode) && self.session == Some(self.sink->0.path)
    }
}

// ── The session file ──────────────────────────────────────────────────────

/// What is to be done about the session file.
#[derive(Debug)]
pub enum SinkStep {
    /// Nothing.
    Keep,
    /// Create the file at that path, and report it with
    /// [`Connection::sink_opened`].
    Open { path: String, chip: String },
    /// The file at that path cannot be filled: the chip is not identified or not
    /// supported, so frames cannot be decoded. Streaming is unaffected.
    Unidentified { path: String },
    /// Finish this sink.
    Finalize(ParquetSink),
}

/// What a [`SinkStep`] says.
#[verifier::ext_equal]
pub enum SinkStepText {
    Keep,
    Open { path: Seq<char>, chip: Seq<char> },
    Unidentified { path: Seq<char> },
    Finalize(SinkText),
}

impl View for SinkStep {
    type V = SinkStepText;

    open spec fn view(&self) -> SinkStepText {
        match *self {
            SinkStep::Keep => SinkStepText::Keep,
            SinkStep::Open { path, chip } => SinkStepText::Open { path: path@, chip: chip@ },
            SinkStep::Unidentified { path } => SinkStepText::Unidentified { path: path@ },
            SinkStep::Finalize(s) => SinkStepText::Finalize(s@),
        }
    }
}

/// What is to be done about the session file of a link.
pub open spec fn sync_step(c: ConnectionText) -> SinkStepText {
    if dumps(c.mode) {
        if c.sink is None && c.session is Some {
            match c.chip {
                Some(chip) => SinkStepText::Open { path: c.session->0, chip: chip.name },
                None => SinkStepText::Unidentified { path: c.session->0 },
            }
        } else {
            SinkStepText::Keep
        }
    } else {
        match c.sink {
            Some(s) => SinkStepText::Finalize(s),
            None => SinkStepText::Keep,
        }
    }
}

/// The link after its session file was looked after.
pub open spec fn synced(c: ConnectionText) -> ConnectionText {
    if dumps(c.mode) {
        c
    } else {
        ConnectionText { sink: None, ..c }
    }
}

/// A link that was closed: its sink is no longer its own.
pub open spec fn closed_link(c: ConnectionText) -> ConnectionText {
    ConnectionText { sink: None, ..c }
}

/// The sink that a link leaves behind.
pub open spec fn left_behind(c: ConnectionText) -> Option<SinkText> {
    c.sink
}

// ── Frames ────────────────────────────────────────────────────────────────

/// What goes out for a chunk that was read.
#[derive(Debug)]
pub struct Forward {
    /// The frame for the clients.
    pub stream: Option<Vec<u8>>,
    /// The batch that is due to be written to the session file.
    pub write: Option<Vec<ColumnData>>,
    /// The frame could not be decoded.
    pub fault: Option<DecodeError>,
}

/// What a [`Forward`] says.
#[verifier::ext_equal]
pub struct ForwardText {
    pub stream: Option<Seq<u8>>,
    pub write: Option<Seq<ColumnValues>>,
    pub fault: Option<Seq<char>>,
}

/// Optional bytes.
pub open spec fn opt_bytes(v: Option<Vec<u8>>) -> Option<Seq<u8>> {
    match v {
        Some(b) => Some(b@),
        None => None,
    }
}

/// What was wrong with a frame.
pub open spec fn opt_fault(e: Option<DecodeError>) -> Option<Seq<char>> {
    match e {
        Some(f) => Some(f.reason@),
        None => None,
    }
}

impl View for Forward {
    type V = ForwardText;

    open spec fn view(&self) -> ForwardText {
        ForwardText {
            stream: opt_bytes(self.stream),
            write: batch_view(self.write),
            fault: opt_fault(self.fault),
        }
    }
}

/// Nothing goes out.
pub open spec fn nothing() -> ForwardText {
    ForwardText { stream: None, write: None, fault: None }
}

/// A chunk without the zero that closes it.
pub open spec fn frame_of(chunk: Seq<u8>) -> Seq<u8> {
    if chunk.len() > 0 && chunk.last() == 0 {
        chunk.drop_last()
    } else {
        chunk
    }
}

/// Whether a frame is to be decoded for the session file.
pub open spec fn records(c: ConnectionText) -> bool {
    dumps(c.mode) && c.sink is Some && c.chip is Some
}

/// The link after a frame was recorded for the session file.
pub open spec fn recorded(c: ConnectionText, frame: Seq<u8>, host_rx_micros: i64) -> ConnectionText {
    match csi::decoded_frame(frame, c.chip->0.variant) {
        Ok(rec) => ConnectionText {
            sink: Some(after_push(c.sink->0, RowText { host_rx_micros, csi: rec })),
            ..c
        },
        Err(_) => ConnectionText { decode_errors: (c.decode_errors + 1) as u64, ..c },
    }
}

/// The link after a chunk was read at that time.
pub open spec fn after_chunk(
    c: ConnectionText,
    running: bool,
    chunk: Seq<u8>,
    host_rx_micros: i64,
) -> ConnectionText {
    let frame = frame_of(chunk);
    if c.drop_next_chunk {
        ConnectionText { drop_next_chunk: false, ..c }
    } else if running && frame.len() > 0 {
        let counted = ConnectionText { frames_in: (c.frames_in + 1) as u64, ..c };
        if records(c) {
            recorded(counted, frame, host_rx_micros)
        } else {
            counted
        }
    } else {
        c
    }
}

/// What goes out for a chunk that was read at that time.
pub open spec fn chunk_forward(
    c: ConnectionText,
    running: bool,
    chunk: Seq<u8>,
    host_rx_micros: i64,
) -> ForwardText {
    let frame = frame_of(chunk);
    if c.drop_next_chunk || !running || frame.len() == 0 {
        nothing()
    } else {
        ForwardText {
            stream: if streams(c.mode) {
                Some(frame)
            } else {
                None
            },
            write: if records(c) {
                match csi::decoded_frame(frame, c.chip->0.variant) {
                    Ok(rec) => due_after_push(c.sink->0, RowText { host_rx_micros, csi: rec }),
                    Err(_) => None,
                }
            } else {
                None
            },
            fault: if records(c) {
                match csi::decoded_frame(frame, c.chip->0.variant) {
                    Ok(_) => None,
                    Err(e) => Some(e),
                }
            } else {
                None
            },
        }
    }
}

/// `chrono::Utc::now` in microseconds since the epoch: the time of day, of which
/// nothing is claimed.
#[verifier::external_body]
fn receive_time() -> (r: i64) {
    chrono::Utc::now().timestamp_micros()
}

impl Connection {
    /// Starts serving a link whose identification exchange ended with `verdict`.
    ///
    /// A healthy link whose firmware could not be verified is served too: command
    /// endpoints are refused until a later verification succeeds. The first chunk is
    /// discarded, since it may hold CLI text. What is to be done about the session
    /// file comes with the link.
    pub fn start(state: &mut AppState, verdict: Result<DeviceInfo, InfoExchangeError>) -> (r: Result<
        (Connection, SinkStep),
        ConnectionExit,
    >)
        ensures
            final(state)@ == started_state(old(state)@, exchange_view(verdict)),
            match r {
                Ok((c, step)) => {
                    let begun = begun(final(state)@, exchange_view(verdict));
                    &&& !(exchange_view(verdict) matches Err(ErrorText::Hard(_)))
                    &&& c@ == synced(begun)
                    &&& step@ == sync_step(begun)
                    &&& c@.sound()
                },
                Err(exit) => exchange_view(verdict) matches Err(ErrorText::Hard(_)) && exit
                    == ConnectionExit::Disconnected,
            },
            old(state)@.coherent() && old(state)@.serial_connected && !old(
                state,
            )@.collection_running ==> final(state)@.coherent(),
    {
        let chip = match verdict {
            Ok(info) => {
                let chip = ChipInfo::from_info(&info);
                state.verified(info);
                chip
            },
            Err(e) => {
                state.unverify();
                if let InfoExchangeError::Hard(_) = e {
                    return Err(ConnectionExit::Disconnected);
                }
                None
            },
        };
        let mut c = Connection {
            chip,
            mode: state.output_mode,
            session: text::copy_opt(&state.session_file),
            drop_next_chunk: true,
            sink: None,
            decode_errors: 0,
            frames_in: 0,
            frames_broadcast: 0,
        };
        let step = c.sync_parquet_sink();
        Ok((c, step))
    }

    /// Reconcile the session file with the output mode and the session path: a file
    /// is to be opened when dumping is active and a session path is set (which takes
    /// a known chip, so that frames can be decoded), and finished when switching to
    /// stream-only.
    pub fn sync_parquet_sink(&mut self) -> (r: SinkStep)
        ensures
            r@ == sync_step(old(self)@),
            final(self)@ == synced(old(self)@),
            (old(self)@.sink is Some ==> old(self)@.session == Some(
                old(self)@.sink->0.path,
            )) ==> final(self)@.sound(),
    {
        match self.mode {
            OutputMode::Dump | OutputMode::Both => {
                if self.sink.is_none() {
                    if let Some(path) = &self.session {
                        return match &self.chip {
                            Some(chip) => SinkStep::Open {
                                path: path.clone(),
                                chip: chip.name.clone(),
                            },
                            None => SinkStep::Unidentified { path: path.clone() },
                        };
                    }
                }
                SinkStep::Keep
            },
            OutputMode::Stream => {
                match self.sink.take() {
                    Some(s) => SinkStep::Finalize(s),
                    None => SinkStep::Keep,
                }
            },
        }
    }

    /// The session file was created.
    pub fn sink_opened(&mut self, path: &str, chip: &str)
        ensures
            final(self)@ == (ConnectionText {
                sink: Some(
                    SinkText { open: true, chip: chip@, path: path@, rows: Seq::empty() },
                ),
                ..old(self)@
            }),
            dumps(old(self)@.mode) && old(self)@.session == Some(path@) ==> final(self)@.sound(),
    {
        self.sink = Some(ParquetSink::open(path, chip));
    }

    /// Takes over changes of the output mode and the session file. The end of a
    /// session hands out the sink to finish, whether or not another session has begun
    /// meanwhile; after either change the session file is reconciled.
    pub fn outputs_changed(
        &mut self,
        state: &AppState,
        mode_changed: bool,
        session_changed: bool,
    ) -> (r: (Option<ParquetSink>, SinkStep))
        ensures
            final(self)@ == after_outputs(old(self)@, state@, mode_changed, session_changed),
            opt_sink(r.0) == ended_sink(old(self)@, state@, session_changed),
            r.1@ == outputs_step(old(self)@, state@, mode_changed, session_changed),
            old(self)@.sound() ==> final(self)@.sound(),
    {
        if mode_changed {
            self.mode = state.output_mode;
        }
        let mut ended: Option<ParquetSink> = None;
        if session_changed {
            let goes_on = match (&self.sink, &state.session_file) {
                (Some(sink), Some(path)) => text::same(sink.path.as_str(), path.as_str()),
                _ => false,
            };
            if !goes_on {
                ended = self.sink.take();
            }
            self.session = text::copy_opt(&state.session_file);
        }
        let step = if mode_changed || session_changed {
            self.sync_parquet_sink()
        } else {
            SinkStep::Keep
        };
        (ended, step)
    }

    /// The due batch was written to the session file.
    pub fn batch_written(&mut self)
        ensures
            final(self)@ == (ConnectionText {
                sink: match old(self)@.sink {
                    Some(s) => Some(SinkText { rows: Seq::empty(), ..s }),
                    None => None,
                },
                ..old(self)@
            }),
            old(self)@.sound() ==> final(self)@.sound(),
    {
        if let Some(mut s) = self.sink.take() {
            s.written();
            self.sink = Some(s);
        }
    }

    /// The link is over: the sink to finish, where a session file is open.
    pub fn end(&mut self) -> (r: Option<ParquetSink>)
        ensures
            opt_sink(r) == left_behind(old(self)@),
            final(self)@ == closed_link(old(self)@),
            final(self)@.sound(),
    {
        self.sink.take()
    }

    /// One second is over: the frames since the last report, which is only made
    /// while collecting, and counting starts anew.
    pub fn metrics_tick(&mut self, running: bool) -> (r: Option<(u64, u64)>)
        ensures
            r == if running {
                Some((old(self)@.frames_in, old(self)@.frames_broadcast))
            } else {
                None
            },
            final(self)@ == (ConnectionText { frames_in: 0, frames_broadcast: 0, ..old(self)@ }),
            old(self)@.sound() ==> final(self)@.sound(),
    {
        let report: Option<(u64, u64)> = if running {
            Some((self.frames_in, self.frames_broadcast))
        } else {
            None
        };
        self.frames_in = 0;
        self.frames_broadcast = 0;
        report
    }

    /// Whether the firmware is to be asked again who it is: while it is unverified
    /// and idle. The CLI is locked during collection, and a verified device is not
    /// asked again.
    pub fn reverify_due(state: &AppState) -> (r: bool)
        ensures
            r == (!state@.firmware_verified && !state@.collection_running),
    {
        !state.firmware_verified && !state.collection_running
    }

    /// An identification exchange is about to run on the link. It is text: the
    /// chunk that straddles it is discarded. The caller drops the partial frame that
    /// it holds.
    pub fn probe(&mut self)
        ensures
            final(self)@ == (ConnectionText { drop_next_chunk: true, ..old(self)@ }),
            old(self)@.sound() ==> final(self)@.sound(),
    {
        self.drop_next_chunk = true;
    }

    /// The firmware was asked again who it is.
    pub fn reverified(
        &mut self,
        state: &mut AppState,
        verdict: Result<DeviceInfo, InfoExchangeError>,
    ) -> (r: Option<ConnectionExit>)
        ensures
            final(self)@ == with_verdict(old(self)@, exchange_view(verdict)),
            final(state)@ == reverified_state(old(state)@, exchange_view(verdict)),
            r == exit_after(exchange_view(verdict)),
            old(self)@.sound() ==> final(self)@.sound(),
            old(state)@.coherent() && old(state)@.serial_connected ==> final(state)@.coherent(),
    {
        match verdict {
            Ok(info) => {
                self.chip = ChipInfo::from_info(&info);
                state.verified(info);
                None
            },
            Err(InfoExchangeError::Soft(_)) => None,
            Err(InfoExchangeError::Hard(_)) => Some(ConnectionExit::Disconnected),
        }
    }

    /// Someone asks for the device's identification. While a collection runs it is
    /// refused; else the exchange is to be run.
    pub fn info_requested(&mut self, state: &AppState) -> (r: Option<String>)
        ensures
            text::opt_text(r) == if state@.collection_running {
                Some("collection is running; CLI is locked until stop"@)
            } else {
                None
            },
            final(self)@ == (ConnectionText {
                drop_next_chunk: old(self)@.drop_next_chunk || !state@.collection_running,
                ..old(self)@
            }),
            old(self)@.sound() ==> final(self)@.sound(),
    {
        if state.collection_running {
            Some("collection is running; CLI is locked until stop".to_owned())
        } else {
            self.drop_next_chunk = true;
            None
        }
    }

    /// The exchange that someone asked for is over: what to answer, and whether the
    /// link is lost.
    pub fn info_answered(
        &mut self,
        state: &mut AppState,
        verdict: Result<DeviceInfo, InfoExchangeError>,
    ) -> (r: (Result<DeviceInfo, String>, Option<ConnectionExit>))
        ensures
            final(self)@ == with_verdict(old(self)@, exchange_view(verdict)),
            final(state)@ == started_state(old(state)@, exchange_view(verdict)),
            info_view(r.0) == info_reply(exchange_view(verdict)),
            r.1 == exit_after(exchange_view(verdict)),
            old(self)@.sound() ==> final(self)@.sound(),
            old(state)@.coherent() && old(state)@.serial_connected && !old(
                state,
            )@.collection_running ==> final(state)@.coherent(),
    {
        match verdict {
            Ok(info) => {
                self.chip = ChipInfo::from_info(&info);
                state.verified(info.clone());
                (Ok(info), None)
            },
            Err(InfoExchangeError::Soft(m)) => {
                state.unverify();
                (Err(m), None)
            },
            Err(InfoExchangeError::Hard(m)) => {
                state.unverify();
                (Err(m), Some(ConnectionExit::Disconnected))
            },
        }
    }

    /// The line to write for a command. Its echo is text, so the next chunk is
    /// discarded.
    pub fn command(&mut self, cmd: &str) -> (r: String)
        ensures
            r@ == cmd@ + "\r\n"@,
            final(self)@ == (ConnectionText { drop_next_chunk: true, ..old(self)@ }),
            old(self)@.sound() ==> final(self)@.sound(),
    {
        self.drop_next_chunk = true;
        text::join2(cmd, "\r\n")
    }

    /// A chunk up to and including a zero was read at that time.
    ///
    /// The first chunk after a command or an identification exchange is discarded:
    /// it may hold CLI prompt or echo text. Frames are only passed on while a session
    /// is active; what trickles in after its end is dropped. A frame is decoded for
    /// the session file when dumping, and goes to the clients as it is when
    /// streaming.
    pub fn chunk_at(&mut self, running: bool, chunk: Vec<u8>, host_rx_micros: i64) -> (r: Forward)
        requires
            old(self).frames_in < u64::MAX,
            old(self).decode_errors < u64::MAX,
        ensures
            final(self)@ == after_chunk(old(self)@, running, chunk@, host_rx_micros),
            r@ == chunk_forward(old(self)@, running, chunk@, host_rx_micros),
            old(self)@.sound() ==> final(self)@.sound(),
    {
        let mut out = Forward { stream: None, write: None, fault: None };
        if self.drop_next_chunk {
            self.drop_next_chunk = false;
            return out;
        }
        let ghost all = chunk@;
        let mut frame = chunk;
        if frame.len() > 0 && frame[frame.len() - 1] == 0 {
            let _ = frame.pop();
        }
        assert(frame@ =~= frame_of(all));
        if !running || frame.len() == 0 {
            return out;
        }
        self.frames_in = self.frames_in + 1;
        let dumping = match self.mode {
            OutputMode::Dump | OutputMode::Both => true,
            OutputMode::Stream => false,
        };
        let streaming = match self.mode {
            OutputMode::Stream | OutputMode::Both => true,
            OutputMode::Dump => false,
        };
        if dumping {
            if let Some(mut sink) = self.sink.take() {
                if let Some(chip) = &self.chip {
                    match csi::decode(frame.as_slice(), chip.variant) {
                        Ok(decoded) => {
                            out.write = sink.push(decoded, host_rx_micros);
                        },
                        Err(e) => {
                            self.decode_errors = self.decode_errors + 1;
                            out.fault = Some(e);
                        },
                    }
                }
                self.sink = Some(sink);
            }
        }
        if streaming {
            out.stream = Some(frame);
        }
        out
    }

    /// A chunk up to and including a zero was read just now; see
    /// [`Connection::chunk_at`].
    pub fn chunk(&mut self, running: bool, chunk: Vec<u8>) -> (r: Forward)
        requires
            old(self).frames_in < u64::MAX,
            old(self).decode_errors < u64::MAX,
        ensures
            exists|t: i64|
                final(self)@ == #[trigger] after_chunk(old(self)@, running, chunk@, t) && r@
                    == chunk_forward(old(self)@, running, chunk@, t),
            old(self)@.sound() ==> final(self)@.sound(),
    {
        let now: i64 = receive_time();
        self.chunk_at(running, chunk, now)
    }

    /// A frame was handed to the clients, or nobody was there to take it.
    pub fn broadcast_done(&mut self, taken: bool)
        requires
            old(self).frames_broadcast < u64::MAX,
        ensures
            final(self)@ == (ConnectionText {
                frames_broadcast: if taken {
                    (old(self)@.frames_broadcast + 1) as u64
                } else {
                    old(self)@.frames_broadcast
                },
                ..old(self)@
            }),
            old(self)@.sound() ==> final(self)@.sound(),
    {
        if taken {
            self.frames_broadcast = self.frames_broadcast + 1;
        }
    }
}

// ── What the verdicts of identification exchanges change ──────────────────

/// The state after an exchange on connect or on request: a failure clears the
/// identity.
pub open spec fn started_state(s: StateText, verdict: Result<InfoText, ErrorText>) -> StateText {
    match verdict {
        Ok(info) => StateText { firmware_verified: true, device_info: Some(info), ..s },
        Err(_) => StateText { firmware_verified: false, device_info: None, ..s },
    }
}

/// The state after the firmware was asked again: a failure changes nothing.
pub open spec fn reverified_state(s: StateText, verdict: Result<InfoText, ErrorText>) -> StateText {
    match verdict {
        Ok(info) => StateText { firmware_verified: true, device_info: Some(info), ..s },
        Err(_) => s,
    }
}

/// A link with the chip that an exchange identified.
pub open spec fn with_verdict(
    c: ConnectionText,
    verdict: Result<InfoText, ErrorText>,
) -> ConnectionText {
    match verdict {
        Ok(info) => ConnectionText { chip: chip_of(info), ..c },
        Err(_) => c,
    }
}

/// Whether the link is lost after an exchange.
pub open spec fn exit_after(verdict: Result<InfoText, ErrorText>) -> Option<ConnectionExit> {
    match verdict {
        Err(ErrorText::Hard(_)) => Some(ConnectionExit::Disconnected),
        _ => None,
    }
}

/// What is answered to whoever asked for the identification.
pub open spec fn info_reply(verdict: Result<InfoText, ErrorText>) -> Result<InfoText, Seq<char>> {
    match verdict {
        Ok(i) => Ok(i),
        Err(ErrorText::Soft(m)) => Err(m),
        Err(ErrorText::Hard(m)) => Err(m),
    }
}

/// A link before its session file is looked after.
pub open spec fn begun(s: StateText, verdict: Result<InfoText, ErrorText>) -> ConnectionText {
    ConnectionText {
        chip: match verdict {
            Ok(info) => chip_of(info),
            Err(_) => None,
        },
        mode: s.output_mode,
        session: s.session_file,
        drop_next_chunk: true,
        sink: None,
        decode_errors: 0,
        frames_in: 0,
        frames_broadcast: 0,
    }
}

// ── What changed outputs change ───────────────────────────────────────────

/// Whether the session of the open session file has ended.
pub open spec fn session_over(c: ConnectionText, s: StateText, session_changed: bool) -> bool {
    session_changed && c.sink is Some && s.session_file != Some(c.sink->0.path)
}

/// A link that has taken over the output mode and the session file.
pub open spec fn retargeted(
    c: ConnectionText,
    s: StateText,
    mode_changed: bool,
    session_changed: bool,
) -> ConnectionText {
    ConnectionText {
        mode: if mode_changed {
            s.output_mode
        } else {
            c.mode
        },
        session: if session_changed {
            s.session_file
        } else {
            c.session
        },
        sink: if session_over(c, s, session_changed) {
            None
        } else {
            c.sink
        },
        ..c
    }
}

/// The sink of a session that ended.
pub open spec fn ended_sink(c: ConnectionText, s: StateText, session_changed: bool) -> Option<
    SinkText,
> {
    if session_over(c, s, session_changed) {
        c.sink
    } else {
        None
    }
}

/// What is to be done about the session file after a change.
pub open spec fn outputs_step(
    c: ConnectionText,
    s: StateText,
    mode_changed: bool,
    session_changed: bool,
) -> SinkStepText {
    if mode_changed || session_changed {
        sync_step(retargeted(c, s, mode_changed, session_changed))
    } else {
        SinkStepText::Keep
    }
}

/// The link after a change.
pub open spec fn after_outputs(
    c: ConnectionText,
    s: StateText,
    mode_changed: bool,
    session_changed: bool,
) -> ConnectionText {
    if mode_changed || session_changed {
        synced(retargeted(c, s, mode_changed, session_changed))
    } else {
        c
    }
}

// ── Reports ───────────────────────────────────────────────────────────────

/// Whether a number is a power of two.
pub open spec fn power_of_two(n: nat) -> bool {
    exists|k: nat| n == #[trigger] vstd::arithmetic::power2::pow2(k)
}

/// How a decode error is reported.
#[derive(Debug, Clone, Copy, PartialEq, Eq, Structural)]
pub enum DecodeReport {
    /// With the frame, to diagnose wire mismatches: the first few.
    Dump,
    /// With the count: at every power of two.
    Count,
    /// Not at all.
    Quiet,
}

/// How a decode error is reported, by its number on the link.
pub open spec fn report_of(n: nat) -> DecodeReport {
    if n <= 3 {
        DecodeReport::Dump
    } else if power_of_two(n) {
        DecodeReport::Count
    } else {
        DecodeReport::Quiet
    }
}

/// How the `n`-th decode error of a link is reported.
pub fn decode_report(n: u64) -> (r: DecodeReport)
    ensures
        r == report_of(n as nat),
{
    if n <= 3 {
        return DecodeReport::Dump;
    }
    let ghost mut k: nat = 0;
    proof {
        vstd::arithmetic::power2::lemma2_to64();
    }
    let mut p: u64 = 1;
    while p < n && p <= u64::MAX / 2
        invariant
            1 <= p,
            p == vstd::arithmetic::power2::pow2(k),
            forall|j: nat| j < k ==> #[trigger] vstd::arithmetic::power2::pow2(j) < n,
        decreases u64::MAX - p,
    {
        proof {
            vstd::arithmetic::power2::lemma_pow2_unfold((k + 1) as nat);
            k = (k + 1) as nat;
        }
        p = p * 2;
    }
    proof {
        assert forall|j: nat| k < j implies #[trigger] vstd::arithmetic::power2::pow2(j) > n by {
            vstd::arithmetic::power2::lemma_pow2_strictly_increases(k, j);
            if p < n {
                vstd::arithmetic::power2::lemma_pow2_unfold((k + 1) as nat);
                if k + 1 < j {
                    vstd::arithmetic::power2::lemma_pow2_strictly_increases((k + 1) as nat, j);
                }
            }
        }
    }
    if p == n {
        DecodeReport::Count
    } else {
        DecodeReport::Quiet
    }
}

/// The bytes of a frame in hexadecimal.
pub open spec fn hex(frame: Seq<u8>) -> Seq<char>
    decreases frame.len(),
{
    if frame.len() == 0 {
        Seq::empty()
    } else {
        hex(frame.drop_last()) + crate::parquet_sink::hex_byte(frame.last())
    }
}

/// The bytes of a frame in hexadecimal.
pub fn hex_text(frame: &[u8]) -> (r: String)
    ensures
        r@ == hex(frame@),
{
    let mut out = String::new();
    let mut i: usize = 0;
    assert(frame@.take(0) =~= Seq::empty());
    while i < frame.len()
        invariant
            i <= frame@.len(),
            out@ == hex(frame@.take(i as int)),
        decreases frame@.len() - i,
    {
        assert(frame@.take(i + 1).drop_last() =~= frame@.take(i as int));
        push_hex(&mut out, frame[i]);
        i += 1;
    }
    assert(frame@.take(i as int) =~= frame@);
    out
}

// ── Stale streams ─────────────────────────────────────────────────────────

/// What a read came to while a stale stream is drained.
#[derive(Debug, Clone, Copy, PartialEq, Eq, Structural)]
pub enum DrainEvent {
    /// So many bytes were read; none at the end of the stream.
    Read(usize),
    /// The port could not be read.
    Failed,
    /// Nothing came in time: the stream has quiesced.
    Idle,
}

/// The line that stops a device.
pub open spec fn stop_line() -> Seq<char> {
    "q\r\n"@
}

/// What is written to stop a device that may still be streaming.
pub fn stop_command() -> (r: &'static str)
    ensures
        r@ == stop_line(),
{
    "q\r\n"
}

/// The bytes drained after an event; `None` where draining is over.
pub open spec fn drained_after(drained: usize, event: DrainEvent) -> Option<usize> {
    match event {
        DrainEvent::Read(n) => if n == 0 {
            None
        } else {
            Some((drained + n) as usize)
        },
        DrainEvent::Failed => None,
        DrainEvent::Idle => None,
    }
}

/// One step of draining what a device with a stale session still emits: the bytes
/// drained so far, or `None` where draining is over. Native USB-Serial-JTAG chips
/// skip the RTS reset and may still be flooding CSI from a previous session, which
/// would bury the `info` request.
pub fn quiesce_stale_stream(drained: usize, event: DrainEvent) -> (r: Option<usize>)
    requires
        event matches DrainEvent::Read(n) ==> drained + n <= usize::MAX,
    ensures
        r == drained_after(drained, event),
{
    match event {
        DrainEvent::Read(n) => {
            if n == 0 {
                None
            } else {
                Some(drained + n)
            }
        },
        DrainEvent::Failed => None,
        DrainEvent::Idle => None,
    }
}

// ── Laws ──────────────────────────────────────────────────────────────────

/// Nothing reaches the clients or the session file unless a collection runs.
pub proof fn law_idle_forwards_nothing(c: ConnectionText, chunk: Seq<u8>, t: i64)
    ensures
        chunk_forward(c, false, chunk, t) == nothing(),
        after_chunk(c, false, chunk, t).sink == c.sink,
        after_chunk(c, false, chunk, t).frames_in == c.frames_in,
{
}

/// Of two chunks after a command or an identification exchange, the first goes
/// nowhere, whatever it holds; the second is treated as if only it had come.
pub proof fn law_first_chunk_after_a_command_is_dropped(
    c: ConnectionText,
    running: bool,
    first: Seq<u8>,
    second: Seq<u8>,
    t: i64,
)
    ensures
        ({
            let told = ConnectionText { drop_next_chunk: true, ..c };
            let ready = ConnectionText { drop_next_chunk: false, ..c };
            let after = after_chunk(told, running, first, t);
            &&& chunk_forward(told, running, first, t) == nothing()
            &&& after == ready
            &&& chunk_forward(after, running, second, t) == chunk_forward(ready, running, second, t)
        }),
{
}

/// While a collection streams, clients get every frame as the board sent it: the
/// bytes before the closing zero, unmodified.
pub proof fn law_clients_get_frames_verbatim(c: ConnectionText, frame: Seq<u8>, t: i64)
    requires
        streams(c.mode),
        !c.drop_next_chunk,
        frame.len() > 0,
    ensures
        chunk_forward(c, true, frame.push(0), t).stream == Some(frame),
{
    assert(frame.push(0).drop_last() =~= frame);
}

/// The output mode decides where frames go: `stream` leaves the session file
/// alone, `dump` leaves the clients alone.
pub proof fn law_output_mode_routes_frames(
    c: ConnectionText,
    running: bool,
    chunk: Seq<u8>,
    t: i64,
)
    ensures
        !streams(c.mode) ==> chunk_forward(c, running, chunk, t).stream is None,
        !dumps(c.mode) ==> {
            &&& chunk_forward(c, running, chunk, t).write is None
            &&& chunk_forward(c, running, chunk, t).fault is None
            &&& after_chunk(c, running, chunk, t).sink == c.sink
        },
{
}

/// While a collection dumps, a frame that decodes becomes one more row of the
/// session file, stamped with the time of receipt (until the buffer is full and the
/// rows go out); one that does not decode changes no row and is counted.
pub proof fn law_decoded_frames_become_rows(c: ConnectionText, frame: Seq<u8>, t: i64)
    requires
        records(c),
        c.sink->0.open,
        !c.drop_next_chunk,
        frame.len() > 0,
        c.decode_errors < u64::MAX,
    ensures
        match csi::decoded_frame(frame, c.chip->0.variant) {
            Ok(rec) => {
                let row = RowText { host_rx_micros: t, csi: rec };
                let after = after_chunk(c, true, frame.push(0), t);
                &&& after.sink is Some
                &&& after.sink->0.rows == c.sink->0.rows.push(row)
                &&& after.decode_errors == c.decode_errors
            },
            Err(e) => {
                let after = after_chunk(c, true, frame.push(0), t);
                &&& after.sink == c.sink
                &&& after.decode_errors == c.decode_errors + 1
                &&& chunk_forward(c, true, frame.push(0), t).fault == Some(e)
            },
        },
{
    assert(frame.push(0).drop_last() =~= frame);
}

/// The end of a session, and a switch to stream-only, hand the open session file
/// over to be finished, and none stays open.
pub proof fn law_session_end_finishes_the_file(
    c: ConnectionText,
    s: StateText,
    mode_changed: bool,
    session_changed: bool,
)
    requires
        c.sink is Some,
    ensures
        session_over(c, s, session_changed) ==> {
            &&& ended_sink(c, s, session_changed) == c.sink
            &&& after_outputs(c, s, mode_changed, session_changed).sink is None
        },
        session_changed && s.session_file is None ==> session_over(c, s, session_changed),
        mode_changed && s.output_mode == OutputMode::Stream && !session_over(
            c,
            s,
            session_changed,
        ) ==> {
            &&& outputs_step(c, s, mode_changed, session_changed) == SinkStepText::Finalize(
                c.sink->0,
            )
            &&& after_outputs(c, s, mode_changed, session_changed).sink is None
        },
{
}

/// Every session has a file of its own: where another session has taken the place of
/// the one whose file is open, that file is handed over to be finished, and the file
/// of the new session is to be opened.
pub proof fn law_each_session_has_its_own_file(
    c: ConnectionText,
    s: StateText,
    mode_changed: bool,
)
    requires
        c.sink is Some,
        s.session_file is Some,
        s.session_file != Some(c.sink->0.path),
        dumps(if mode_changed {
            s.output_mode
        } else {
            c.mode
        }),
    ensures
        ended_sink(c, s, true) == c.sink,
        after_outputs(c, s, mode_changed, true).sink is None,
        after_outputs(c, s, mode_changed, true).session == s.session_file,
        outputs_step(c, s, mode_changed, true) == match c.chip {
            Some(chip) => SinkStepText::Open { path: s.session_file->0, chip: chip.name },
            None => SinkStepText::Unidentified { path: s.session_file->0 },
        },
{
}

/// A session file that is open stays the same until its session ends or frames are
/// no longer dumped.
pub proof fn law_open_file_is_kept(
    c: ConnectionText,
    s: StateText,
    mode_changed: bool,
    session_changed: bool,
)
    requires
        c.sink is Some,
        session_changed ==> s.session_file == Some(c.sink->0.path),
        dumps(if mode_changed {
            s.output_mode
        } else {
            c.mode
        }),
    ensures
        after_outputs(c, s, mode_changed, session_changed).sink == c.sink,
        outputs_step(c, s, mode_changed, session_changed) == SinkStepText::Keep,
{
}

/// A disconnect leaves nothing of the device's identity, so that nothing is sent
/// until it is verified anew.
pub proof fn law_disconnect_forgets_the_firmware(s: StateText, exit: ConnectionExit)
    ensures
        ({
            let after = task_state(s, TaskEvent::Ended(exit));
            &&& !after.serial_connected
            &&& !after.collection_running
            &&& !after.firmware_verified
            &&& after.device_info is None
            &&& after.coherent()
        }),
{
}

/// A task serves exactly the ports that it opened. It tries again where the port could
/// not be opened and where the link was lost, and ends where it was told to.
pub proof fn law_tasks_end_when_told(event: TaskEvent)
    ensures
        task_step(event) == TaskStep::Serve <==> event == TaskEvent::Opened,
        task_step(event) == TaskStep::Retry <==> event == TaskEvent::OpenFailed || event
            == TaskEvent::Ended(ConnectionExit::Disconnected),
        task_step(event) == TaskStep::Stop <==> event == TaskEvent::ShutdownRequested || event
            == TaskEvent::Ended(ConnectionExit::Shutdown) || event == TaskEvent::Ended(
            ConnectionExit::CommandChannelClosed,
        ),
{
}

/// A device is connected from the opening of its port to the end of the link. It does not
/// collect without one, and its identity ends with the link. Nothing else changes.
pub proof fn law_connected_while_open(s: StateText, event: TaskEvent)
    ensures
        ({
            let after = task_state(s, event);
            &&& event == TaskEvent::Opened ==> after.serial_connected && after.collection_running
                == s.collection_running
            &&& event == TaskEvent::OpenFailed || event is Ended ==> !after.serial_connected
                && !after.collection_running
            &&& event is Ended ==> !after.firmware_verified && after.device_info is None
            &&& !(event is Ended) ==> after.firmware_verified == s.firmware_verified
                && after.device_info == s.device_info
            &&& event == TaskEvent::ShutdownRequested ==> after == s
            &&& after == (StateText {
                serial_connected: after.serial_connected,
                collection_running: after.collection_running,
                firmware_verified: after.firmware_verified,
                device_info: after.device_info,
                ..s
            })
        }),
{
}

/// Exactly one kind of board is reset on opening: the one behind a bridge chip.
pub proof fn law_bridged_boards_are_reset()
    ensures
        reset_on_open(false),
        !reset_on_open(true),
{
}

/// What a link says is what it holds, field by field.
pub proof fn law_connections_show_their_fields(c: Connection)
    ensures
        c@.mode == c.mode,
        c@.drop_next_chunk == c.drop_next_chunk,
        c@.decode_errors == c.decode_errors,
        c@.frames_in == c.frames_in,
        c@.frames_broadcast == c.frames_broadcast,
        c@.session is Some <==> c.session is Some,
        c.session is Some ==> c@.session->0 == c.session->0@,
        c@.sink is Some <==> c.sink is Some,
        c.sink is Some ==> c@.sink->0 == c.sink->0@,
        c@.chip is Some <==> c.chip is Some,
        c.chip is Some ==> c@.chip->0.name == c.chip->0.name@ && c@.chip->0.variant
            == c.chip->0.variant,
{
}

/// What is to be done says what it holds, and so does what goes out for a chunk.
pub proof fn law_steps_show_their_fields(step: SinkStep, f: Forward)
    ensures
        step is Keep <==> step@ is Keep,
        step matches SinkStep::Open { path, chip } ==> step@ == (SinkStepText::Open {
            path: path@,
            chip: chip@,
        }),
        step matches SinkStep::Unidentified { path } ==> step@ == (SinkStepText::Unidentified {
            path: path@,
        }),
        step matches SinkStep::Finalize(k) ==> step@ == SinkStepText::Finalize(k@),
        f@.stream is Some <==> f.stream is Some,
        f.stream is Some ==> f@.stream->0 == f.stream->0@,
        f@.fault is Some <==> f.fault is Some,
        f.fault is Some ==> f@.fault->0 == f.fault->0.reason@,
        f@.write is Some <==> f.write is Some,
{
}

/// Each output mode has its destinations.
pub proof fn law_destinations(mode: OutputMode)
    ensures
        dumps(mode) <==> mode != OutputMode::Stream,
        streams(mode) <==> mode != OutputMode::Dump,
{
}

/// A file is created exactly where frames are dumped, a session is on, its file is not open
/// and the chip is known: at the session's path, for that chip. Where only the chip is
/// missing, that is said. An open file is finished exactly where frames are no longer
/// dumped, and the link then has none.
pub proof fn law_when_files_are_created(c: ConnectionText)
    ensures
        ({
            let due = c.mode != OutputMode::Stream && c.sink is None && c.session is Some;
            &&& sync_step(c) is Open <==> due && c.chip is Some
            &&& sync_step(c) is Unidentified <==> due && c.chip is None
            &&& sync_step(c) is Finalize <==> c.mode == OutputMode::Stream && c.sink is Some
            &&& sync_step(c) matches SinkStepText::Open { path, chip } ==> c.session == Some(path)
                && c.chip->0.name == chip
            &&& sync_step(c) matches SinkStepText::Unidentified { path } ==> c.session == Some(path)
            &&& sync_step(c) matches SinkStepText::Finalize(k) ==> c.sink == Some(k)
            &&& synced(c).sink is Some <==> c.sink is Some && c.mode != OutputMode::Stream
            &&& synced(c).sink is Some ==> synced(c).sink == c.sink
            &&& synced(c) == (ConnectionText { sink: synced(c).sink, ..c })
        }),
{
}

/// A link begins with what the server knows, with the chip that was identified, with
/// nothing counted and no file open, and discards its first chunk.
pub proof fn law_links_begin_afresh(s: StateText, verdict: Result<InfoText, ErrorText>)
    ensures
        ({
            let c = begun(s, verdict);
            &&& c.mode == s.output_mode
            &&& c.session == s.session_file
            &&& c.drop_next_chunk
            &&& c.sink is None
            &&& c.decode_errors == 0 && c.frames_in == 0 && c.frames_broadcast == 0
            &&& verdict matches Ok(info) ==> c.chip == chip_of(info)
            &&& verdict is Err ==> c.chip is None
        }),
{
}

/// What an exchange identified is known from then on, whoever ran it. A failed one clears
/// the identity, unless it was run to look again. Only a hard failure ends the link, and
/// whoever asked is told what went wrong.
pub proof fn law_verdicts(
    s: StateText,
    c: ConnectionText,
    verdict: Result<InfoText, ErrorText>,
)
    ensures
        verdict matches Ok(info) ==> {
            &&& started_state(s, verdict).firmware_verified
            &&& started_state(s, verdict).device_info == Some(info)
            &&& reverified_state(s, verdict) == started_state(s, verdict)
            &&& with_verdict(c, verdict).chip == chip_of(info)
            &&& info_reply(verdict) == Ok::<InfoText, Seq<char>>(info)
        },
        verdict is Err ==> {
            &&& !started_state(s, verdict).firmware_verified
            &&& started_state(s, verdict).device_info is None
            &&& reverified_state(s, verdict) == s
            &&& with_verdict(c, verdict) == c
        },
        verdict matches Err(ErrorText::Soft(m)) ==> exit_after(verdict) is None && info_reply(
            verdict,
        ) == Err::<InfoText, Seq<char>>(m),
        verdict matches Err(ErrorText::Hard(m)) ==> exit_after(verdict) == Some(
            ConnectionExit::Disconnected,
        ) && info_reply(verdict) == Err::<InfoText, Seq<char>>(m),
        exit_after(verdict) is Some ==> verdict is Err,
        with_verdict(c, verdict) == (ConnectionText { chip: with_verdict(c, verdict).chip, ..c }),
        started_state(s, verdict) == (StateText {
            firmware_verified: started_state(s, verdict).firmware_verified,
            device_info: started_state(s, verdict).device_info,
            ..s
        }),
{
}

/// A link takes over the output mode and the session exactly where they changed, and
/// nothing else changes but its file. An open file is left exactly where the session is
/// no longer the one it was opened for.
pub proof fn law_changed_outputs_are_taken_over(
    c: ConnectionText,
    s: StateText,
    mode_changed: bool,
    session_changed: bool,
)
    ensures
        ({
            let after = after_outputs(c, s, mode_changed, session_changed);
            let over = ended_sink(c, s, session_changed);
            &&& after.mode == if mode_changed {
                s.output_mode
            } else {
                c.mode
            }
            &&& after.session == if session_changed {
                s.session_file
            } else {
                c.session
            }
            &&& after == (ConnectionText {
                mode: after.mode,
                session: after.session,
                sink: after.sink,
                ..c
            })
            &&& over is Some <==> session_changed && c.sink is Some && (s.session_file is None
                || s.session_file->0 != c.sink->0.path)
            &&& over is Some ==> over == c.sink
            &&& after.sink is Some ==> after.sink == c.sink && over is None
            &&& (mode_changed || session_changed) && after.sink is Some ==> after.mode
                != OutputMode::Stream
            &&& (mode_changed || session_changed) && over is None && after.mode
                != OutputMode::Stream ==> after.sink == c.sink
            &&& !mode_changed && !session_changed ==> after == c && outputs_step(
                c,
                s,
                mode_changed,
                session_changed,
            ) is Keep
        }),
{
}

/// A frame is what stands before the zero that closes a chunk.
pub proof fn law_frames_are_delimited_by_zero(frame: Seq<u8>)
    ensures
        frame_of(frame.push(0)) == frame,
        frame.len() > 0 && frame.last() != 0 ==> frame_of(frame) == frame,
        frame_of(Seq::empty()).len() == 0,
{
    assert(frame.push(0).drop_last() =~= frame);
}

/// Every frame of a collection is counted once; what is discarded, what is empty, and
/// what comes while nothing is collected is not. A frame that is to be recorded and
/// cannot be decoded counts as one error, and is reported as such.
pub proof fn law_frames_are_counted(
    c: ConnectionText,
    running: bool,
    frame: Seq<u8>,
    t: i64,
)
    requires
        c.frames_in < u64::MAX,
        c.decode_errors < u64::MAX,
    ensures
        ({
            let after = after_chunk(c, running, frame.push(0), t);
            let out = chunk_forward(c, running, frame.push(0), t);
            let taken = running && !c.drop_next_chunk && frame.len() > 0;
            let file = c.mode != OutputMode::Stream && c.sink is Some && c.chip is Some;
            let bad = taken && file && csi::decoded_frame(frame, c.chip->0.variant) is Err;
            &&& after.frames_in == c.frames_in + if taken {
                1int
            } else {
                0
            }
            &&& after.decode_errors == c.decode_errors + if bad {
                1int
            } else {
                0
            }
            &&& !after.drop_next_chunk
            &&& out.fault is Some <==> bad
            &&& out.stream == if taken && c.mode != OutputMode::Dump {
                Some(frame)
            } else {
                None
            }
            &&& !(taken && file) || bad ==> after.sink == c.sink && out.write is None
            &&& taken && file && !bad ==> after.sink == Some(
                after_push(
                    c.sink->0,
                    RowText {
                        host_rx_micros: t,
                        csi: csi::decoded_frame(frame, c.chip->0.variant)->Ok_0,
                    },
                ),
            )
            &&& after == (ConnectionText {
                frames_in: after.frames_in,
                decode_errors: after.decode_errors,
                drop_next_chunk: false,
                sink: after.sink,
                ..c
            })
        }),
{
    assert(frame.push(0).drop_last() =~= frame);
}

/// The first three decode errors are reported with their frame, each later one whose
/// number is a power of two with its number, and no other.
pub proof fn law_decode_reports(n: nat, k: nat)
    requires
        n > 0,
    ensures
        report_of(n) == DecodeReport::Dump <==> n == 1 || n == 2 || n == 3,
        n > 3 && n == vstd::arithmetic::power2::pow2(k) ==> report_of(n) == DecodeReport::Count,
        report_of(n) == DecodeReport::Count ==> n % 2 == 0 && (report_of(n / 2)
            == DecodeReport::Count || n == 4),
        report_of(n) == DecodeReport::Count && n > 3 ==> report_of(2 * n) == DecodeReport::Count,
{
    vstd::arithmetic::power2::lemma2_to64();
    if report_of(n) == DecodeReport::Count {
        let j = choose|j: nat| n == #[trigger] vstd::arithmetic::power2::pow2(j);
        assert(j > 2 || n == 4) by {
            if j == 0 || j == 1 {
                assert(n <= 2);
            }
        }
        assert(j > 0);
        vstd::arithmetic::power2::lemma_pow2_unfold(j);
        vstd::arithmetic::power2::lemma_pow2_unfold((j + 1) as nat);
        assert(n / 2 == vstd::arithmetic::power2::pow2((j - 1) as nat));
        assert(2 * n == vstd::arithmetic::power2::pow2((j + 1) as nat));
        if j > 2 {
            vstd::arithmetic::power2::lemma_pow2_unfold((j - 1) as nat);
            vstd::arithmetic::power2::lemma_pow2_unfold((j - 2) as nat);
            vstd::arithmetic::power2::lemma_pow2_pos((j - 3) as nat);
            assert(n / 2 >= 4);
        }
    }
}

/// Every byte is two digits, the higher one first, in order.
pub proof fn law_hexadecimal_frames(a: Seq<u8>, b: u8, rest: Seq<u8>)
    ensures
        hex(a).len() == 2 * a.len(),
        hex(seq![b]) == seq![
            "0123456789abcdef"@[b as int / 16],
            "0123456789abcdef"@[b as int % 16],
        ],
        hex(a + rest) == hex(a) + hex(rest),
    decreases a.len() + rest.len(),
{
    reveal_strlit("0123456789abcdef");
    assert(seq![b].drop_last() =~= Seq::empty());
    assert(hex(seq![b].drop_last()) =~= Seq::<char>::empty());
    assert(hex(seq![b]) =~= crate::parquet_sink::hex_byte(b));
    if a.len() > 0 {
        law_hexadecimal_frames(a.drop_last(), b, Seq::empty());
    }
    if rest.len() > 0 {
        law_hexadecimal_frames(a, b, rest.drop_last());
        assert((a + rest).drop_last() =~= a + rest.drop_last());
        assert(hex(a + rest) =~= hex(a) + hex(rest));
    } else {
        assert(a + rest =~= a);
        assert(hex(a) + hex(rest) =~= hex(a));
    }
}

/// Draining goes on, and counts, exactly as long as bytes are read.
pub proof fn law_draining(drained: usize, n: usize)
    requires
        drained + n <= usize::MAX,
    ensures
        drained_after(drained, DrainEvent::Read(n)) is Some <==> n > 0,
        n > 0 ==> drained_after(drained, DrainEvent::Read(n))->0 == drained + n,
        drained_after(drained, DrainEvent::Failed) is None,
        drained_after(drained, DrainEvent::Idle) is None,
{
}

/// A link that is over hands over the file that was open, and is as it was but for that.
pub proof fn law_closed_links_leave_their_file(c: ConnectionText)
    ensures
        left_behind(c) is Some <==> c.sink is Some,
        left_behind(c) matches Some(k) ==> k.path == c.sink->0.path && k.rows == c.sink->0.rows,
        left_behind(closed_link(c)) is None,
        (ConnectionText { sink: left_behind(c), ..closed_link(c) }) == c,
{
}

} // verus!
