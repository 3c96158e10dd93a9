use csi_webserver::csi::{ChipVariant, PacketBc5, RxCsiFmt};
use csi_webserver::models::{DeviceInfo, OutputMode};
use csi_webserver::parquet_sink::{FinishStep, ParquetSink, ROW_GROUP_SIZE};
use csi_webserver::serial::connection::{
    decode_report, hex_text, quiesce_stale_stream, resets_on_connect, run_serial_task,
    stop_command, Connection, ConnectionExit, DecodeReport, DrainEvent, SinkStep, TaskEvent,
    TaskStep,
};
use csi_webserver::serial::info::{
    do_info_exchange, find_subsequence, info_command, parse_info_block, parse_info_text, ChipInfo,
    InfoEvent, InfoExchangeError,
};
use csi_webserver::serial::link::{run_serial_connection, LinkEvent, LinkStep};
use csi_webserver::state::AppState;

const BLOCK: &str = "> info\r\nboot noise\r\n  ESP-CSI-CLI/0.5.0\r\nname=esp-csi-cli-rs\r\n\
    version=0.5.0\r\nchip=esp32c5\r\nmac=D0:CF:13:E2:90:E8\r\nprotocol=2\r\n\
    features=statistics, println,,auto\r\njunk line\r\nkey=ignored\r\nEND-INFO\r\n> ";

fn info() -> DeviceInfo {
    parse_info_text(BLOCK).unwrap()
}

fn state() -> AppState {
    let mut s = AppState::new("/dev/ttyACM0".to_string(), 115_200);
    s.serial_connected = true;
    s
}

fn packet() -> PacketBc5 {
    PacketBc5 {
        mac: [1, 2, 3, 4, 5, 6],
        rssi: -60,
        timestamp: 1,
        rate: 2,
        noise_floor: -90,
        sig_len: 3,
        rx_state: 0,
        dump_len: 4,
        cur_bb_format: 5,
        rx_channel_estimate_info_vld: 1,
        rx_channel_estimate_len: 2,
        second: 3,
        channel: 36,
        is_group: 0,
        rxend_state: 0,
        rxmatch3: 0,
        rxmatch2: 0,
        rxmatch1: 1,
        date_time: None,
        sequence_number: 5,
        csi_data_len: 2,
        data_format: RxCsiFmt::Bw20,
        csi_data: vec![0, -7],
    }
}

/// A link that dumps in the given mode, ready for frames.
fn dumping(mode: OutputMode) -> (AppState, Connection) {
    let mut s = state();
    s.output_mode = mode;
    s.session_file = Some("dump.parquet".to_string());
    let (mut c, step) = Connection::start(&mut s, Ok(info())).unwrap();
    match step {
        SinkStep::Open { path, chip } => c.sink_opened(&path, &chip),
        other => panic!("{other:?}"),
    }
    c.drop_next_chunk = false;
    (s, c)
}

#[test]
fn info_blocks_are_parsed() {
    let i = info();
    assert_eq!(i.banner_version, "0.5.0");
    assert_eq!(i.name.as_deref(), Some("esp-csi-cli-rs"));
    assert_eq!(i.version.as_deref(), Some("0.5.0"));
    assert_eq!(i.chip.as_deref(), Some("esp32c5"));
    assert_eq!(i.mac.as_deref(), Some("D0:CF:13:E2:90:E8"));
    assert_eq!(i.protocol, Some(2));
    assert_eq!(i.features, vec!["statistics", "println", "auto"]);
    assert_eq!(i.clone().features, i.features);
}

#[test]
fn later_lines_win_and_values_keep_their_equal_signs() {
    let i = parse_info_text(
        "ESP-CSI-CLI/1\nname=a=b\nname=c=d\nprotocol=2\nprotocol=x\nfeatures=\nEND-INFO",
    )
    .unwrap();
    assert_eq!(i.name.as_deref(), Some("c=d"));
    assert_eq!(i.protocol, None);
    assert!(i.features.is_empty());
    assert_eq!(i.chip, None);
    let i = parse_info_text("ESP-CSI-CLI/\nprotocol=+7\nEND-INFO\nchip=late").unwrap();
    assert_eq!(i.banner_version, "");
    assert_eq!(i.protocol, Some(7));
    assert_eq!(i.chip, None);
}

#[test]
fn blocks_without_prefix_or_sentinel_are_refused() {
    assert_eq!(
        parse_info_text("name=x\nEND-INFO\n").unwrap_err(),
        "info magic prefix 'ESP-CSI-CLI/' not seen — firmware is not esp-csi-cli-rs"
    );
    assert_eq!(
        parse_info_text("END-INFO\nESP-CSI-CLI/0.5.0\nname=x\n").unwrap_err(),
        "END-INFO sentinel not seen in info block"
    );
    assert_eq!(
        parse_info_text("ESP-CSI-CLI/0.5.0\nEND-INFO!\n").unwrap_err(),
        "END-INFO sentinel not seen in info block"
    );
}

#[test]
fn blocks_are_found_among_bytes_that_are_no_text() {
    let mut bytes = vec![0xff, 0xfe, 0x00, b'\n'];
    bytes.extend_from_slice("ESP-CSI-CLI/0.5.0\nchip=grün\nEND-INFO\n".as_bytes());
    let i = parse_info_block(&bytes).unwrap();
    assert_eq!(i.banner_version, "0.5.0");
    assert_eq!(i.chip.as_deref(), Some("grün"));
    assert!(parse_info_block(&[0xff, 0xff]).is_err());
}

#[test]
fn exchanges_end_with_the_sentinel() {
    assert_eq!(info_command(), "info\r\n");
    assert!(do_info_exchange(InfoEvent::Received(b"ESP-CSI-CLI/0.5.0\n".to_vec())).is_none());
    let done = do_info_exchange(InfoEvent::Received(BLOCK.as_bytes().to_vec())).unwrap();
    assert_eq!(done.unwrap().banner_version, "0.5.0");
    let e = do_info_exchange(InfoEvent::Received(b"END-INFO\n".to_vec())).unwrap().unwrap_err();
    assert!(matches!(&e, InfoExchangeError::Soft(_)));
    assert!(e.message().contains("magic prefix"));
}

#[test]
fn exchange_faults_are_soft_or_hard() {
    let fault = |event| do_info_exchange(event).unwrap().unwrap_err();
    let e = fault(InfoEvent::TimedOut);
    assert!(matches!(e, InfoExchangeError::Soft(_)));
    assert_eq!(e.message(), "info command timed out; firmware may not be esp-csi-cli-rs");
    let e = fault(InfoEvent::Closed);
    assert!(matches!(e, InfoExchangeError::Hard(_)));
    assert_eq!(e.message(), "serial closed during info exchange");
    let e = fault(InfoEvent::WriteFailed("gone".to_string()));
    assert!(matches!(e, InfoExchangeError::Hard(_)));
    assert_eq!(e.message(), "Serial write error: gone");
    let e = fault(InfoEvent::ReadFailed("gone".to_string()));
    assert!(matches!(e, InfoExchangeError::Hard(_)));
    assert_eq!(e.message(), "Serial read error: gone");
}

#[test]
fn subsequences_are_found_first() {
    assert_eq!(find_subsequence(b"abcabc", b"bc"), Some(1));
    assert_eq!(find_subsequence(b"abc", b"abc"), Some(0));
    assert_eq!(find_subsequence(b"abc", b"abcd"), None);
    assert_eq!(find_subsequence(b"abc", b""), None);
    assert_eq!(find_subsequence(b"aab", b"ab"), Some(1));
    assert_eq!(find_subsequence(b"abd", b"abc"), None);
}

#[test]
fn only_known_chips_are_identified() {
    let c = ChipInfo::from_info(&info()).unwrap();
    assert_eq!((c.name.as_str(), c.variant), ("esp32c5", ChipVariant::Esp32c5));
    let mut i = info();
    i.chip = Some("unknown".to_string());
    assert!(ChipInfo::from_info(&i).is_none());
    i.chip = None;
    assert!(ChipInfo::from_info(&i).is_none());
}

#[test]
fn the_task_follows_its_link() {
    let mut s = AppState::new("/dev/ttyUSB0".to_string(), 9600);
    assert_eq!(run_serial_task(&mut s, TaskEvent::OpenFailed), TaskStep::Retry);
    assert!(!s.serial_connected);
    assert_eq!(run_serial_task(&mut s, TaskEvent::Opened), TaskStep::Serve);
    assert!(s.serial_connected);
    s.verified(info());
    s.collection_running = true;
    let exit = TaskEvent::Ended(ConnectionExit::Disconnected);
    assert_eq!(run_serial_task(&mut s, exit), TaskStep::Retry);
    assert!(!s.serial_connected && !s.collection_running && !s.firmware_verified);
    assert!(s.device_info.is_none());
    for exit in [ConnectionExit::CommandChannelClosed, ConnectionExit::Shutdown] {
        assert_eq!(run_serial_task(&mut s, TaskEvent::Ended(exit)), TaskStep::Stop);
    }
    assert_eq!(run_serial_task(&mut s, TaskEvent::ShutdownRequested), TaskStep::Stop);
    assert!(resets_on_connect(false));
    assert!(!resets_on_connect(true));
}

#[test]
fn a_link_starts_with_its_verdict() {
    let mut s = state();
    let (c, step) = Connection::start(&mut s, Ok(info())).unwrap();
    assert!(s.firmware_verified && s.device_info.is_some());
    assert!(c.drop_next_chunk);
    assert_eq!(c.chip.as_ref().unwrap().variant, ChipVariant::Esp32c5);
    assert!(matches!(step, SinkStep::Keep));

    let soft = InfoExchangeError::Soft("x".to_string());
    let (c, _) = Connection::start(&mut s, Err(soft)).unwrap();
    assert!(!s.firmware_verified && s.device_info.is_none());
    assert!(c.chip.is_none());

    let hard = InfoExchangeError::Hard("x".to_string());
    let exit = Connection::start(&mut s, Err(hard)).unwrap_err();
    assert_eq!(exit, ConnectionExit::Disconnected);
}

#[test]
fn a_file_needs_dumping_a_session_and_a_chip() {
    let mut s = state();
    s.output_mode = OutputMode::Both;
    let (_, step) = Connection::start(&mut s, Ok(info())).unwrap();
    assert!(matches!(step, SinkStep::Keep));
    s.session_file = Some("dump.parquet".to_string());
    let (_, step) = Connection::start(&mut s, Ok(info())).unwrap();
    assert!(matches!(step, SinkStep::Open { path, chip }
        if path == "dump.parquet" && chip == "esp32c5"));
    let soft = InfoExchangeError::Soft("x".to_string());
    let (_, step) = Connection::start(&mut s, Err(soft)).unwrap();
    assert!(matches!(step, SinkStep::Unidentified { path } if path == "dump.parquet"));
}

#[test]
fn a_session_end_hands_out_the_sink() {
    let (mut s, mut c) = dumping(OutputMode::Dump);
    let (ended, step) = c.outputs_changed(&s, true, false);
    assert!(ended.is_none() && matches!(step, SinkStep::Keep));
    s.session_file = None;
    let (ended, step) = c.outputs_changed(&s, false, true);
    assert_eq!(ended.unwrap().path, "dump.parquet");
    assert!(matches!(step, SinkStep::Keep));
    assert!(c.sink.is_none() && c.session.is_none());
}

#[test]
fn a_session_that_follows_at_once_gets_its_own_file() {
    let (mut s, mut c) = dumping(OutputMode::Dump);
    c.chunk_at(true, packet().to_frame(), 1);
    s.session_file = Some("next.parquet".to_string());
    let (ended, step) = c.outputs_changed(&s, false, true);
    let ended = ended.unwrap();
    assert_eq!((ended.path.as_str(), ended.buffer.len()), ("dump.parquet", 1));
    assert!(c.sink.is_none());
    match step {
        SinkStep::Open { path, chip } => {
            assert_eq!((path.as_str(), chip.as_str()), ("next.parquet", "esp32c5"));
            c.sink_opened(&path, &chip);
        }
        other => panic!("{other:?}"),
    }
    c.chunk_at(true, packet().to_frame(), 2);
    let sink = c.sink.as_ref().unwrap();
    assert_eq!((sink.path.as_str(), sink.buffer.len()), ("next.parquet", 1));

    // Another look at the same session leaves the file alone.
    let (ended, step) = c.outputs_changed(&s, false, true);
    assert!(ended.is_none() && matches!(step, SinkStep::Keep));
    assert_eq!(c.sink.as_ref().unwrap().buffer.len(), 1);

    // A new session is finished with too where frames are no longer dumped.
    s.session_file = Some("third.parquet".to_string());
    s.output_mode = OutputMode::Stream;
    let (ended, step) = c.outputs_changed(&s, true, true);
    assert_eq!(ended.unwrap().path, "next.parquet");
    assert!(matches!(step, SinkStep::Keep) && c.sink.is_none());
}

#[test]
fn the_end_of_a_link_hands_over_its_file() {
    let ends = [LinkEvent::Lost, LinkEvent::Shutdown, LinkEvent::CommandsClosed];
    for event in ends {
        let (mut s, mut c) = dumping(OutputMode::Both);
        s.collection_running = true;
        run_serial_connection(&mut c, &mut s, LinkEvent::Chunk(packet().to_frame()));
        assert!(matches!(run_serial_connection(&mut c, &mut s, event), LinkStep::Exit(_)));
        let mut sink = c.end().unwrap();
        assert_eq!((sink.path.as_str(), sink.buffer.len()), ("dump.parquet", 1));
        assert!(matches!(sink.finish(), FinishStep::WriteThenClose(_)));
        assert!(c.end().is_none());
    }
    let mut s = state();
    let (mut c, _) = Connection::start(&mut s, Ok(info())).unwrap();
    assert!(c.end().is_none());
}

#[test]
fn a_mode_switch_governs_the_next_frame() {
    let (mut s, mut c) = dumping(OutputMode::Dump);
    s.collection_running = true;
    let frame = packet().to_frame();
    let body = frame[..frame.len() - 1].to_vec();
    for mode in [OutputMode::Stream, OutputMode::Dump, OutputMode::Both] {
        s.output_mode = mode;
        let switched = LinkEvent::Outputs { mode_changed: true, session_changed: false };
        match run_serial_connection(&mut c, &mut s, switched) {
            LinkStep::Session(_, SinkStep::Open { path, chip }) => {
                run_serial_connection(&mut c, &mut s, LinkEvent::SinkOpened { path, chip });
            }
            LinkStep::Session(_, _) => {}
            other => panic!("{other:?}"),
        }
        let rows = c.sink.as_ref().map(|k| k.buffer.len());
        let out = match run_serial_connection(&mut c, &mut s, LinkEvent::Chunk(frame.clone())) {
            LinkStep::Forward(out) => out,
            other => panic!("{other:?}"),
        };
        let streams = mode != OutputMode::Dump;
        assert_eq!(out.stream, if streams { Some(body.clone()) } else { None });
        let dumps = mode != OutputMode::Stream;
        assert_eq!(rows.is_some(), dumps);
        assert_eq!(c.sink.as_ref().map(|k| k.buffer.len()), rows.map(|n| n + 1));
    }
}

#[test]
fn switching_to_stream_finishes_the_file_and_back_opens_one() {
    let (mut s, mut c) = dumping(OutputMode::Dump);
    s.output_mode = OutputMode::Stream;
    let (ended, step) = c.outputs_changed(&s, true, false);
    assert!(ended.is_none());
    assert!(matches!(step, SinkStep::Finalize(sink) if sink.path == "dump.parquet"));
    assert!(c.sink.is_none());
    s.output_mode = OutputMode::Both;
    let (_, step) = c.outputs_changed(&s, true, false);
    assert!(matches!(step, SinkStep::Open { .. }));
    let (_, step) = c.outputs_changed(&s, false, false);
    assert!(matches!(step, SinkStep::Keep));
}

#[test]
fn frames_go_where_the_mode_says() {
    let frame = packet().to_frame();
    let body = frame[..frame.len() - 1].to_vec();

    let (_, mut c) = dumping(OutputMode::Both);
    let out = c.chunk_at(true, frame.clone(), 77);
    assert_eq!(out.stream, Some(body.clone()));
    assert!(out.write.is_none() && out.fault.is_none());
    let sink = c.sink.as_ref().unwrap();
    assert_eq!(sink.buffer.len(), 1);
    assert_eq!(sink.buffer[0].host_rx_micros, 77);
    assert_eq!(sink.buffer[0].csi.channel, 36);
    assert_eq!(sink.buffer[0].csi.csi_data, vec![0, -7]);
    assert_eq!(c.frames_in, 1);

    let (_, mut c) = dumping(OutputMode::Dump);
    let out = c.chunk_at(true, frame.clone(), 0);
    assert_eq!(out.stream, None);
    assert_eq!(c.sink.as_ref().unwrap().buffer.len(), 1);

    let mut s = state();
    let (mut c, _) = Connection::start(&mut s, Ok(info())).unwrap();
    c.drop_next_chunk = false;
    let out = c.chunk_at(true, frame, 0);
    assert_eq!(out.stream, Some(body));
    assert!(c.sink.is_none());
}

#[test]
fn frames_are_stamped_with_the_time_of_receipt() {
    let (_, mut c) = dumping(OutputMode::Dump);
    c.chunk(true, packet().to_frame());
    let stamp = c.sink.as_ref().unwrap().buffer[0].host_rx_micros;
    assert!(stamp > 1_600_000_000_000_000);
}

#[test]
fn nothing_goes_out_unless_a_collection_runs() {
    let (_, mut c) = dumping(OutputMode::Both);
    let out = c.chunk_at(false, packet().to_frame(), 0);
    assert!(out.stream.is_none() && out.write.is_none() && out.fault.is_none());
    assert!(c.sink.as_ref().unwrap().buffer.is_empty());
    assert_eq!(c.frames_in, 0);
    let out = c.chunk_at(true, vec![0], 0);
    assert!(out.stream.is_none());
    assert_eq!(c.frames_in, 0);
}

#[test]
fn the_first_chunk_after_a_command_is_dropped() {
    let (s, mut c) = dumping(OutputMode::Both);
    assert_eq!(c.command("start"), "start\r\n");
    let out = c.chunk_at(true, packet().to_frame(), 0);
    assert!(out.stream.is_none());
    assert_eq!(c.frames_in, 0);
    assert!(c.chunk_at(true, packet().to_frame(), 0).stream.is_some());
    c.probe();
    assert!(c.chunk_at(true, packet().to_frame(), 0).stream.is_none());
    assert!(c.info_requested(&s).is_none());
    assert!(c.chunk_at(true, packet().to_frame(), 0).stream.is_none());
}

#[test]
fn frames_that_do_not_decode_are_counted() {
    let (_, mut c) = dumping(OutputMode::Both);
    let out = c.chunk_at(true, vec![3, 1, 0], 0);
    assert!(out.fault.is_some());
    assert_eq!(out.stream, Some(vec![3, 1]));
    assert_eq!(c.decode_errors, 1);
    assert!(c.sink.as_ref().unwrap().buffer.is_empty());
}

#[test]
fn full_buffers_are_written_and_cleared() {
    let (_, mut c) = dumping(OutputMode::Dump);
    for i in 1..ROW_GROUP_SIZE {
        assert!(c.chunk_at(true, packet().to_frame(), i as i64).write.is_none());
    }
    assert!(c.chunk_at(true, packet().to_frame(), 0).write.is_some());
    c.batch_written();
    assert!(c.sink.as_ref().unwrap().buffer.is_empty());
}

#[test]
fn metrics_are_reported_while_collecting() {
    let mut s = state();
    let (mut c, _) = Connection::start(&mut s, Ok(info())).unwrap();
    c.drop_next_chunk = false;
    c.chunk_at(true, vec![5, 0], 0);
    c.chunk_at(true, vec![6, 0], 0);
    c.broadcast_done(true);
    c.broadcast_done(false);
    assert_eq!(c.metrics_tick(true), Some((2, 1)));
    assert_eq!(c.metrics_tick(true), Some((0, 0)));
    assert_eq!(c.metrics_tick(false), None);
}

#[test]
fn verification_is_retried_while_unverified_and_idle() {
    let mut s = state();
    assert!(Connection::reverify_due(&s));
    s.collection_running = true;
    assert!(!Connection::reverify_due(&s));
    s.collection_running = false;
    let soft = InfoExchangeError::Soft("x".to_string());
    let (mut c, _) = Connection::start(&mut s, Err(soft)).unwrap();
    let soft = InfoExchangeError::Soft("x".to_string());
    assert_eq!(c.reverified(&mut s, Err(soft)), None);
    assert!(!s.firmware_verified);
    assert_eq!(c.reverified(&mut s, Ok(info())), None);
    assert!(s.firmware_verified && c.chip.is_some());
    assert!(!Connection::reverify_due(&s));
    let hard = InfoExchangeError::Hard("x".to_string());
    assert_eq!(c.reverified(&mut s, Err(hard)), Some(ConnectionExit::Disconnected));
    assert!(s.firmware_verified);
}

#[test]
fn info_requests_are_refused_while_collecting() {
    let mut s = state();
    let (mut c, _) = Connection::start(&mut s, Ok(info())).unwrap();
    c.drop_next_chunk = false;
    s.collection_running = true;
    assert_eq!(
        c.info_requested(&s).as_deref(),
        Some("collection is running; CLI is locked until stop")
    );
    assert!(!c.drop_next_chunk);
    s.collection_running = false;
    assert_eq!(c.info_requested(&s), None);
    let (reply, exit) = c.info_answered(&mut s, Ok(info()));
    assert_eq!(reply.unwrap().chip.as_deref(), Some("esp32c5"));
    assert_eq!(exit, None);
    let soft = InfoExchangeError::Soft("why".to_string());
    let (reply, exit) = c.info_answered(&mut s, Err(soft));
    assert_eq!((reply.unwrap_err().as_str(), exit), ("why", None));
    assert!(!s.firmware_verified && s.device_info.is_none());
    let hard = InfoExchangeError::Hard("gone".to_string());
    let (reply, exit) = c.info_answered(&mut s, Err(hard));
    assert_eq!(reply.unwrap_err(), "gone");
    assert_eq!(exit, Some(ConnectionExit::Disconnected));
}

#[test]
fn decode_errors_are_reported_with_restraint() {
    for n in 1..4 {
        assert_eq!(decode_report(n), DecodeReport::Dump);
    }
    for n in [4, 8, 1024, 1 << 63] {
        assert_eq!(decode_report(n), DecodeReport::Count);
    }
    for n in [5, 7, 1023, u64::MAX] {
        assert_eq!(decode_report(n), DecodeReport::Quiet);
    }
    assert_eq!(hex_text(&[0, 0x0f, 0xa0, 0xff]), "000fa0ff");
    assert_eq!(hex_text(&[]), "");
}

#[test]
fn stale_streams_are_drained_until_they_stop() {
    assert_eq!(stop_command(), "q\r\n");
    assert_eq!(quiesce_stale_stream(0, DrainEvent::Read(2048)), Some(2048));
    assert_eq!(quiesce_stale_stream(2048, DrainEvent::Read(2)), Some(2050));
    assert_eq!(quiesce_stale_stream(7, DrainEvent::Read(0)), None);
    assert_eq!(quiesce_stale_stream(7, DrainEvent::Failed), None);
    assert_eq!(quiesce_stale_stream(7, DrainEvent::Idle), None);
}

#[test]
fn a_new_sink_is_open_and_empty() {
    let s = ParquetSink::open("p", "esp32");
    assert!(s.open && s.buffer.is_empty());
    assert_eq!((s.path.as_str(), s.chip.as_str()), ("p", "esp32"));
}

#[test]
fn link_events_are_answered_by_steps() {
    let (mut s, mut c) = dumping(OutputMode::Both);
    let mut step = |s: &mut AppState, e: LinkEvent| run_serial_connection(&mut c, s, e);

    assert!(matches!(step(&mut s, LinkEvent::Tick), LinkStep::Wait));
    assert!(matches!(step(&mut s, LinkEvent::ProbeDue), LinkStep::Wait));
    match step(&mut s, LinkEvent::Command("start".to_string())) {
        LinkStep::Write(line) => assert_eq!(line, "start\r\n"),
        other => panic!("{other:?}"),
    }

    s.collection_running = true;
    match step(&mut s, LinkEvent::Chunk(packet().to_frame())) {
        LinkStep::Forward(out) => assert!(out.stream.is_none() && out.fault.is_none()),
        other => panic!("{other:?}"),
    }
    match step(&mut s, LinkEvent::Chunk(vec![9, 9, 0])) {
        LinkStep::Forward(out) => {
            assert_eq!(out.stream, Some(vec![9, 9]));
            assert!(out.fault.is_some() && out.write.is_none());
        }
        other => panic!("{other:?}"),
    }
    assert!(matches!(step(&mut s, LinkEvent::Broadcast(true)), LinkStep::Wait));
    assert!(matches!(step(&mut s, LinkEvent::Tick), LinkStep::Report(1, 1)));
    match step(&mut s, LinkEvent::InfoRequested) {
        LinkStep::Refuse(m) => assert_eq!(m, "collection is running; CLI is locked until stop"),
        other => panic!("{other:?}"),
    }

    s.collection_running = false;
    assert!(matches!(step(&mut s, LinkEvent::InfoRequested), LinkStep::Exchange));
    let lost = Err(InfoExchangeError::Hard("gone".to_string()));
    match step(&mut s, LinkEvent::InfoExchanged(lost)) {
        LinkStep::Answer(Err(m), Some(ConnectionExit::Disconnected)) => assert_eq!(m, "gone"),
        other => panic!("{other:?}"),
    }
    assert!(!s.firmware_verified);
    assert!(matches!(step(&mut s, LinkEvent::ProbeDue), LinkStep::Probe));
    assert!(matches!(step(&mut s, LinkEvent::Probed(Ok(info()))), LinkStep::Wait));
    assert!(s.firmware_verified);

    let ends = [
        (LinkEvent::Shutdown, ConnectionExit::Shutdown),
        (LinkEvent::Lost, ConnectionExit::Disconnected),
        (LinkEvent::CommandsClosed, ConnectionExit::CommandChannelClosed),
    ];
    for (event, exit) in ends {
        match step(&mut s, event) {
            LinkStep::Exit(e) => assert_eq!(e, exit),
            other => panic!("{other:?}"),
        }
    }
}

#[test]
fn asked_files_are_taken_and_stay_open_for_their_session() {
    let mut s = state();
    let (mut c, _) = Connection::start(&mut s, Ok(info())).unwrap();
    s.output_mode = OutputMode::Dump;
    s.session_file = Some("run.parquet".to_string());
    let both = LinkEvent::Outputs { mode_changed: true, session_changed: true };
    let (path, chip) = match run_serial_connection(&mut c, &mut s, both) {
        LinkStep::Session(None, SinkStep::Open { path, chip }) => (path, chip),
        other => panic!("{other:?}"),
    };
    assert_eq!((path.as_str(), chip.as_str()), ("run.parquet", "esp32c5"));
    run_serial_connection(&mut c, &mut s, LinkEvent::SinkOpened { path, chip });
    assert!(c.sink.is_some());
    run_serial_connection(&mut c, &mut s, LinkEvent::BatchWritten);
    assert!(c.sink.is_some());

    s.session_file = None;
    let ended = LinkEvent::Outputs { mode_changed: false, session_changed: true };
    match run_serial_connection(&mut c, &mut s, ended) {
        LinkStep::Session(Some(_), SinkStep::Keep) => {}
        other => panic!("{other:?}"),
    }
    assert!(c.sink.is_none());
}
