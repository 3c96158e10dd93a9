use csi_webserver::csi::{
    decode, finish_a, finish_bc5, finish_bc6, ChipVariant, DateTime, DecodedCsi, PacketA,
    PacketBc5, PacketBc6, RxCsiFmt,
};

fn packet_a() -> PacketA {
    PacketA {
        mac: [0xde, 0xad, 0xbe, 0xef, 0x00, 0x01],
        rssi: -42,
        timestamp: 123_456,
        rate: 11,
        sgi: 1,
        secondary_channel: 0,
        channel: 6,
        bandwidth: 0,
        antenna: 0,
        sig_mode: 1,
        mcs: 7,
        smoothing: 0,
        not_sounding: 1,
        aggregation: 0,
        stbc: 0,
        fec_coding: 0,
        ampdu_cnt: 0,
        noise_floor: -96,
        rx_state: 0,
        sig_len: 128,
        date_time: Some(DateTime {
            year: 2026,
            month: 6,
            day: 22,
            hour: 12,
            minute: 30,
            second: 15,
            millisecond: 250,
        }),
        sequence_number: 4242,
        data_format: RxCsiFmt::HtBw20,
        csi_data_len: 4,
        csi_data: vec![1, -2, 3, -4],
    }
}

fn packet_bc6() -> PacketBc6 {
    PacketBc6 {
        mac: [1, 2, 3, 4, 5, 6],
        rssi: -55,
        timestamp: 9,
        rate: 1,
        noise_floor: -90,
        sig_len: 64,
        rx_state: 0,
        dump_len: 100,
        he_sigb_len: 7,
        cur_single_mpdu: 1,
        cur_bb_format: 2,
        rx_channel_estimate_info_vld: 1,
        rx_channel_estimate_len: 64,
        second: 3,
        channel: 11,
        is_group: 0,
        rxend_state: 0,
        rxmatch3: 0,
        rxmatch2: 0,
        rxmatch1: 1,
        rxmatch0: 1,
        date_time: None,
        sequence_number: 7,
        csi_data_len: 2,
        data_format: RxCsiFmt::Undefined,
        csi_data: vec![-1, 1],
    }
}

fn packet_bc5() -> PacketBc5 {
    PacketBc5 {
        mac: [0xde, 0xad, 0xbe, 0xef, 0x00, 0x05],
        rssi: -61,
        timestamp: 123456,
        rate: 1,
        noise_floor: -92,
        sig_len: 80,
        rx_state: 0,
        dump_len: 384,
        cur_bb_format: 2,
        rx_channel_estimate_info_vld: 1,
        rx_channel_estimate_len: 384,
        second: 7,
        channel: 149,
        is_group: 0,
        rxend_state: 0,
        rxmatch3: 0,
        rxmatch2: 0,
        rxmatch1: 1,
        date_time: None,
        sequence_number: 99,
        csi_data_len: 4,
        data_format: RxCsiFmt::Undefined,
        csi_data: vec![1, -2, 3, -4],
    }
}

type Head = ([u8; 6], i32, u32, u32, u32, u32, u32, u32, u32, u32, u32, u32, u32, u32, u32, u32);
type Time = Option<(u64, u64, u64, u64, u64, u64, u64)>;
type Tail = (u32, i32, u32, u32, Time, u16, u32, u16, Vec<i8>);

/// The fields of the packet in the order of the wire.
fn wire_a(p: &PacketA) -> (Head, Tail) {
    let time = p
        .date_time
        .map(|d| (d.year, d.month, d.day, d.hour, d.minute, d.second, d.millisecond));
    (
        (
            p.mac, p.rssi, p.timestamp, p.rate, p.sgi, p.secondary_channel, p.channel,
            p.bandwidth, p.antenna, p.sig_mode, p.mcs, p.smoothing, p.not_sounding,
            p.aggregation, p.stbc, p.fec_coding,
        ),
        (
            p.ampdu_cnt, p.noise_floor, p.rx_state, p.sig_len, time, p.sequence_number,
            p.data_format.wire_index(), p.csi_data_len, p.csi_data.clone(),
        ),
    )
}

type HeadB = ([u8; 6], i32, u32, u32, i32, u32, u32, u32);
type MiddleB = (u32, u32, u32, u32, u32, u32, u32, u32, u32, u32);
type TailB = (Option<u8>, u16, u16, u32, Vec<i8>);

fn wire_bc5(p: &PacketBc5) -> (HeadB, MiddleB, TailB) {
    (
        (
            p.mac, p.rssi, p.timestamp, p.rate, p.noise_floor, p.sig_len, p.rx_state, p.dump_len,
        ),
        (
            p.cur_bb_format, p.rx_channel_estimate_info_vld, p.rx_channel_estimate_len, p.second,
            p.channel, p.is_group, p.rxend_state, p.rxmatch3, p.rxmatch2, p.rxmatch1,
        ),
        (
            None, p.sequence_number, p.csi_data_len, p.data_format.wire_index(),
            p.csi_data.clone(),
        ),
    )
}

fn wire_bc6(p: &PacketBc6) -> (HeadB, (u32, u32), MiddleB, u32, TailB) {
    (
        (
            p.mac, p.rssi, p.timestamp, p.rate, p.noise_floor, p.sig_len, p.rx_state, p.dump_len,
        ),
        (p.he_sigb_len, p.cur_single_mpdu),
        (
            p.cur_bb_format, p.rx_channel_estimate_info_vld, p.rx_channel_estimate_len, p.second,
            p.channel, p.is_group, p.rxend_state, p.rxmatch3, p.rxmatch2, p.rxmatch1,
        ),
        p.rxmatch0,
        (
            None, p.sequence_number, p.csi_data_len, p.data_format.wire_index(),
            p.csi_data.clone(),
        ),
    )
}


#[test]
fn decode_packet_a_roundtrip() {
    let pkt = PacketA {
        mac: [0xde, 0xad, 0xbe, 0xef, 0x00, 0x01],
        rssi: -42,
        timestamp: 123_456,
        rate: 11,
        sgi: 1,
        secondary_channel: 0,
        channel: 6,
        bandwidth: 0,
        antenna: 0,
        sig_mode: 1,
        mcs: 7,
        smoothing: 0,
        not_sounding: 1,
        aggregation: 0,
        stbc: 0,
        fec_coding: 0,
        ampdu_cnt: 0,
        noise_floor: -96,
        rx_state: 0,
        sig_len: 128,
        date_time: Some(DateTime {
            year: 2026,
            month: 6,
            day: 22,
            hour: 12,
            minute: 30,
            second: 15,
            millisecond: 250,
        }),
        sequence_number: 4242,
        data_format: RxCsiFmt::HtBw20,
        csi_data_len: 4,
        csi_data: vec![1, -2, 3, -4],
    };

    let mut buf = vec![0u8; 1024];
    let cobs = postcard::to_slice_cobs(&wire_a(&pkt), &mut buf).unwrap();
    assert_eq!(pkt.to_frame(), cobs.to_vec());
    let body = cobs.strip_suffix(&[0]).unwrap_or(cobs);

    let out = decode(body, ChipVariant::Esp32Family).unwrap();
    assert_eq!(out.mac, pkt.mac);
    assert_eq!(out.rssi, -42);
    assert_eq!(out.channel, 6);
    assert_eq!(out.mcs, Some(7));
    assert_eq!(out.noise_floor, -96);
    assert_eq!(out.sequence_number, 4242);
    assert_eq!(out.data_format, RxCsiFmt::HtBw20);
    assert_eq!(out.csi_data, vec![1, -2, 3, -4]);
    assert_eq!(out.dump_len, None);
    let dt = out.date_time.expect("date_time present");
    assert_eq!((dt.year, dt.month, dt.day), (2026, 6, 22));
}

#[test]
fn decode_packet_bc6_roundtrip() {
    let pkt = PacketBc6 {
        mac: [1, 2, 3, 4, 5, 6],
        rssi: -55,
        timestamp: 9,
        rate: 1,
        noise_floor: -90,
        sig_len: 64,
        rx_state: 0,
        dump_len: 100,
        he_sigb_len: 7,
        cur_single_mpdu: 1,
        cur_bb_format: 2,
        rx_channel_estimate_info_vld: 1,
        rx_channel_estimate_len: 64,
        second: 3,
        channel: 11,
        is_group: 0,
        rxend_state: 0,
        rxmatch3: 0,
        rxmatch2: 0,
        rxmatch1: 1,
        rxmatch0: 1,
        date_time: None,
        sequence_number: 7,
        csi_data_len: 2,
        data_format: RxCsiFmt::Undefined,
        csi_data: vec![-1, 1],
    };

    let mut buf = vec![0u8; 1024];
    let cobs = postcard::to_slice_cobs(&wire_bc6(&pkt), &mut buf).unwrap();
    assert_eq!(pkt.to_frame(), cobs.to_vec());
    let body = cobs.strip_suffix(&[0]).unwrap_or(cobs);

    let out = decode(body, ChipVariant::Esp32c6).unwrap();
    assert_eq!(out.mac, [1, 2, 3, 4, 5, 6]);
    assert_eq!(out.he_sigb_len, Some(7));
    assert_eq!(out.rxmatch0, Some(1));
    assert_eq!(out.sgi, None);
    assert_eq!(out.csi_data, vec![-1, 1]);
    assert!(out.date_time.is_none());
}

#[test]
fn decode_packet_bc5_roundtrip() {
    let pkt = PacketBc5 {
        mac: [0xde, 0xad, 0xbe, 0xef, 0x00, 0x05],
        rssi: -61,
        timestamp: 123456,
        rate: 1,
        noise_floor: -92,
        sig_len: 80,
        rx_state: 0,
        dump_len: 384,
        cur_bb_format: 2,
        rx_channel_estimate_info_vld: 1,
        rx_channel_estimate_len: 384,
        second: 7,
        channel: 149,
        is_group: 0,
        rxend_state: 0,
        rxmatch3: 0,
        rxmatch2: 0,
        rxmatch1: 1,
        date_time: None,
        sequence_number: 99,
        csi_data_len: 4,
        data_format: RxCsiFmt::Undefined,
        csi_data: vec![1, -2, 3, -4],
    };

    let mut buf = vec![0u8; 2048];
    let cobs = postcard::to_slice_cobs(&wire_bc5(&pkt), &mut buf).unwrap();
    assert_eq!(pkt.to_frame(), cobs.to_vec());
    let body = cobs.strip_suffix(&[0]).unwrap_or(cobs);

    let out = decode(body, ChipVariant::Esp32c5).unwrap();
    assert_eq!(out.channel, 149);
    assert_eq!(out.mac, [0xde, 0xad, 0xbe, 0xef, 0x00, 0x05]);
    assert_eq!(out.csi_data, vec![1, -2, 3, -4]);
    assert_eq!(out.dump_len, Some(384));
    assert_eq!(out.sgi, None);
}

#[test]
fn chip_string_mapping() {
    assert_eq!(ChipVariant::from_chip_str("ESP32"), Some(ChipVariant::Esp32Family));
    assert_eq!(ChipVariant::from_chip_str("esp32c6"), Some(ChipVariant::Esp32c6));
    assert_eq!(ChipVariant::from_chip_str("esp32c5"), Some(ChipVariant::Esp32c5));
    assert_eq!(ChipVariant::from_chip_str("weird"), None);
}

#[test]
fn chip_names_are_trimmed_and_case_does_not_matter() {
    assert_eq!(ChipVariant::from_chip_str("  Esp32S3\r\n"), Some(ChipVariant::Esp32Family));
    assert_eq!(ChipVariant::from_chip_str("esp32s2"), Some(ChipVariant::Esp32Family));
    assert_eq!(ChipVariant::from_chip_str("esp32c3"), Some(ChipVariant::Esp32Family));
    assert_eq!(ChipVariant::from_chip_str("esp32 c3"), None);
    assert_eq!(ChipVariant::from_chip_str(""), None);
}

#[test]
fn a_packet_of_zeros_has_the_expected_bytes() {
    let pkt = PacketBc5 {
        mac: [0; 6],
        rssi: 0,
        timestamp: 0,
        rate: 0,
        noise_floor: 0,
        sig_len: 0,
        rx_state: 0,
        dump_len: 0,
        cur_bb_format: 0,
        rx_channel_estimate_info_vld: 0,
        rx_channel_estimate_len: 0,
        second: 0,
        channel: 0,
        is_group: 0,
        rxend_state: 0,
        rxmatch3: 0,
        rxmatch2: 0,
        rxmatch1: 0,
        date_time: None,
        sequence_number: 0,
        csi_data_len: 0,
        data_format: RxCsiFmt::Bw20,
        csi_data: vec![],
    };
    // 28 zero bytes of payload: COBS turns each into the distance to the next.
    let mut expected = vec![1u8; 29];
    expected.push(0);
    assert_eq!(pkt.to_frame(), expected);
}

#[test]
fn frames_hold_a_single_zero() {
    for frame in [packet_a().to_frame(), packet_bc5().to_frame(), packet_bc6().to_frame()] {
        assert_eq!(frame.iter().filter(|b| **b == 0).count(), 1);
        assert_eq!(frame.last(), Some(&0));
    }
}

#[test]
fn bytes_after_the_record_are_tolerated() {
    let padded = (wire_bc6(&packet_bc6()), (9u8, 9u8, 9u8));
    let mut buf = vec![0u8; 1024];
    let cobs = postcard::to_slice_cobs(&padded, &mut buf).unwrap();
    let body = cobs.strip_suffix(&[0]).unwrap();
    let out = decode(body, ChipVariant::Esp32c6).unwrap();
    assert_eq!(out.csi_data, vec![-1, 1]);
    assert_eq!(out.rxmatch0, Some(1));
}

#[test]
fn frames_may_go_on_behind_their_record() {
    let sent = packet_bc5().to_frame();
    let body = &sent[..sent.len() - 1];
    let tails: [&[u8]; 3] = [&[1], &[1, 1, 1], &[3, 7, 8, 2, 9]];
    for tail in tails {
        let longer = [body, tail].concat();
        assert_eq!(decode(&longer, ChipVariant::Esp32c5).unwrap().sequence_number, 99);
    }
    let rests: [&[u8]; 3] = [&[], &[0, 0], &[200, 1, 0]];
    for rest in rests {
        let longer = [sent.as_slice(), rest].concat();
        assert_eq!(decode(&longer, ChipVariant::Esp32c5).unwrap().sequence_number, 99);
    }
}

#[test]
fn garbled_frames_are_reported() {
    let e = decode(&[], ChipVariant::Esp32Family).unwrap_err();
    assert!(e.message().starts_with("failed to decode CSI frame: "));
    assert_eq!(e.message(), format!("failed to decode CSI frame: {}", e.reason));

    let truncated = packet_a().to_frame();
    let e = decode(&truncated[..10], ChipVariant::Esp32Family).unwrap_err();
    assert!(!e.reason.is_empty());
}

#[test]
fn a_frame_is_read_in_the_layout_of_its_chip() {
    let frame = packet_bc5().to_frame();
    let body = &frame[..frame.len() - 1];
    let right = decode(body, ChipVariant::Esp32c5).unwrap();
    assert_eq!(right.sequence_number, 99);
    match decode(body, ChipVariant::Esp32Family) {
        Ok(wrong) => assert_ne!(wrong.sequence_number, 99),
        Err(e) => assert!(!e.reason.is_empty()),
    }
}

fn wire_with_format(index: u32) -> csi_webserver::csi::WireBc5 {
    (
        ([1, 2, 3, 4, 5, 6], -1, 2, 3, -4, 5, 6, 7),
        (8, 9, 10, 11, 12),
        (13, 14, 15, 16, 17),
        (None, 18, 19, index, vec![20]),
    )
}

#[test]
fn every_data_format_has_its_index() {
    let names = [
        "Bw20",
        "HtBw20",
        "HtBw20Stbc",
        "SecbBw20",
        "SecbHtBw20",
        "SecbHtBw20Stbc",
        "SecbHtBw40",
        "SecbHtBw40Stbc",
        "SecaBw20",
        "SecaHtBw20",
        "SecaHtBw20Stbc",
        "SecaHtBw40",
        "SecaHtBw40Stbc",
        "Undefined",
    ];
    for (i, name) in names.iter().enumerate() {
        let f = RxCsiFmt::from_wire_index(i as u32).unwrap();
        assert_eq!(f.as_str(), *name);
        assert_eq!(f.wire_index(), i as u32);
        let d = finish_bc5(Ok(wire_with_format(i as u32)), None).unwrap();
        assert_eq!(d.data_format, f);
    }
    assert_eq!(RxCsiFmt::from_wire_index(names.len() as u32), None);
}

#[test]
fn unknown_data_formats_are_refused() {
    let e = finish_bc5(Ok(wire_with_format(14)), None).unwrap_err();
    assert_eq!(e.reason, "Serde Deserialization Error");
    assert_eq!(e.message(), "failed to decode CSI frame: Serde Deserialization Error");
}

#[test]
fn read_errors_are_passed_on() {
    let end = || Err("Hit the end of buffer".to_string());
    assert_eq!(finish_a(end(), None).unwrap_err().reason, "Hit the end of buffer");
    assert_eq!(finish_a(end(), Some(3)).unwrap_err().reason, "Hit the end of buffer");
    assert!(finish_bc6(Err("x".to_string()), None).is_err());
}

#[test]
fn an_unknown_data_format_comes_before_what_is_wrong_behind_it() {
    let end = || Err("Hit the end of buffer".to_string());
    let unknown = "Serde Deserialization Error";
    assert_eq!(finish_a(end(), Some(14)).unwrap_err().reason, unknown);
    assert_eq!(finish_bc5(Err("x".to_string()), Some(99)).unwrap_err().reason, unknown);
    assert_eq!(finish_bc6(Err("x".to_string()), Some(14)).unwrap_err().reason, unknown);

    // Records that end right behind the data format.
    let a = |format: u32| {
        let w = wire_a(&packet_a());
        let t = w.1;
        postcard::to_stdvec_cobs(&(w.0, (t.0, t.1, t.2, t.3, t.4, t.5, format))).unwrap()
    };
    let bc5 = |format: u32| {
        let w = wire_bc5(&packet_bc5());
        postcard::to_stdvec_cobs(&(w.0, w.1, (w.2 .0, w.2 .1, w.2 .2, format))).unwrap()
    };
    let bc6 = |format: u32| {
        let w = wire_bc6(&packet_bc6());
        let t = w.4;
        postcard::to_stdvec_cobs(&(w.0, w.1, w.2, w.3, (t.0, t.1, t.2, format))).unwrap()
    };
    let layouts: [(&dyn Fn(u32) -> Vec<u8>, ChipVariant); 3] = [
        (&a, ChipVariant::Esp32Family),
        (&bc5, ChipVariant::Esp32c5),
        (&bc6, ChipVariant::Esp32c6),
    ];
    for (layout, chip) in layouts {
        let known = decode(&layout(13), chip).unwrap_err();
        assert_ne!(known.reason, unknown);
        let e = decode(&layout(14), chip).unwrap_err();
        assert_eq!(e.reason, unknown);
    }
}

#[test]
fn records_of_the_reduced_layout_keep_their_fields() {
    let d = finish_bc5(Ok(wire_with_format(1)), None).unwrap();
    assert_eq!(d.mac, [1, 2, 3, 4, 5, 6]);
    assert_eq!((d.rssi, d.timestamp, d.rate, d.noise_floor), (-1, 2, 3, -4));
    assert_eq!((d.sig_len, d.rx_state, d.dump_len), (5, 6, Some(7)));
    assert_eq!((d.cur_bb_format, d.rx_channel_estimate_info_vld), (Some(8), Some(9)));
    assert_eq!((d.rx_channel_estimate_len, d.second, d.channel), (Some(10), Some(11), 12));
    assert_eq!((d.is_group, d.rxend_state), (Some(13), Some(14)));
    assert_eq!((d.rxmatch3, d.rxmatch2, d.rxmatch1), (Some(15), Some(16), Some(17)));
    assert_eq!((d.sequence_number, d.csi_data_len), (18, 19));
    assert_eq!(d.csi_data, vec![20]);
    assert_eq!((d.he_sigb_len, d.cur_single_mpdu, d.rxmatch0), (None, None, None));
    assert_eq!((d.sgi, d.ampdu_cnt), (None, None));
}

#[test]
fn packets_convert_to_records() {
    let d = DecodedCsi::from(packet_a());
    assert_eq!(d.sgi, Some(1));
    assert_eq!(d.rxmatch1, None);
    let d = DecodedCsi::from(packet_bc6());
    assert_eq!(d.cur_single_mpdu, Some(1));
    assert_eq!(d.mcs, None);
    let d = DecodedCsi::from(packet_bc5());
    assert_eq!(d.rxmatch1, Some(1));
    assert_eq!(d.rxmatch0, None);
}

#[test]
fn frames_of_any_length_read_back() {
    let mut p = packet_a();
    p.secondary_channel = 1;
    p.bandwidth = 1;
    p.antenna = 1;
    p.smoothing = 1;
    p.aggregation = 1;
    p.stbc = 1;
    p.fec_coding = 1;
    p.ampdu_cnt = 1;
    p.rx_state = 1;
    p.mac = [1; 6];
    for n in 0..1100u16 {
        p.csi_data = vec![-3; n as usize];
        p.csi_data_len = n;
        let frame = p.to_frame();
        assert_eq!(frame.iter().filter(|b| **b == 0).count(), 1);
        let out = decode(&frame[..frame.len() - 1], ChipVariant::Esp32Family).unwrap();
        assert_eq!(out.csi_data, p.csi_data);
        assert_eq!(out.csi_data_len, n);
        assert_eq!(out.ampdu_cnt, Some(1));
    }
    let mut p = packet_bc6();
    for n in 0..600u16 {
        p.csi_data = (0..n).map(|i| (i % 7) as i8 - 3).collect();
        p.csi_data_len = n;
        let frame = p.to_frame();
        assert_eq!(frame.iter().filter(|b| **b == 0).count(), 1);
        let out = decode(&frame[..frame.len() - 1], ChipVariant::Esp32c6).unwrap();
        assert_eq!(out.csi_data, p.csi_data);
        assert_eq!(out.rxmatch0, Some(1));
    }
}
