use std::sync::Arc;

use arrow::array::{
    Array, Int32Array, Int8Array, ListArray, StringArray, StructArray, TimestampMicrosecondArray,
    UInt16Array, UInt32Array, UInt64Array,
};
use arrow::datatypes::{DataType, TimeUnit};
use arrow::record_batch::RecordBatch;
use parquet::arrow::arrow_reader::ParquetRecordBatchReaderBuilder;
use parquet::arrow::ArrowWriter;

use csi_webserver::csi::{decode, ChipVariant, DateTime, DecodedCsi, PacketA, PacketBc6, RxCsiFmt};
use csi_webserver::parquet_sink::{
    build_schema, format_mac, ColumnData, ColumnType, FinishStep, ParquetSink, ParquetSinkError,
    ROW_GROUP_SIZE,
};
use csi_webserver::table::{arrow_schema, fits_offsets, record_batch};

fn packet() -> PacketA {
    PacketA {
        mac: [0xaa, 0xbb, 0xcc, 0xdd, 0xee, 0xff],
        rssi: -50,
        timestamp: 1000,
        rate: 11,
        sgi: 1,
        secondary_channel: 0,
        channel: 6,
        bandwidth: 0,
        antenna: 0,
        sig_mode: 1,
        mcs: 7,
        smoothing: 0,
        not_sounding: 1,
        aggregation: 0,
        stbc: 0,
        fec_coding: 0,
        ampdu_cnt: 0,
        noise_floor: -95,
        rx_state: 0,
        sig_len: 100,
        date_time: Some(DateTime {
            year: 2026,
            month: 6,
            day: 22,
            hour: 1,
            minute: 2,
            second: 3,
            millisecond: 4,
        }),
        sequence_number: 1,
        data_format: RxCsiFmt::HtBw20,
        csi_data_len: 3,
        csi_data: vec![1, 2, 3],
    }
}

#[test]
fn writes_readable_parquet() {
    let cobs = packet().to_frame();
    let body = cobs.strip_suffix(&[0]).unwrap_or(&cobs);
    let decoded = decode(body, ChipVariant::Esp32Family).unwrap();

    let mut sink = ParquetSink::open("csi_sink_test.parquet", "esp32");
    assert!(sink.push(decoded, 1_700_000_000_000_000).is_none());
    let columns = match sink.finish() {
        FinishStep::WriteThenClose(columns) => columns,
        other => panic!("{other:?}"),
    };

    assert!(fits_offsets(&columns));
    let batch = RecordBatch::from(StructArray::from(record_batch(columns).unwrap()));
    let schema = Arc::new(arrow_schema());
    assert_eq!(batch.schema(), schema);
    let mut writer = ArrowWriter::try_new(Vec::new(), schema, None).unwrap();
    writer.write(&batch).unwrap();
    let file = writer.into_inner().unwrap();

    let builder =
        ParquetRecordBatchReaderBuilder::try_new(axum::body::Bytes::from(file)).unwrap();
    let mut reader = builder.build().unwrap();
    let batch = reader.next().unwrap().unwrap();
    assert_eq!(batch.num_rows(), 1);
    assert_eq!(batch.num_columns(), build_schema().len());

    let at = |name: &str| batch.column_by_name(name).unwrap().clone();
    let mac = at("mac");
    assert_eq!(mac.as_any().downcast_ref::<StringArray>().unwrap().value(0), "aa:bb:cc:dd:ee:ff");
    let rssi = at("rssi");
    assert_eq!(rssi.as_any().downcast_ref::<Int32Array>().unwrap().value(0), -50);
    let host = at("host_rx_time");
    let host = host.as_any().downcast_ref::<TimestampMicrosecondArray>().unwrap();
    assert_eq!(host.value(0), 1_700_000_000_000_000);
    let year = at("dt_year");
    assert_eq!(year.as_any().downcast_ref::<UInt64Array>().unwrap().value(0), 2026);
    assert!(at("rxmatch0").is_null(0));
    let data = at("csi_data");
    let data = data.as_any().downcast_ref::<ListArray>().unwrap().value(0);
    let data = data.as_any().downcast_ref::<Int8Array>().unwrap();
    assert_eq!((data.value(0), data.value(1), data.value(2)), (1, 2, 3));
}

#[test]
fn schema_has_the_documented_columns() {
    let schema = build_schema();
    let names: Vec<&str> = schema.iter().map(|f| f.name).collect();
    assert_eq!(
        names,
        vec![
            "host_rx_time", "chip", "mac", "rssi", "timestamp", "rate", "noise_floor", "sig_len",
            "rx_state", "channel", "sequence_number", "data_format", "csi_data_len", "csi_data",
            "dt_year", "dt_month", "dt_day", "dt_hour", "dt_minute", "dt_second",
            "dt_millisecond", "sgi", "secondary_channel", "bandwidth", "antenna", "sig_mode",
            "mcs", "smoothing", "not_sounding", "aggregation", "stbc", "fec_coding", "ampdu_cnt",
            "dump_len", "cur_bb_format", "rx_channel_estimate_info_vld",
            "rx_channel_estimate_len", "second", "is_group", "rxend_state", "rxmatch3",
            "rxmatch2", "rxmatch1", "sigb_len", "cur_single_mpdu", "rxmatch0",
        ]
    );
    assert_eq!(schema[0].column_type, ColumnType::TimestampMicrosUtc);
    assert_eq!(schema[13].column_type, ColumnType::ListInt8);
    assert_eq!(schema[14].column_type, ColumnType::UInt64);
    assert!(schema.iter().take(14).all(|f| !f.nullable));
    assert!(schema.iter().skip(14).all(|f| f.nullable));
}

fn cells(columns: &[ColumnData], name: &str) -> String {
    let schema = build_schema();
    let at = schema.iter().position(|f| f.name == name).unwrap();
    format!("{:?}", columns[at])
}

#[test]
fn batches_hold_the_rows_column_by_column() {
    let mut sink = ParquetSink::open("x.parquet", "esp32c6");
    let mut p = PacketBc6 {
        mac: [0, 1, 2, 0x0f, 0xf0, 0xff],
        rssi: -1,
        timestamp: 2,
        rate: 3,
        noise_floor: -4,
        sig_len: 5,
        rx_state: 6,
        dump_len: 7,
        he_sigb_len: 8,
        cur_single_mpdu: 9,
        cur_bb_format: 10,
        rx_channel_estimate_info_vld: 11,
        rx_channel_estimate_len: 12,
        second: 13,
        channel: 14,
        is_group: 15,
        rxend_state: 16,
        rxmatch3: 17,
        rxmatch2: 18,
        rxmatch1: 19,
        rxmatch0: 20,
        date_time: None,
        sequence_number: 21,
        csi_data_len: 1,
        data_format: RxCsiFmt::SecaHtBw40Stbc,
        csi_data: vec![-128],
    };
    sink.push(DecodedCsi::from(p.clone()), 100);
    p.csi_data = vec![];
    p.rssi = 9;
    sink.push(DecodedCsi::from(p), 200);
    let b = sink.build_batch();
    assert_eq!(b.len(), build_schema().len());
    assert_eq!(cells(&b, "host_rx_time"), "Micros([100, 200])");
    assert_eq!(cells(&b, "chip"), "Text([\"esp32c6\", \"esp32c6\"])");
    assert_eq!(cells(&b, "mac"), "Text([\"00:01:02:0f:f0:ff\", \"00:01:02:0f:f0:ff\"])");
    assert_eq!(cells(&b, "rssi"), "Int32([-1, 9])");
    assert_eq!(cells(&b, "noise_floor"), "Int32([-4, -4])");
    assert_eq!(cells(&b, "timestamp"), "UInt32([2, 2])");
    assert_eq!(cells(&b, "rate"), "UInt32([3, 3])");
    assert_eq!(cells(&b, "sig_len"), "UInt32([5, 5])");
    assert_eq!(cells(&b, "rx_state"), "UInt32([6, 6])");
    assert_eq!(cells(&b, "channel"), "UInt32([14, 14])");
    assert_eq!(cells(&b, "sequence_number"), "UInt16([21, 21])");
    assert_eq!(cells(&b, "csi_data_len"), "UInt16([1, 1])");
    assert_eq!(cells(&b, "data_format"), "Text([\"SecaHtBw40Stbc\", \"SecaHtBw40Stbc\"])");
    assert_eq!(cells(&b, "csi_data"), "Samples([[-128], []])");
    assert_eq!(cells(&b, "dt_year"), "OptUInt64([None, None])");
    assert_eq!(cells(&b, "sgi"), "OptUInt32([None, None])");
    assert_eq!(cells(&b, "dump_len"), "OptUInt32([Some(7), Some(7)])");
    assert_eq!(cells(&b, "second"), "OptUInt32([Some(13), Some(13)])");
    assert_eq!(cells(&b, "rxmatch3"), "OptUInt32([Some(17), Some(17)])");
    assert_eq!(cells(&b, "sigb_len"), "OptUInt32([Some(8), Some(8)])");
    assert_eq!(cells(&b, "rxmatch0"), "OptUInt32([Some(20), Some(20)])");
}

#[test]
fn calendar_columns_follow_the_packet() {
    let mut sink = ParquetSink::open("x.parquet", "esp32");
    sink.push(DecodedCsi::from(packet()), 0);
    let b = sink.build_batch();
    for (name, value) in [
        ("dt_year", 2026),
        ("dt_month", 6),
        ("dt_day", 22),
        ("dt_hour", 1),
        ("dt_minute", 2),
        ("dt_second", 3),
        ("dt_millisecond", 4),
    ] {
        assert_eq!(cells(&b, name), format!("OptUInt64([Some({value})])"));
    }
    assert_eq!(cells(&b, "mcs"), "OptUInt32([Some(7)])");
    assert_eq!(cells(&b, "rxmatch1"), "OptUInt32([None])");
}

#[test]
fn a_full_buffer_is_due() {
    let mut sink = ParquetSink::open("x.parquet", "esp32");
    for i in 0..ROW_GROUP_SIZE - 1 {
        assert!(sink.push(DecodedCsi::from(packet()), i as i64).is_none());
    }
    let due = sink.push(DecodedCsi::from(packet()), 255).unwrap();
    assert_eq!(due.len(), build_schema().len());
    assert_eq!(sink.buffer.len(), ROW_GROUP_SIZE);
    sink.written();
    assert!(sink.buffer.is_empty());
    assert!(sink.flush().is_none());
}

#[test]
fn rows_stay_after_a_failed_write() {
    let mut sink = ParquetSink::open("x.parquet", "esp32");
    for i in 0..ROW_GROUP_SIZE {
        sink.push(DecodedCsi::from(packet()), i as i64);
    }
    let due = sink.push(DecodedCsi::from(packet()), 256).unwrap();
    match &due[0] {
        ColumnData::Micros(v) => assert_eq!(v.len(), ROW_GROUP_SIZE + 1),
        other => panic!("{other:?}"),
    }
}

#[test]
fn finishing_is_idempotent() {
    let mut sink = ParquetSink::open("x.parquet", "esp32");
    assert!(matches!(sink.finish(), FinishStep::Close));
    sink.push(DecodedCsi::from(packet()), 1);
    assert!(matches!(sink.finish(), FinishStep::WriteThenClose(_)));
    sink.written();
    sink.close();
    assert!(matches!(sink.finish(), FinishStep::Done));
    assert!(matches!(sink.finish(), FinishStep::Done));
}

#[test]
fn a_closed_sink_drops_rows() {
    let mut sink = ParquetSink::open("x.parquet", "esp32");
    sink.close();
    sink.push(DecodedCsi::from(packet()), 1);
    assert!(sink.flush().is_none());
    assert!(sink.buffer.is_empty());
}

#[test]
fn sink_errors_are_named() {
    assert_eq!(
        ParquetSinkError::Io("denied".to_string()).message(),
        "parquet sink io error: denied"
    );
    assert_eq!(
        ParquetSinkError::Arrow("shape".to_string()).message(),
        "parquet sink arrow error: shape"
    );
    assert_eq!(
        ParquetSinkError::Parquet("closed".to_string()).message(),
        "parquet sink error: closed"
    );
}

#[test]
fn macs_are_written_in_small_hex() {
    assert_eq!(format_mac(&[0xaa, 0xbb, 0xcc, 0xdd, 0xee, 0xff]), "aa:bb:cc:dd:ee:ff");
    assert_eq!(format_mac(&[0, 9, 0x0a, 0x10, 0x9f, 0xa0]), "00:09:0a:10:9f:a0");
}

#[test]
fn the_arrow_schema_has_the_types_of_the_columns() {
    let schema = arrow_schema();
    assert_eq!(schema.fields().len(), build_schema().len());
    let kind = |name: &str| schema.field_with_name(name).unwrap().data_type().clone();
    assert_eq!(
        kind("host_rx_time"),
        DataType::Timestamp(TimeUnit::Microsecond, Some("UTC".into()))
    );
    assert_eq!(kind("chip"), DataType::Utf8);
    assert_eq!(kind("noise_floor"), DataType::Int32);
    assert_eq!(kind("rate"), DataType::UInt32);
    assert_eq!(kind("csi_data_len"), DataType::UInt16);
    assert_eq!(kind("dt_year"), DataType::UInt64);
    assert!(matches!(kind("csi_data"),
        DataType::List(f) if f.name() == "item" && f.data_type() == &DataType::Int8 && f.is_nullable()));
    for (field, own) in schema.fields().iter().zip(build_schema()) {
        assert_eq!(field.name(), own.name);
        assert_eq!(field.is_nullable(), own.nullable);
    }
}

#[test]
fn record_batches_hold_the_columns() {
    let mut sink = ParquetSink::open("x.parquet", "esp32");
    sink.push(DecodedCsi::from(packet()), 5);
    let mut second = packet();
    second.date_time = None;
    second.csi_data = vec![];
    second.rssi = 7;
    sink.push(DecodedCsi::from(second), 6);
    let data = record_batch(sink.build_batch()).unwrap();
    let batch = RecordBatch::from(StructArray::from(data));
    assert_eq!(batch.num_rows(), 2);
    let at = |name: &str| batch.column_by_name(name).unwrap().clone();
    let host = at("host_rx_time");
    let host = host.as_any().downcast_ref::<TimestampMicrosecondArray>().unwrap();
    assert_eq!((host.value(0), host.value(1)), (5, 6));
    let rssi = at("rssi");
    let rssi = rssi.as_any().downcast_ref::<Int32Array>().unwrap();
    assert_eq!((rssi.value(0), rssi.value(1)), (-50, 7));
    let chip = at("chip");
    assert_eq!(chip.as_any().downcast_ref::<StringArray>().unwrap().value(1), "esp32");
    let seq = at("sequence_number");
    assert_eq!(seq.as_any().downcast_ref::<UInt16Array>().unwrap().value(0), 1);
    let rate = at("rate");
    assert_eq!(rate.as_any().downcast_ref::<UInt32Array>().unwrap().value(1), 11);
    let mcs = at("mcs");
    assert_eq!(mcs.as_any().downcast_ref::<UInt32Array>().unwrap().value(0), 7);
    assert!(at("rxmatch1").is_null(0));
    let year = at("dt_year");
    assert!(!year.is_null(0) && year.is_null(1));
    assert_eq!(year.as_any().downcast_ref::<UInt64Array>().unwrap().value(0), 2026);
    let lists = at("csi_data");
    let lists = lists.as_any().downcast_ref::<ListArray>().unwrap();
    assert_eq!((lists.value(0).len(), lists.value(1).len()), (3, 0));
}

#[test]
fn columns_that_do_not_fit_the_schema_are_refused() {
    let mut sink = ParquetSink::open("x.parquet", "esp32");
    sink.push(DecodedCsi::from(packet()), 5);
    let mut short = sink.build_batch();
    short.pop();
    assert!(record_batch(short).is_err());

    let mut swapped = sink.build_batch();
    swapped.swap(0, 1);
    assert!(record_batch(swapped).is_err());

    let mut uneven = sink.build_batch();
    uneven[0] = ColumnData::Micros(vec![1, 2]);
    assert!(record_batch(uneven).is_err());

    let mut null = sink.build_batch();
    null[4] = ColumnData::OptUInt32(vec![None]);
    assert!(record_batch(null).is_err());

    let mut whole = sink.build_batch();
    whole[4] = ColumnData::OptUInt32(vec![Some(1)]);
    assert!(record_batch(whole).is_ok());

    assert!(record_batch(vec![]).is_err());
}
