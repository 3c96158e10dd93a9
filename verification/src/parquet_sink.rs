//! Session files: the table of decoded CSI packets.
//!
//! Each collection session writes one Parquet file. Rows are buffered and
//! written in groups; the file footer is written when the sink is closed, and a
//! file without a footer does not open.
//!
//! ## Columns
//! A single superset of columns covers all chip layouts, so that consumers see one
//! stable column set whatever the source chip. Columns that only exist on some
//! chips are nullable and left null otherwise. `csi_data` is a variable-length
//! list of bytes. `host_rx_time` is the server's wall-clock receive time (UTC,
//! microseconds), distinct from the device `timestamp`, which is microseconds
//! since the start of the device's controller.
//!
//! [`Column`] lists the columns; the schema and the batches are both made from
//! that one list.

use vstd::prelude::*;

use crate::csi::{decoded_frame, format_name, ChipVariant, CsiRecord, DateTime, DecodedCsi};
use crate::text;

verus! {

/// Number of buffered rows at which a row group is written.
pub const ROW_GROUP_SIZE: usize = 256;

/// A column of the session table.
#[derive(Debug, Clone, Copy, PartialEq, Eq, Structural)]
pub enum Column {
    HostRxTime,
    Chip,
    Mac,
    Rssi,
    Timestamp,
    Rate,
    NoiseFloor,
    SigLen,
    RxState,
    Channel,
    SequenceNumber,
    DataFormat,
    CsiDataLen,
    CsiData,
    DtYear,
    DtMonth,
    DtDay,
    DtHour,
    DtMinute,
    DtSecond,
    DtMillisecond,
    Sgi,
    SecondaryChannel,
    Bandwidth,
    Antenna,
    SigMode,
    Mcs,
    Smoothing,
    NotSounding,
    Aggregation,
    Stbc,
    FecCoding,
    AmpduCnt,
    DumpLen,
    CurBbFormat,
    RxChannelEstimateInfoVld,
    RxChannelEstimateLen,
    Second,
    IsGroup,
    RxendState,
    Rxmatch3,
    Rxmatch2,
    Rxmatch1,
    HeSigbLen,
    CurSingleMpdu,
    Rxmatch0,
}

/// The type of a column.
#[derive(Debug, Clone, Copy, PartialEq, Eq, Structural)]
pub enum ColumnType {
    /// Microseconds since the epoch, in UTC.
    TimestampMicrosUtc,
    Utf8,
    Int32,
    UInt32,
    UInt16,
    UInt64,
    /// A list of signed bytes per row.
    ListInt8,
}

/// A column of the schema.
#[derive(Debug)]
pub struct ColumnField {
    pub name: &'static str,
    pub column_type: ColumnType,
    pub nullable: bool,
}

/// What a [`ColumnField`] says.
pub struct FieldText {
    pub name: Seq<char>,
    pub column_type: ColumnType,
    pub nullable: bool,
}

impl View for ColumnField {
    type V = FieldText;

    open spec fn view(&self) -> FieldText {
        FieldText {
            name: self.name@,
            column_type: self.column_type,
            nullable: self.nullable,
        }
    }
}

/// The fields of a schema, as text.
pub open spec fn fields_text(fields: Seq<ColumnField>) -> Seq<FieldText> {
    Seq::new(fields.len(), |i: int| fields[i]@)
}

/// The values of a column, one per row.
#[derive(Debug)]
pub enum ColumnData {
    Micros(Vec<i64>),
    Text(Vec<String>),
    Int32(Vec<i32>),
    UInt32(Vec<u32>),
    UInt16(Vec<u16>),
    OptUInt32(Vec<Option<u32>>),
    OptUInt64(Vec<Option<u64>>),
    Samples(Vec<Vec<i8>>),
}

/// What a [`ColumnData`] says.
#[verifier::ext_equal]
pub enum ColumnValues {
    Micros(Seq<i64>),
    Text(Seq<Seq<char>>),
    Int32(Seq<i32>),
    UInt32(Seq<u32>),
    UInt16(Seq<u16>),
    OptUInt32(Seq<Option<u32>>),
    OptUInt64(Seq<Option<u64>>),
    Samples(Seq<Seq<i8>>),
}

impl View for ColumnData {
    type V = ColumnValues;

    open spec fn view(&self) -> ColumnValues {
        match *self {
            ColumnData::Micros(v) => ColumnValues::Micros(v@),
            ColumnData::Text(v) => ColumnValues::Text(text::texts(v@)),
            ColumnData::Int32(v) => ColumnValues::Int32(v@),
            ColumnData::UInt32(v) => ColumnValues::UInt32(v@),
            ColumnData::UInt16(v) => ColumnValues::UInt16(v@),
            ColumnData::OptUInt32(v) => ColumnValues::OptUInt32(v@),
            ColumnData::OptUInt64(v) => ColumnValues::OptUInt64(v@),
            ColumnData::Samples(v) => ColumnValues::Samples(
                Seq::new(v@.len(), |i: int| v@[i]@),
            ),
        }
    }
}

/// The columns of a batch, as sequences.
pub open spec fn batch_values(batch: Seq<ColumnData>) -> Seq<ColumnValues> {
    Seq::new(batch.len(), |i: int| batch[i]@)
}

/// A buffered row: the host receive time (UTC microseconds) and the packet.
#[derive(Debug)]
pub struct Row {
    pub host_rx_micros: i64,
    pub csi: DecodedCsi,
}

/// What a [`Row`] says.
pub struct RowText {
    pub host_rx_micros: i64,
    pub csi: CsiRecord,
}

impl View for Row {
    type V = RowText;

    open spec fn view(&self) -> RowText {
        RowText { host_rx_micros: self.host_rx_micros, csi: self.csi@ }
    }
}

/// Buffered rows, as text.
pub open spec fn rows_text(rows: Seq<Row>) -> Seq<RowText> {
    Seq::new(rows.len(), |i: int| rows[i]@)
}

// ── The columns ───────────────────────────────────────────────────────────

/// The columns in the order of the file.
pub open spec fn layout() -> Seq<Column> {
    seq![
        Column::HostRxTime,
        Column::Chip,
        Column::Mac,
        Column::Rssi,
        Column::Timestamp,
        Column::Rate,
        Column::NoiseFloor,
        Column::SigLen,
        Column::RxState,
        Column::Channel,
        Column::SequenceNumber,
        Column::DataFormat,
        Column::CsiDataLen,
        Column::CsiData,
        Column::DtYear,
        Column::DtMonth,
        Column::DtDay,
        Column::DtHour,
        Column::DtMinute,
        Column::DtSecond,
        Column::DtMillisecond,
        Column::Sgi,
        Column::SecondaryChannel,
        Column::Bandwidth,
        Column::Antenna,
        Column::SigMode,
        Column::Mcs,
        Column::Smoothing,
        Column::NotSounding,
        Column::Aggregation,
        Column::Stbc,
        Column::FecCoding,
        Column::AmpduCnt,
        Column::DumpLen,
        Column::CurBbFormat,
        Column::RxChannelEstimateInfoVld,
        Column::RxChannelEstimateLen,
        Column::Second,
        Column::IsGroup,
        Column::RxendState,
        Column::Rxmatch3,
        Column::Rxmatch2,
        Column::Rxmatch1,
        Column::HeSigbLen,
        Column::CurSingleMpdu,
        Column::Rxmatch0,
    ]
}

fn columns() -> (r: Vec<Column>)
    ensures
        r@ == layout(),
{
    vec![
        Column::HostRxTime,
        Column::Chip,
        Column::Mac,
        Column::Rssi,
        Column::Timestamp,
        Column::Rate,
        Column::NoiseFloor,
        Column::SigLen,
        Column::RxState,
        Column::Channel,
        Column::SequenceNumber,
        Column::DataFormat,
        Column::CsiDataLen,
        Column::CsiData,
        Column::DtYear,
        Column::DtMonth,
        Column::DtDay,
        Column::DtHour,
        Column::DtMinute,
        Column::DtSecond,
        Column::DtMillisecond,
        Column::Sgi,
        Column::SecondaryChannel,
        Column::Bandwidth,
        Column::Antenna,
        Column::SigMode,
        Column::Mcs,
        Column::Smoothing,
        Column::NotSounding,
        Column::Aggregation,
        Column::Stbc,
        Column::FecCoding,
        Column::AmpduCnt,
        Column::DumpLen,
        Column::CurBbFormat,
        Column::RxChannelEstimateInfoVld,
        Column::RxChannelEstimateLen,
        Column::Second,
        Column::IsGroup,
        Column::RxendState,
        Column::Rxmatch3,
        Column::Rxmatch2,
        Column::Rxmatch1,
        Column::HeSigbLen,
        Column::CurSingleMpdu,
        Column::Rxmatch0,
    ]
}

impl Column {
    /// The name of the column in the file.
    pub open spec fn spec_name(self) -> Seq<char> {
        match self {
            Column::HostRxTime => "host_rx_time"@,
            Column::Chip => "chip"@,
            Column::Mac => "mac"@,
            Column::Rssi => "rssi"@,
            Column::Timestamp => "timestamp"@,
            Column::Rate => "rate"@,
            Column::NoiseFloor => "noise_floor"@,
            Column::SigLen => "sig_len"@,
            Column::RxState => "rx_state"@,
            Column::Channel => "channel"@,
            Column::SequenceNumber => "sequence_number"@,
            Column::DataFormat => "data_format"@,
            Column::CsiDataLen => "csi_data_len"@,
            Column::CsiData => "csi_data"@,
            Column::DtYear => "dt_year"@,
            Column::DtMonth => "dt_month"@,
            Column::DtDay => "dt_day"@,
            Column::DtHour => "dt_hour"@,
            Column::DtMinute => "dt_minute"@,
            Column::DtSecond => "dt_second"@,
            Column::DtMillisecond => "dt_millisecond"@,
            Column::Sgi => "sgi"@,
            Column::SecondaryChannel => "secondary_channel"@,
            Column::Bandwidth => "bandwidth"@,
            Column::Antenna => "antenna"@,
            Column::SigMode => "sig_mode"@,
            Column::Mcs => "mcs"@,
            Column::Smoothing => "smoothing"@,
            Column::NotSounding => "not_sounding"@,
            Column::Aggregation => "aggregation"@,
            Column::Stbc => "stbc"@,
            Column::FecCoding => "fec_coding"@,
            Column::AmpduCnt => "ampdu_cnt"@,
            Column::DumpLen => "dump_len"@,
            Column::CurBbFormat => "cur_bb_format"@,
            Column::RxChannelEstimateInfoVld => "rx_channel_estimate_info_vld"@,
            Column::RxChannelEstimateLen => "rx_channel_estimate_len"@,
            Column::Second => "second"@,
            Column::IsGroup => "is_group"@,
            Column::RxendState => "rxend_state"@,
            Column::Rxmatch3 => "rxmatch3"@,
            Column::Rxmatch2 => "rxmatch2"@,
            Column::Rxmatch1 => "rxmatch1"@,
            Column::HeSigbLen => "sigb_len"@,
            Column::CurSingleMpdu => "cur_single_mpdu"@,
            Column::Rxmatch0 => "rxmatch0"@,
        }
    }

    /// The name of the column in the file.
    pub fn name(self) -> (r: &'static str)
        ensures
            r@ == self.spec_name(),
    {
        match self {
            Column::HostRxTime => "host_rx_time",
            Column::Chip => "chip",
            Column::Mac => "mac",
            Column::Rssi => "rssi",
            Column::Timestamp => "timestamp",
            Column::Rate => "rate",
            Column::NoiseFloor => "noise_floor",
            Column::SigLen => "sig_len",
            Column::RxState => "rx_state",
            Column::Channel => "channel",
            Column::SequenceNumber => "sequence_number",
            Column::DataFormat => "data_format",
            Column::CsiDataLen => "csi_data_len",
            Column::CsiData => "csi_data",
            Column::DtYear => "dt_year",
            Column::DtMonth => "dt_month",
            Column::DtDay => "dt_day",
            Column::DtHour => "dt_hour",
            Column::DtMinute => "dt_minute",
            Column::DtSecond => "dt_second",
            Column::DtMillisecond => "dt_millisecond",
            Column::Sgi => "sgi",
            Column::SecondaryChannel => "secondary_channel",
            Column::Bandwidth => "bandwidth",
            Column::Antenna => "antenna",
            Column::SigMode => "sig_mode",
            Column::Mcs => "mcs",
            Column::Smoothing => "smoothing",
            Column::NotSounding => "not_sounding",
            Column::Aggregation => "aggregation",
            Column::Stbc => "stbc",
            Column::FecCoding => "fec_coding",
            Column::AmpduCnt => "ampdu_cnt",
            Column::DumpLen => "dump_len",
            Column::CurBbFormat => "cur_bb_format",
            Column::RxChannelEstimateInfoVld => "rx_channel_estimate_info_vld",
            Column::RxChannelEstimateLen => "rx_channel_estimate_len",
            Column::Second => "second",
            Column::IsGroup => "is_group",
            Column::RxendState => "rxend_state",
            Column::Rxmatch3 => "rxmatch3",
            Column::Rxmatch2 => "rxmatch2",
            Column::Rxmatch1 => "rxmatch1",
            Column::HeSigbLen => "sigb_len",
            Column::CurSingleMpdu => "cur_single_mpdu",
            Column::Rxmatch0 => "rxmatch0",
        }
    }

    /// The type of the column's values.
    pub open spec fn kind(self) -> ColumnType {
        match self {
            Column::HostRxTime => ColumnType::TimestampMicrosUtc,
            Column::Chip | Column::Mac | Column::DataFormat => ColumnType::Utf8,
            Column::Rssi | Column::NoiseFloor => ColumnType::Int32,
            Column::SequenceNumber | Column::CsiDataLen => ColumnType::UInt16,
            Column::CsiData => ColumnType::ListInt8,
            Column::DtYear | Column::DtMonth | Column::DtDay | Column::DtHour | Column::DtMinute
            | Column::DtSecond | Column::DtMillisecond => ColumnType::UInt64,
            _ => ColumnType::UInt32,
        }
    }

    /// Whether a row can lack a value: the calendar time, which is only there
    /// when NTP time is set, and what only some chips report.
    pub open spec fn optional(self) -> bool {
        match self {
            Column::HostRxTime | Column::Chip | Column::Mac | Column::Rssi | Column::Timestamp
            | Column::Rate | Column::NoiseFloor | Column::SigLen | Column::RxState
            | Column::Channel | Column::SequenceNumber | Column::DataFormat | Column::CsiDataLen
            | Column::CsiData => false,
            _ => true,
        }
    }

    /// The schema entry of the column.
    pub open spec fn spec_field(self) -> FieldText {
        FieldText { name: self.spec_name(), column_type: self.kind(), nullable: self.optional() }
    }

    /// The schema entry of the column.
    pub fn field(self) -> (r: ColumnField)
        ensures
            r@ == self.spec_field(),
    {
        let column_type = match self {
            Column::HostRxTime => ColumnType::TimestampMicrosUtc,
            Column::Chip | Column::Mac | Column::DataFormat => ColumnType::Utf8,
            Column::Rssi | Column::NoiseFloor => ColumnType::Int32,
            Column::SequenceNumber | Column::CsiDataLen => ColumnType::UInt16,
            Column::CsiData => ColumnType::ListInt8,
            Column::DtYear | Column::DtMonth | Column::DtDay | Column::DtHour | Column::DtMinute
            | Column::DtSecond | Column::DtMillisecond => ColumnType::UInt64,
            _ => ColumnType::UInt32,
        };
        let nullable = match self {
            Column::HostRxTime | Column::Chip | Column::Mac | Column::Rssi | Column::Timestamp
            | Column::Rate | Column::NoiseFloor | Column::SigLen | Column::RxState
            | Column::Channel | Column::SequenceNumber | Column::DataFormat | Column::CsiDataLen
            | Column::CsiData => false,
            _ => true,
        };
        ColumnField { name: self.name(), column_type, nullable }
    }
}

/// The superset schema of a session file.
pub open spec fn schema() -> Seq<FieldText> {
    Seq::new(layout().len(), |i: int| layout()[i].spec_field())
}

/// Build the superset schema, in the order of [`ParquetSink::build_batch`].
pub fn build_schema() -> (r: Vec<ColumnField>)
    ensures
        fields_text(r@) == schema(),
{
    let list = columns();
    let mut out: Vec<ColumnField> = Vec::new();
    let mut i: usize = 0;
    while i < list.len()
        invariant
            list@ == layout(),
            i <= list@.len(),
            out@.len() == i,
            forall|k: int| 0 <= k < i ==> (#[trigger] out@[k])@ == layout()[k].spec_field(),
        decreases list@.len() - i,
    {
        out.push(list[i].field());
        i += 1;
    }
    out
}

// ── Cells ─────────────────────────────────────────────────────────────────

/// A hexadecimal digit, in small letters.
pub open spec fn hex_digit(n: nat) -> char {
    if n < 10 {
        (48 + n) as char
    } else {
        (87 + n) as char
    }
}

/// A byte as two hexadecimal digits.
pub open spec fn hex_byte(b: u8) -> Seq<char> {
    seq![hex_digit(b as nat / 16), hex_digit(b as nat % 16)]
}

fn push_hex_digit(out: &mut String, n: u8)
    requires
        n < 16,
    ensures
        final(out)@ == old(out)@.push(hex_digit(n as nat)),
{
    let code: u8 = if n < 10 {
        48 + n
    } else {
        87 + n
    };
    out.push(code as char);
}

/// Appends a byte as two hexadecimal digits.
pub fn push_hex(out: &mut String, b: u8)
    ensures
        final(out)@ == old(out)@ + hex_byte(b),
{
    push_hex_digit(out, b / 16);
    push_hex_digit(out, b % 16);
    assert(old(out)@ + hex_byte(b) =~= old(out)@.push(hex_digit(b as nat / 16)).push(
        hex_digit(b as nat % 16),
    ));
}

/// The first `n` bytes of a MAC address, with colons between.
pub open spec fn mac_prefix(mac: Seq<u8>, n: nat) -> Seq<char>
    decreases n,
{
    if n == 0 {
        Seq::empty()
    } else if n == 1 {
        hex_byte(mac[0])
    } else {
        mac_prefix(mac, (n - 1) as nat) + ":"@ + hex_byte(mac[n - 1])
    }
}

/// A MAC address as `aa:bb:cc:dd:ee:ff`.
pub open spec fn mac_text(mac: [u8; 6]) -> Seq<char> {
    mac_prefix(mac@, 6)
}

/// Format a 6-byte MAC as `aa:bb:cc:dd:ee:ff`.
pub fn format_mac(mac: &[u8; 6]) -> (r: String)
    ensures
        r@ == mac_text(*mac),
{
    let mut out = String::new();
    push_hex(&mut out, mac[0]);
    assert(out@ =~= mac_prefix(mac@, 1));
    let mut i: usize = 1;
    while i < 6
        invariant
            1 <= i <= 6,
            out@ == mac_prefix(mac@, i as nat),
        decreases 6 - i,
    {
        out.append(":");
        push_hex(&mut out, mac[i]);
        i += 1;
    }
    out
}

/// The value of a calendar column.
pub open spec fn calendar_cell(c: Column, d: DateTime) -> u64 {
    match c {
        Column::DtYear => d.year,
        Column::DtMonth => d.month,
        Column::DtDay => d.day,
        Column::DtHour => d.hour,
        Column::DtMinute => d.minute,
        Column::DtSecond => d.second,
        Column::DtMillisecond => d.millisecond,
        _ => 0u64,
    }
}

/// The value of a column that only some chips have.
pub open spec fn chip_cell(c: Column, r: CsiRecord) -> Option<u32> {
    match c {
        Column::Sgi => r.sgi,
        Column::SecondaryChannel => r.secondary_channel,
        Column::Bandwidth => r.bandwidth,
        Column::Antenna => r.antenna,
        Column::SigMode => r.sig_mode,
        Column::Mcs => r.mcs,
        Column::Smoothing => r.smoothing,
        Column::NotSounding => r.not_sounding,
        Column::Aggregation => r.aggregation,
        Column::Stbc => r.stbc,
        Column::FecCoding => r.fec_coding,
        Column::AmpduCnt => r.ampdu_cnt,
        Column::DumpLen => r.dump_len,
        Column::CurBbFormat => r.cur_bb_format,
        Column::RxChannelEstimateInfoVld => r.rx_channel_estimate_info_vld,
        Column::RxChannelEstimateLen => r.rx_channel_estimate_len,
        Column::Second => r.second,
        Column::IsGroup => r.is_group,
        Column::RxendState => r.rxend_state,
        Column::Rxmatch3 => r.rxmatch3,
        Column::Rxmatch2 => r.rxmatch2,
        Column::Rxmatch1 => r.rxmatch1,
        Column::HeSigbLen => r.he_sigb_len,
        Column::CurSingleMpdu => r.cur_single_mpdu,
        Column::Rxmatch0 => r.rxmatch0,
        _ => None,
    }
}

/// The value of a plain 32-bit column.
pub open spec fn word_cell(c: Column, r: CsiRecord) -> u32 {
    match c {
        Column::Timestamp => r.timestamp,
        Column::Rate => r.rate,
        Column::SigLen => r.sig_len,
        Column::RxState => r.rx_state,
        Column::Channel => r.channel,
        _ => 0u32,
    }
}

/// The value of a calendar column in a row; null without NTP time.
pub open spec fn time_cell(c: Column, r: CsiRecord) -> Option<u64> {
    match r.date_time {
        Some(d) => Some(calendar_cell(c, d)),
        None => None,
    }
}

/// The values of a column over the rows of a session on `chip`.
pub open spec fn column_values(c: Column, rows: Seq<RowText>, chip: Seq<char>) -> ColumnValues {
    let n = rows.len();
    match c {
        Column::HostRxTime => ColumnValues::Micros(Seq::new(n, |i: int| rows[i].host_rx_micros)),
        Column::Chip => ColumnValues::Text(Seq::new(n, |i: int| chip)),
        Column::Mac => ColumnValues::Text(Seq::new(n, |i: int| mac_text(rows[i].csi.mac))),
        Column::DataFormat => ColumnValues::Text(
            Seq::new(n, |i: int| crate::csi::format_name(rows[i].csi.data_format)),
        ),
        Column::Rssi => ColumnValues::Int32(Seq::new(n, |i: int| rows[i].csi.rssi)),
        Column::NoiseFloor => ColumnValues::Int32(Seq::new(n, |i: int| rows[i].csi.noise_floor)),
        Column::SequenceNumber => ColumnValues::UInt16(
            Seq::new(n, |i: int| rows[i].csi.sequence_number),
        ),
        Column::CsiDataLen => ColumnValues::UInt16(Seq::new(n, |i: int| rows[i].csi.csi_data_len)),
        Column::CsiData => ColumnValues::Samples(Seq::new(n, |i: int| rows[i].csi.csi_data)),
        Column::Timestamp | Column::Rate | Column::SigLen | Column::RxState | Column::Channel => ColumnValues::UInt32(
            Seq::new(n, |i: int| word_cell(c, rows[i].csi)),
        ),
        Column::DtYear | Column::DtMonth | Column::DtDay | Column::DtHour | Column::DtMinute
        | Column::DtSecond | Column::DtMillisecond => ColumnValues::OptUInt64(
            Seq::new(n, |i: int| time_cell(c, rows[i].csi)),
        ),
        _ => ColumnValues::OptUInt32(Seq::new(n, |i: int| chip_cell(c, rows[i].csi))),
    }
}

fn micros_column(rows: &Vec<Row>) -> (r: Vec<i64>)
    ensures
        r@ == Seq::new(rows@.len(), |i: int| rows_text(rows@)[i].host_rx_micros),
{
    let mut out: Vec<i64> = Vec::new();
    let mut i: usize = 0;
    while i < rows.len()
        invariant
            i <= rows@.len(),
            out@.len() == i,
            forall|k: int|
                #![trigger out@[k]]
                0 <= k < i ==> out@[k] == rows_text(rows@)[k].host_rx_micros,
        decreases rows@.len() - i,
    {
        out.push(rows[i].host_rx_micros);
        i += 1;
    }
    out
}

fn chip_column(rows: &Vec<Row>, chip: &str) -> (r: Vec<String>)
    ensures
        text::texts(r@) == Seq::new(rows@.len(), |i: int| chip@),
{
    let mut out: Vec<String> = Vec::new();
    let mut i: usize = 0;
    while i < rows.len()
        invariant
            i <= rows@.len(),
            out@.len() == i,
            forall|k: int| #![trigger out@[k]] 0 <= k < i ==> out@[k]@ == chip@,
        decreases rows@.len() - i,
    {
        out.push(chip.to_owned());
        i += 1;
    }
    out
}

fn mac_column(rows: &Vec<Row>) -> (r: Vec<String>)
    ensures
        text::texts(r@) == Seq::new(rows@.len(), |i: int| mac_text(rows_text(rows@)[i].csi.mac)),
{
    let mut out: Vec<String> = Vec::new();
    let mut i: usize = 0;
    while i < rows.len()
        invariant
            i <= rows@.len(),
            out@.len() == i,
            forall|k: int|
                #![trigger out@[k]]
                0 <= k < i ==> out@[k]@ == mac_text(rows_text(rows@)[k].csi.mac),
        decreases rows@.len() - i,
    {
        out.push(format_mac(&rows[i].csi.mac));
        i += 1;
    }
    out
}

fn format_column(rows: &Vec<Row>) -> (r: Vec<String>)
    ensures
        text::texts(r@) == Seq::new(
            rows@.len(),
            |i: int| crate::csi::format_name(rows_text(rows@)[i].csi.data_format),
        ),
{
    let mut out: Vec<String> = Vec::new();
    let mut i: usize = 0;
    while i < rows.len()
        invariant
            i <= rows@.len(),
            out@.len() == i,
            forall|k: int|
                #![trigger out@[k]]
                0 <= k < i ==> out@[k]@
                    == crate::csi::format_name(rows_text(rows@)[k].csi.data_format),
        decreases rows@.len() - i,
    {
        out.push(rows[i].csi.data_format.as_str().to_owned());
        i += 1;
    }
    out
}

fn rssi_column(rows: &Vec<Row>) -> (r: Vec<i32>)
    ensures
        r@ == Seq::new(rows@.len(), |i: int| rows_text(rows@)[i].csi.rssi),
{
    let mut out: Vec<i32> = Vec::new();
    let mut i: usize = 0;
    while i < rows.len()
        invariant
            i <= rows@.len(),
            out@.len() == i,
            forall|k: int|
                #![trigger out@[k]]
                0 <= k < i ==> out@[k] == rows_text(rows@)[k].csi.rssi,
        decreases rows@.len() - i,
    {
        out.push(rows[i].csi.rssi);
        i += 1;
    }
    out
}

fn noise_column(rows: &Vec<Row>) -> (r: Vec<i32>)
    ensures
        r@ == Seq::new(rows@.len(), |i: int| rows_text(rows@)[i].csi.noise_floor),
{
    let mut out: Vec<i32> = Vec::new();
    let mut i: usize = 0;
    while i < rows.len()
        invariant
            i <= rows@.len(),
            out@.len() == i,
            forall|k: int|
                #![trigger out@[k]]
                0 <= k < i ==> out@[k] == rows_text(rows@)[k].csi.noise_floor,
        decreases rows@.len() - i,
    {
        out.push(rows[i].csi.noise_floor);
        i += 1;
    }
    out
}

fn sequence_column(rows: &Vec<Row>) -> (r: Vec<u16>)
    ensures
        r@ == Seq::new(rows@.len(), |i: int| rows_text(rows@)[i].csi.sequence_number),
{
    let mut out: Vec<u16> = Vec::new();
    let mut i: usize = 0;
    while i < rows.len()
        invariant
            i <= rows@.len(),
            out@.len() == i,
            forall|k: int|
                #![trigger out@[k]]
                0 <= k < i ==> out@[k] == rows_text(rows@)[k].csi.sequence_number,
        decreases rows@.len() - i,
    {
        out.push(rows[i].csi.sequence_number);
        i += 1;
    }
    out
}

fn length_column(rows: &Vec<Row>) -> (r: Vec<u16>)
    ensures
        r@ == Seq::new(rows@.len(), |i: int| rows_text(rows@)[i].csi.csi_data_len),
{
    let mut out: Vec<u16> = Vec::new();
    let mut i: usize = 0;
    while i < rows.len()
        invariant
            i <= rows@.len(),
            out@.len() == i,
            forall|k: int|
                #![trigger out@[k]]
                0 <= k < i ==> out@[k] == rows_text(rows@)[k].csi.csi_data_len,
        decreases rows@.len() - i,
    {
        out.push(rows[i].csi.csi_data_len);
        i += 1;
    }
    out
}

fn word_column(rows: &Vec<Row>, c: Column) -> (r: Vec<u32>)
    ensures
        r@ == Seq::new(rows@.len(), |i: int| word_cell(c, rows_text(rows@)[i].csi)),
{
    let mut out: Vec<u32> = Vec::new();
    let mut i: usize = 0;
    while i < rows.len()
        invariant
            i <= rows@.len(),
            out@.len() == i,
            forall|k: int|
                #![trigger out@[k]]
                0 <= k < i ==> out@[k] == word_cell(c, rows_text(rows@)[k].csi),
        decreases rows@.len() - i,
    {
        let p = &rows[i].csi;
        let value: u32 = match c {
            Column::Timestamp => p.timestamp,
            Column::Rate => p.rate,
            Column::SigLen => p.sig_len,
            Column::RxState => p.rx_state,
            Column::Channel => p.channel,
            _ => 0,
        };
        out.push(value);
        i += 1;
    }
    out
}

fn time_column(rows: &Vec<Row>, c: Column) -> (r: Vec<Option<u64>>)
    ensures
        r@ == Seq::new(rows@.len(), |i: int| time_cell(c, rows_text(rows@)[i].csi)),
{
    let mut out: Vec<Option<u64>> = Vec::new();
    let mut i: usize = 0;
    while i < rows.len()
        invariant
            i <= rows@.len(),
            out@.len() == i,
            forall|k: int|
                #![trigger out@[k]]
                0 <= k < i ==> out@[k] == time_cell(c, rows_text(rows@)[k].csi),
        decreases rows@.len() - i,
    {
        let value: Option<u64> = match rows[i].csi.date_time {
            Some(d) => Some(
                match c {
                    Column::DtYear => d.year,
                    Column::DtMonth => d.month,
                    Column::DtDay => d.day,
                    Column::DtHour => d.hour,
                    Column::DtMinute => d.minute,
                    Column::DtSecond => d.second,
                    Column::DtMillisecond => d.millisecond,
                    _ => 0,
                },
            ),
            None => None,
        };
        out.push(value);
        i += 1;
    }
    out
}

fn optional_column(rows: &Vec<Row>, c: Column) -> (r: Vec<Option<u32>>)
    ensures
        r@ == Seq::new(rows@.len(), |i: int| chip_cell(c, rows_text(rows@)[i].csi)),
{
    let mut out: Vec<Option<u32>> = Vec::new();
    let mut i: usize = 0;
    while i < rows.len()
        invariant
            i <= rows@.len(),
            out@.len() == i,
            forall|k: int|
                #![trigger out@[k]]
                0 <= k < i ==> out@[k] == chip_cell(c, rows_text(rows@)[k].csi),
        decreases rows@.len() - i,
    {
        let p = &rows[i].csi;
        let value: Option<u32> = match c {
            Column::Sgi => p.sgi,
            Column::SecondaryChannel => p.secondary_channel,
            Column::Bandwidth => p.bandwidth,
            Column::Antenna => p.antenna,
            Column::SigMode => p.sig_mode,
            Column::Mcs => p.mcs,
            Column::Smoothing => p.smoothing,
            Column::NotSounding => p.not_sounding,
            Column::Aggregation => p.aggregation,
            Column::Stbc => p.stbc,
            Column::FecCoding => p.fec_coding,
            Column::AmpduCnt => p.ampdu_cnt,
            Column::DumpLen => p.dump_len,
            Column::CurBbFormat => p.cur_bb_format,
            Column::RxChannelEstimateInfoVld => p.rx_channel_estimate_info_vld,
            Column::RxChannelEstimateLen => p.rx_channel_estimate_len,
            Column::Second => p.second,
            Column::IsGroup => p.is_group,
            Column::RxendState => p.rxend_state,
            Column::Rxmatch3 => p.rxmatch3,
            Column::Rxmatch2 => p.rxmatch2,
            Column::Rxmatch1 => p.rxmatch1,
            Column::HeSigbLen => p.he_sigb_len,
            Column::CurSingleMpdu => p.cur_single_mpdu,
            Column::Rxmatch0 => p.rxmatch0,
            _ => None,
        };
        out.push(value);
        i += 1;
    }
    out
}

fn samples_column(rows: &Vec<Row>) -> (r: Vec<Vec<i8>>)
    ensures
        r@.len() == rows@.len(),
        forall|i: int| 0 <= i < r@.len() ==> (#[trigger] r@[i])@ == rows@[i].csi.csi_data@,
{
    let mut out: Vec<Vec<i8>> = Vec::new();
    let mut i: usize = 0;
    while i < rows.len()
        invariant
            i <= rows@.len(),
            out@.len() == i,
            forall|k: int| 0 <= k < i ==> (#[trigger] out@[k])@ == rows@[k].csi.csi_data@,
        decreases rows@.len() - i,
    {
        let samples: Vec<i8> = rows[i].csi.csi_data.clone();
        assert(samples@ =~= rows@[i as int].csi.csi_data@);
        out.push(samples);
        i += 1;
    }
    out
}

/// The values of one column.
fn column_data(c: Column, rows: &Vec<Row>, chip: &str) -> (r: ColumnData)
    ensures
        r@ == column_values(c, rows_text(rows@), chip@),
{
    match c {
        Column::HostRxTime => ColumnData::Micros(micros_column(rows)),
        Column::Chip => ColumnData::Text(chip_column(rows, chip)),
        Column::Mac => ColumnData::Text(mac_column(rows)),
        Column::DataFormat => ColumnData::Text(format_column(rows)),
        Column::Rssi => ColumnData::Int32(rssi_column(rows)),
        Column::NoiseFloor => ColumnData::Int32(noise_column(rows)),
        Column::SequenceNumber => ColumnData::UInt16(sequence_column(rows)),
        Column::CsiDataLen => ColumnData::UInt16(length_column(rows)),
        Column::CsiData => {
            let lists = samples_column(rows);
            assert(Seq::new(lists@.len(), |i: int| lists@[i]@) =~= Seq::new(
                rows@.len(),
                |i: int| rows_text(rows@)[i].csi.csi_data,
            ));
            ColumnData::Samples(lists)
        },
        Column::Timestamp | Column::Rate | Column::SigLen | Column::RxState | Column::Channel => ColumnData::UInt32(
            word_column(rows, c),
        ),
        Column::DtYear | Column::DtMonth | Column::DtDay | Column::DtHour | Column::DtMinute
        | Column::DtSecond | Column::DtMillisecond => ColumnData::OptUInt64(
            time_column(rows, c),
        ),
        _ => ColumnData::OptUInt32(optional_column(rows, c)),
    }
}

// ── The sink ──────────────────────────────────────────────────────────────

/// The batch of the buffered rows, one entry per column of the schema.
pub open spec fn batch(rows: Seq<RowText>, chip: Seq<char>) -> Seq<ColumnValues> {
    Seq::new(layout().len(), |i: int| column_values(layout()[i], rows, chip))
}

/// Collects the decoded CSI packets of one session.
///
/// The sink says what is to be written and when; its owner holds the file. The end
/// of a session and the end of a link hand the sink over, and whoever gets it finishes
/// it ([`ParquetSink::finish`]), so that a readable file is left.
#[derive(Debug)]
pub struct ParquetSink {
    /// Whether the file still takes rows.
    pub open: bool,
    pub chip: String,
    pub path: String,
    pub buffer: Vec<Row>,
}

/// What a [`ParquetSink`] says.
#[verifier::ext_equal]
pub struct SinkText {
    pub open: bool,
    pub chip: Seq<char>,
    pub path: Seq<char>,
    pub rows: Seq<RowText>,
}

impl View for ParquetSink {
    type V = SinkText;

    open spec fn view(&self) -> SinkText {
        SinkText {
            open: self.open,
            chip: self.chip@,
            path: self.path@,
            rows: rows_text(self.buffer@),
        }
    }
}

/// What is left to do to finish a sink.
#[derive(Debug)]
pub enum FinishStep {
    /// The file is closed already.
    Done,
    /// Write the footer.
    Close,
    /// Write this batch, and the footer where that succeeded.
    WriteThenClose(Vec<ColumnData>),
}

/// A batch that is to be written, as sequences.
pub open spec fn batch_view(b: Option<Vec<ColumnData>>) -> Option<Seq<ColumnValues>> {
    match b {
        Some(v) => Some(batch_values(v@)),
        None => None,
    }
}

/// The batch that a sink has to write before anything else is done with it.
pub open spec fn pending(s: SinkText) -> Option<Seq<ColumnValues>> {
    if s.rows.len() > 0 && s.open {
        Some(batch(s.rows, s.chip))
    } else {
        None
    }
}

/// A sink with its rows written, or with nowhere to write them: an open sink
/// keeps them until the write has succeeded, a closed one drops them.
pub open spec fn after_flush(s: SinkText) -> SinkText {
    SinkText {
        rows: if s.open {
            s.rows
        } else {
            Seq::empty()
        },
        ..s
    }
}

/// A sink after a row was pushed.
pub open spec fn after_push(s: SinkText, row: RowText) -> SinkText {
    let full = SinkText { rows: s.rows.push(row), ..s };
    if full.rows.len() >= ROW_GROUP_SIZE {
        after_flush(full)
    } else {
        full
    }
}

/// The batch that is due when a row was pushed.
pub open spec fn due_after_push(s: SinkText, row: RowText) -> Option<Seq<ColumnValues>> {
    let full = SinkText { rows: s.rows.push(row), ..s };
    if full.rows.len() >= ROW_GROUP_SIZE {
        pending(full)
    } else {
        None
    }
}

/// A sink over a file that was just created.
pub open spec fn opened_sink(path: Seq<char>, chip: Seq<char>) -> SinkText {
    SinkText { open: true, chip, path, rows: Seq::empty() }
}

/// A sink whose batch was written.
pub open spec fn emptied_sink(s: SinkText) -> SinkText {
    SinkText { rows: Seq::empty(), ..s }
}

/// A sink whose file takes no more rows.
pub open spec fn closed_sink(s: SinkText) -> SinkText {
    SinkText { open: false, ..s }
}

impl ParquetSink {
    /// A sink over the file at `path` for a session on the given `chip`.
    pub fn open(path: &str, chip: &str) -> (r: Self)
        ensures
            r@ == opened_sink(path@, chip@),
    {
        ParquetSink {
            open: true,
            chip: chip.to_owned(),
            path: path.to_owned(),
            buffer: Vec::new(),
        }
    }

    /// Append one decoded packet stamped with the host receive time (UTC
    /// microseconds). Once the buffer is full, the batch to write is returned;
    /// the rows stay until [`ParquetSink::written`].
    pub fn push(&mut self, csi: DecodedCsi, host_rx_micros: i64) -> (r: Option<Vec<ColumnData>>)
        ensures
            final(self)@ == after_push(old(self)@, RowText { host_rx_micros, csi: csi@ }),
            batch_view(r) == due_after_push(old(self)@, RowText { host_rx_micros, csi: csi@ }),
    {
        let ghost before = self.buffer@;
        let ghost row = Row { host_rx_micros, csi };
        self.buffer.push(Row { host_rx_micros, csi });
        assert(rows_text(self.buffer@) =~= rows_text(before).push(row@));
        if self.buffer.len() >= ROW_GROUP_SIZE {
            self.flush()
        } else {
            None
        }
    }

    /// The buffered rows as a batch to write. They stay buffered until
    /// [`ParquetSink::written`]; a sink that is closed has nowhere to write and
    /// drops them.
    pub fn flush(&mut self) -> (r: Option<Vec<ColumnData>>)
        ensures
            batch_view(r) == pending(old(self)@),
            final(self)@ == after_flush(old(self)@),
    {
        if self.buffer.len() == 0 {
            assert(rows_text(self.buffer@) =~= Seq::empty());
            return None;
        }
        if self.open {
            let b = self.build_batch();
            Some(b)
        } else {
            self.buffer.clear();
            assert(rows_text(self.buffer@) =~= Seq::empty());
            None
        }
    }

    /// The last batch was written: its rows leave the buffer. After a failed
    /// write this is not called, and the rows are part of the next batch.
    pub fn written(&mut self)
        ensures
            final(self)@ == emptied_sink(old(self)@),
    {
        self.buffer.clear();
        assert(rows_text(self.buffer@) =~= Seq::empty());
    }

    /// What is to be done to finish the file. Idempotent: once the sink is closed
    /// nothing is left to do.
    pub fn finish(&mut self) -> (r: FinishStep)
        ensures
            *final(self) == *old(self),
            match r {
                FinishStep::Done => !old(self)@.open,
                FinishStep::Close => old(self)@.open && old(self)@.rows.len() == 0,
                FinishStep::WriteThenClose(b) => old(self)@.open && old(self)@.rows.len() > 0
                    && batch_values(b@) == batch(old(self)@.rows, old(self)@.chip),
            },
    {
        if !self.open {
            FinishStep::Done
        } else if self.buffer.len() == 0 {
            FinishStep::Close
        } else {
            FinishStep::WriteThenClose(self.build_batch())
        }
    }

    /// The file takes no more rows.
    pub fn close(&mut self)
        ensures
            final(self)@ == closed_sink(old(self)@),
    {
        self.open = false;
    }

    /// The buffered rows, column by column, in the order of [`build_schema`].
    pub fn build_batch(&self) -> (r: Vec<ColumnData>)
        ensures
            batch_values(r@) == batch(self@.rows, self@.chip),
    {
        let list = columns();
        let mut out: Vec<ColumnData> = Vec::new();
        let mut i: usize = 0;
        while i < list.len()
            invariant
                list@ == layout(),
                i <= list@.len(),
                out@.len() == i,
                forall|k: int|
                    0 <= k < i ==> (#[trigger] out@[k])@ == column_values(
                        layout()[k],
                        self@.rows,
                        self@.chip,
                    ),
            decreases list@.len() - i,
        {
            out.push(column_data(list[i], &self.buffer, self.chip.as_str()));
            i += 1;
        }
        out
    }
}

/// Error opening, writing, or closing a session file.
#[derive(Debug)]
pub enum ParquetSinkError {
    Io(String),
    Arrow(String),
    Parquet(String),
}

/// An error of a sink, in words.
pub open spec fn sink_failure(e: ParquetSinkError) -> Seq<char> {
    match e {
        ParquetSinkError::Io(e) => "parquet sink io error: "@ + e@,
        ParquetSinkError::Arrow(e) => "parquet sink arrow error: "@ + e@,
        ParquetSinkError::Parquet(e) => "parquet sink error: "@ + e@,
    }
}

impl ParquetSinkError {
    /// The error in words.
    pub fn message(&self) -> (r: String)
        ensures
            r@ == sink_failure(*self),
    {
        match self {
            ParquetSinkError::Io(e) => text::join2("parquet sink io error: ", e.as_str()),
            ParquetSinkError::Arrow(e) => text::join2("parquet sink arrow error: ", e.as_str()),
            ParquetSinkError::Parquet(e) => text::join2("parquet sink error: ", e.as_str()),
        }
    }
}

// ── Laws ──────────────────────────────────────────────────────────────────

/// The type of a column's values.
pub open spec fn values_type(v: ColumnValues) -> ColumnType {
    match v {
        ColumnValues::Micros(_) => ColumnType::TimestampMicrosUtc,
        ColumnValues::Text(_) => ColumnType::Utf8,
        ColumnValues::Int32(_) => ColumnType::Int32,
        ColumnValues::UInt32(_) => ColumnType::UInt32,
        ColumnValues::UInt16(_) => ColumnType::UInt16,
        ColumnValues::OptUInt32(_) => ColumnType::UInt32,
        ColumnValues::OptUInt64(_) => ColumnType::UInt64,
        ColumnValues::Samples(_) => ColumnType::ListInt8,
    }
}

/// The number of a column's values.
pub open spec fn values_len(v: ColumnValues) -> nat {
    match v {
        ColumnValues::Micros(s) => s.len(),
        ColumnValues::Text(s) => s.len(),
        ColumnValues::Int32(s) => s.len(),
        ColumnValues::UInt32(s) => s.len(),
        ColumnValues::UInt16(s) => s.len(),
        ColumnValues::OptUInt32(s) => s.len(),
        ColumnValues::OptUInt64(s) => s.len(),
        ColumnValues::Samples(s) => s.len(),
    }
}

/// Whether a column's values can hold a null.
pub open spec fn values_nullable(v: ColumnValues) -> bool {
    v is OptUInt32 || v is OptUInt64
}

/// Every batch fits the schema: the same columns in the same order, each with the
/// type that the schema gives it, a value for every row, and nulls only where the
/// schema allows them.
pub proof fn law_batch_fits_schema(rows: Seq<RowText>, chip: Seq<char>)
    ensures
        batch(rows, chip).len() == schema().len(),
        forall|i: int|
            0 <= i < schema().len() ==> {
                &&& values_type(#[trigger] batch(rows, chip)[i]) == schema()[i].column_type
                &&& values_len(batch(rows, chip)[i]) == rows.len()
                &&& values_nullable(batch(rows, chip)[i]) == schema()[i].nullable
            },
{
    assert forall|i: int| 0 <= i < schema().len() implies {
        &&& values_type(#[trigger] batch(rows, chip)[i]) == schema()[i].column_type
        &&& values_len(batch(rows, chip)[i]) == rows.len()
        &&& values_nullable(batch(rows, chip)[i]) == schema()[i].nullable
    } by {
        let c = layout()[i];
        lemma_column_fits(c, rows, chip);
    }
}

/// Whether a chip reports what the column holds.
pub open spec fn reported(c: Column, chip: ChipVariant) -> bool {
    match c {
        Column::Sgi | Column::SecondaryChannel | Column::Bandwidth | Column::Antenna
        | Column::SigMode | Column::Mcs | Column::Smoothing | Column::NotSounding
        | Column::Aggregation | Column::Stbc | Column::FecCoding | Column::AmpduCnt => chip == ChipVariant::Esp32Family,
        Column::DumpLen | Column::CurBbFormat | Column::RxChannelEstimateInfoVld
        | Column::RxChannelEstimateLen | Column::Second | Column::IsGroup | Column::RxendState
        | Column::Rxmatch3 | Column::Rxmatch2 | Column::Rxmatch1 => chip != ChipVariant::Esp32Family,
        Column::HeSigbLen | Column::CurSingleMpdu | Column::Rxmatch0 => chip == ChipVariant::Esp32c6,
        _ => true,
    }
}

/// In the rows of a chip, the columns that only other chips have are null, and its
/// own are not.
pub proof fn law_columns_of_other_chips_are_null(frame: Seq<u8>, chip: ChipVariant, c: Column)
    requires
        decoded_frame(frame, chip) is Ok,
        c.optional(),
        c.kind() == ColumnType::UInt32,
    ensures
        chip_cell(c, decoded_frame(frame, chip)->Ok_0) is Some <==> reported(c, chip),
{
    crate::csi::law_fields_follow_the_chip(frame, chip);
}

proof fn lemma_column_fits(c: Column, rows: Seq<RowText>, chip: Seq<char>)
    ensures
        values_type(column_values(c, rows, chip)) == c.kind(),
        values_len(column_values(c, rows, chip)) == rows.len(),
        values_nullable(column_values(c, rows, chip)) == c.optional(),
{
}

/// The columns of a session file: what they are called, what type they have, and
/// which of them may lack a value.
pub proof fn law_schema_of_a_session_file()
    ensures
        schema().len() == 46,
        schema()[0] == (FieldText { name: "host_rx_time"@, column_type: ColumnType::TimestampMicrosUtc, nullable: false }),
        schema()[1] == (FieldText { name: "chip"@, column_type: ColumnType::Utf8, nullable: false }),
        schema()[2] == (FieldText { name: "mac"@, column_type: ColumnType::Utf8, nullable: false }),
        schema()[3] == (FieldText { name: "rssi"@, column_type: ColumnType::Int32, nullable: false }),
        schema()[4] == (FieldText { name: "timestamp"@, column_type: ColumnType::UInt32, nullable: false }),
        schema()[5] == (FieldText { name: "rate"@, column_type: ColumnType::UInt32, nullable: false }),
        schema()[6] == (FieldText { name: "noise_floor"@, column_type: ColumnType::Int32, nullable: false }),
        schema()[7] == (FieldText { name: "sig_len"@, column_type: ColumnType::UInt32, nullable: false }),
        schema()[8] == (FieldText { name: "rx_state"@, column_type: ColumnType::UInt32, nullable: false }),
        schema()[9] == (FieldText { name: "channel"@, column_type: ColumnType::UInt32, nullable: false }),
        schema()[10] == (FieldText { name: "sequence_number"@, column_type: ColumnType::UInt16, nullable: false }),
        schema()[11] == (FieldText { name: "data_format"@, column_type: ColumnType::Utf8, nullable: false }),
        schema()[12] == (FieldText { name: "csi_data_len"@, column_type: ColumnType::UInt16, nullable: false }),
        schema()[13] == (FieldText { name: "csi_data"@, column_type: ColumnType::ListInt8, nullable: false }),
        schema()[14] == (FieldText { name: "dt_year"@, column_type: ColumnType::UInt64, nullable: true }),
        schema()[15] == (FieldText { name: "dt_month"@, column_type: ColumnType::UInt64, nullable: true }),
        schema()[16] == (FieldText { name: "dt_day"@, column_type: ColumnType::UInt64, nullable: true }),
        schema()[17] == (FieldText { name: "dt_hour"@, column_type: ColumnType::UInt64, nullable: true }),
        schema()[18] == (FieldText { name: "dt_minute"@, column_type: ColumnType::UInt64, nullable: true }),
        schema()[19] == (FieldText { name: "dt_second"@, column_type: ColumnType::UInt64, nullable: true }),
        schema()[20] == (FieldText { name: "dt_millisecond"@, column_type: ColumnType::UInt64, nullable: true }),
        schema()[21] == (FieldText { name: "sgi"@, column_type: ColumnType::UInt32, nullable: true }),
        schema()[22] == (FieldText { name: "secondary_channel"@, column_type: ColumnType::UInt32, nullable: true }),
        schema()[23] == (FieldText { name: "bandwidth"@, column_type: ColumnType::UInt32, nullable: true }),
        schema()[24] == (FieldText { name: "antenna"@, column_type: ColumnType::UInt32, nullable: true }),
        schema()[25] == (FieldText { name: "sig_mode"@, column_type: ColumnType::UInt32, nullable: true }),
        schema()[26] == (FieldText { name: "mcs"@, column_type: ColumnType::UInt32, nullable: true }),
        schema()[27] == (FieldText { name: "smoothing"@, column_type: ColumnType::UInt32, nullable: true }),
        schema()[28] == (FieldText { name: "not_sounding"@, column_type: ColumnType::UInt32, nullable: true }),
        schema()[29] == (FieldText { name: "aggregation"@, column_type: ColumnType::UInt32, nullable: true }),
        schema()[30] == (FieldText { name: "stbc"@, column_type: ColumnType::UInt32, nullable: true }),
        schema()[31] == (FieldText { name: "fec_coding"@, column_type: ColumnType::UInt32, nullable: true }),
        schema()[32] == (FieldText { name: "ampdu_cnt"@, column_type: ColumnType::UInt32, nullable: true }),
        schema()[33] == (FieldText { name: "dump_len"@, column_type: ColumnType::UInt32, nullable: true }),
        schema()[34] == (FieldText { name: "cur_bb_format"@, column_type: ColumnType::UInt32, nullable: true }),
        schema()[35] == (FieldText { name: "rx_channel_estimate_info_vld"@, column_type: ColumnType::UInt32, nullable: true }),
        schema()[36] == (FieldText { name: "rx_channel_estimate_len"@, column_type: ColumnType::UInt32, nullable: true }),
        schema()[37] == (FieldText { name: "second"@, column_type: ColumnType::UInt32, nullable: true }),
        schema()[38] == (FieldText { name: "is_group"@, column_type: ColumnType::UInt32, nullable: true }),
        schema()[39] == (FieldText { name: "rxend_state"@, column_type: ColumnType::UInt32, nullable: true }),
        schema()[40] == (FieldText { name: "rxmatch3"@, column_type: ColumnType::UInt32, nullable: true }),
        schema()[41] == (FieldText { name: "rxmatch2"@, column_type: ColumnType::UInt32, nullable: true }),
        schema()[42] == (FieldText { name: "rxmatch1"@, column_type: ColumnType::UInt32, nullable: true }),
        schema()[43] == (FieldText { name: "sigb_len"@, column_type: ColumnType::UInt32, nullable: true }),
        schema()[44] == (FieldText { name: "cur_single_mpdu"@, column_type: ColumnType::UInt32, nullable: true }),
        schema()[45] == (FieldText { name: "rxmatch0"@, column_type: ColumnType::UInt32, nullable: true }),
{
}

/// Every chip reports what these columns hold: each holds, row by row, the field of the
/// record that it is named after.
pub proof fn law_common_columns_hold_their_fields(rows: Seq<RowText>, chip: Seq<char>)
    ensures
        schema()[0].name == "host_rx_time"@,
        batch(rows, chip)[0] == ColumnValues::Micros(
            Seq::new(
                rows.len(),
                |i: int| rows[i].host_rx_micros,
            ),
        ),
        schema()[1].name == "chip"@,
        batch(rows, chip)[1] == ColumnValues::Text(
            Seq::new(
                rows.len(),
                |i: int| chip,
            ),
        ),
        schema()[2].name == "mac"@,
        batch(rows, chip)[2] == ColumnValues::Text(
            Seq::new(
                rows.len(),
                |i: int| mac_text(rows[i].csi.mac),
            ),
        ),
        schema()[3].name == "rssi"@,
        batch(rows, chip)[3] == ColumnValues::Int32(
            Seq::new(
                rows.len(),
                |i: int| rows[i].csi.rssi,
            ),
        ),
        schema()[4].name == "timestamp"@,
        batch(rows, chip)[4] == ColumnValues::UInt32(
            Seq::new(
                rows.len(),
                |i: int| rows[i].csi.timestamp,
            ),
        ),
        schema()[5].name == "rate"@,
        batch(rows, chip)[5] == ColumnValues::UInt32(
            Seq::new(
                rows.len(),
                |i: int| rows[i].csi.rate,
            ),
        ),
        schema()[6].name == "noise_floor"@,
        batch(rows, chip)[6] == ColumnValues::Int32(
            Seq::new(
                rows.len(),
                |i: int| rows[i].csi.noise_floor,
            ),
        ),
        schema()[7].name == "sig_len"@,
        batch(rows, chip)[7] == ColumnValues::UInt32(
            Seq::new(
                rows.len(),
                |i: int| rows[i].csi.sig_len,
            ),
        ),
        schema()[8].name == "rx_state"@,
        batch(rows, chip)[8] == ColumnValues::UInt32(
            Seq::new(
                rows.len(),
                |i: int| rows[i].csi.rx_state,
            ),
        ),
        schema()[9].name == "channel"@,
        batch(rows, chip)[9] == ColumnValues::UInt32(
            Seq::new(
                rows.len(),
                |i: int| rows[i].csi.channel,
            ),
        ),
        schema()[10].name == "sequence_number"@,
        batch(rows, chip)[10] == ColumnValues::UInt16(
            Seq::new(
                rows.len(),
                |i: int| rows[i].csi.sequence_number,
            ),
        ),
        schema()[11].name == "data_format"@,
        batch(rows, chip)[11] == ColumnValues::Text(
            Seq::new(
                rows.len(),
                |i: int| format_name(rows[i].csi.data_format),
            ),
        ),
        schema()[12].name == "csi_data_len"@,
        batch(rows, chip)[12] == ColumnValues::UInt16(
            Seq::new(
                rows.len(),
                |i: int| rows[i].csi.csi_data_len,
            ),
        ),
        schema()[13].name == "csi_data"@,
        batch(rows, chip)[13] == ColumnValues::Samples(
            Seq::new(
                rows.len(),
                |i: int| rows[i].csi.csi_data,
            ),
        ),
{
}

/// The calendar columns hold the parts of the NTP time that they are named after, and
/// nulls where a packet carries none.
pub proof fn law_calendar_columns_hold_their_fields(rows: Seq<RowText>, chip: Seq<char>)
    ensures
        schema()[14].name == "dt_year"@,
        batch(rows, chip)[14] == ColumnValues::OptUInt64(
            Seq::new(
                rows.len(),
                |i: int| match rows[i].csi.date_time {
                    Some(d) => Some(d.year),
                    None => None,
                },
            ),
        ),
        schema()[15].name == "dt_month"@,
        batch(rows, chip)[15] == ColumnValues::OptUInt64(
            Seq::new(
                rows.len(),
                |i: int| match rows[i].csi.date_time {
                    Some(d) => Some(d.month),
                    None => None,
                },
            ),
        ),
        schema()[16].name == "dt_day"@,
        batch(rows, chip)[16] == ColumnValues::OptUInt64(
            Seq::new(
                rows.len(),
                |i: int| match rows[i].csi.date_time {
                    Some(d) => Some(d.day),
                    None => None,
                },
            ),
        ),
        schema()[17].name == "dt_hour"@,
        batch(rows, chip)[17] == ColumnValues::OptUInt64(
            Seq::new(
                rows.len(),
                |i: int| match rows[i].csi.date_time {
                    Some(d) => Some(d.hour),
                    None => None,
                },
            ),
        ),
        schema()[18].name == "dt_minute"@,
        batch(rows, chip)[18] == ColumnValues::OptUInt64(
            Seq::new(
                rows.len(),
                |i: int| match rows[i].csi.date_time {
                    Some(d) => Some(d.minute),
                    None => None,
                },
            ),
        ),
        schema()[19].name == "dt_second"@,
        batch(rows, chip)[19] == ColumnValues::OptUInt64(
            Seq::new(
                rows.len(),
                |i: int| match rows[i].csi.date_time {
                    Some(d) => Some(d.second),
                    None => None,
                },
            ),
        ),
        schema()[20].name == "dt_millisecond"@,
        batch(rows, chip)[20] == ColumnValues::OptUInt64(
            Seq::new(
                rows.len(),
                |i: int| match rows[i].csi.date_time {
                    Some(d) => Some(d.millisecond),
                    None => None,
                },
            ),
        ),
{
}

/// The columns that only the esp32, esp32c3 and esp32s3 fill hold, row by row, the field
/// of the record that they are named after.
pub proof fn law_radio_columns_hold_their_fields(rows: Seq<RowText>, chip: Seq<char>)
    ensures
        schema()[21].name == "sgi"@,
        batch(rows, chip)[21] == ColumnValues::OptUInt32(
            Seq::new(
                rows.len(),
                |i: int| rows[i].csi.sgi,
            ),
        ),
        schema()[22].name == "secondary_channel"@,
        batch(rows, chip)[22] == ColumnValues::OptUInt32(
            Seq::new(
                rows.len(),
                |i: int| rows[i].csi.secondary_channel,
            ),
        ),
        schema()[23].name == "bandwidth"@,
        batch(rows, chip)[23] == ColumnValues::OptUInt32(
            Seq::new(
                rows.len(),
                |i: int| rows[i].csi.bandwidth,
            ),
        ),
        schema()[24].name == "antenna"@,
        batch(rows, chip)[24] == ColumnValues::OptUInt32(
            Seq::new(
                rows.len(),
                |i: int| rows[i].csi.antenna,
            ),
        ),
        schema()[25].name == "sig_mode"@,
        batch(rows, chip)[25] == ColumnValues::OptUInt32(
            Seq::new(
                rows.len(),
                |i: int| rows[i].csi.sig_mode,
            ),
        ),
        schema()[26].name == "mcs"@,
        batch(rows, chip)[26] == ColumnValues::OptUInt32(
            Seq::new(
                rows.len(),
                |i: int| rows[i].csi.mcs,
            ),
        ),
        schema()[27].name == "smoothing"@,
        batch(rows, chip)[27] == ColumnValues::OptUInt32(
            Seq::new(
                rows.len(),
                |i: int| rows[i].csi.smoothing,
            ),
        ),
        schema()[28].name == "not_sounding"@,
        batch(rows, chip)[28] == ColumnValues::OptUInt32(
            Seq::new(
                rows.len(),
                |i: int| rows[i].csi.not_sounding,
            ),
        ),
        schema()[29].name == "aggregation"@,
        batch(rows, chip)[29] == ColumnValues::OptUInt32(
            Seq::new(
                rows.len(),
                |i: int| rows[i].csi.aggregation,
            ),
        ),
        schema()[30].name == "stbc"@,
        batch(rows, chip)[30] == ColumnValues::OptUInt32(
            Seq::new(
                rows.len(),
                |i: int| rows[i].csi.stbc,
            ),
        ),
        schema()[31].name == "fec_coding"@,
        batch(rows, chip)[31] == ColumnValues::OptUInt32(
            Seq::new(
                rows.len(),
                |i: int| rows[i].csi.fec_coding,
            ),
        ),
        schema()[32].name == "ampdu_cnt"@,
        batch(rows, chip)[32] == ColumnValues::OptUInt32(
            Seq::new(
                rows.len(),
                |i: int| rows[i].csi.ampdu_cnt,
            ),
        ),
{
}

/// The columns that only the esp32c5 and esp32c6 fill hold, row by row, the field of the
/// record that they are named after.
pub proof fn law_reduced_columns_hold_their_fields(rows: Seq<RowText>, chip: Seq<char>)
    ensures
        schema()[33].name == "dump_len"@,
        batch(rows, chip)[33] == ColumnValues::OptUInt32(
            Seq::new(
                rows.len(),
                |i: int| rows[i].csi.dump_len,
            ),
        ),
        schema()[34].name == "cur_bb_format"@,
        batch(rows, chip)[34] == ColumnValues::OptUInt32(
            Seq::new(
                rows.len(),
                |i: int| rows[i].csi.cur_bb_format,
            ),
        ),
        schema()[35].name == "rx_channel_estimate_info_vld"@,
        batch(rows, chip)[35] == ColumnValues::OptUInt32(
            Seq::new(
                rows.len(),
                |i: int| rows[i].csi.rx_channel_estimate_info_vld,
            ),
        ),
        schema()[36].name == "rx_channel_estimate_len"@,
        batch(rows, chip)[36] == ColumnValues::OptUInt32(
            Seq::new(
                rows.len(),
                |i: int| rows[i].csi.rx_channel_estimate_len,
            ),
        ),
        schema()[37].name == "second"@,
        batch(rows, chip)[37] == ColumnValues::OptUInt32(
            Seq::new(
                rows.len(),
                |i: int| rows[i].csi.second,
            ),
        ),
        schema()[38].name == "is_group"@,
        batch(rows, chip)[38] == ColumnValues::OptUInt32(
            Seq::new(
                rows.len(),
                |i: int| rows[i].csi.is_group,
            ),
        ),
        schema()[39].name == "rxend_state"@,
        batch(rows, chip)[39] == ColumnValues::OptUInt32(
            Seq::new(
                rows.len(),
                |i: int| rows[i].csi.rxend_state,
            ),
        ),
        schema()[40].name == "rxmatch3"@,
        batch(rows, chip)[40] == ColumnValues::OptUInt32(
            Seq::new(
                rows.len(),
                |i: int| rows[i].csi.rxmatch3,
            ),
        ),
        schema()[41].name == "rxmatch2"@,
        batch(rows, chip)[41] == ColumnValues::OptUInt32(
            Seq::new(
                rows.len(),
                |i: int| rows[i].csi.rxmatch2,
            ),
        ),
        schema()[42].name == "rxmatch1"@,
        batch(rows, chip)[42] == ColumnValues::OptUInt32(
            Seq::new(
                rows.len(),
                |i: int| rows[i].csi.rxmatch1,
            ),
        ),
        schema()[43].name == "sigb_len"@,
        batch(rows, chip)[43] == ColumnValues::OptUInt32(
            Seq::new(
                rows.len(),
                |i: int| rows[i].csi.he_sigb_len,
            ),
        ),
        schema()[44].name == "cur_single_mpdu"@,
        batch(rows, chip)[44] == ColumnValues::OptUInt32(
            Seq::new(
                rows.len(),
                |i: int| rows[i].csi.cur_single_mpdu,
            ),
        ),
        schema()[45].name == "rxmatch0"@,
        batch(rows, chip)[45] == ColumnValues::OptUInt32(
            Seq::new(
                rows.len(),
                |i: int| rows[i].csi.rxmatch0,
            ),
        ),
{
}

/// A MAC address is written as six pairs of hexadecimal digits in small letters, with
/// colons between; each pair denotes its byte.
pub proof fn law_mac_text(mac: [u8; 6])
    ensures
        mac_text(mac).len() == 17,
        forall|k: int|
            0 <= k < 6 ==> {
                &&& mac_text(mac)[3 * k] == "0123456789abcdef"@[(#[trigger] mac@[k]) as int / 16]
                &&& mac_text(mac)[3 * k + 1] == "0123456789abcdef"@[mac@[k] as int % 16]
            },
        forall|k: int| 0 <= k < 5 ==> mac_text(mac)[#[trigger] (3 * k + 2)] == ':',
{
    reveal_strlit(":");
    reveal_strlit("0123456789abcdef");
    reveal_with_fuel(mac_prefix, 7);
    let m = mac@;
    lemma_hex_digits();
    assert(mac_prefix(m, 1) == hex_byte(m[0]));
    assert(mac_prefix(m, 2) == mac_prefix(m, 1) + ":"@ + hex_byte(m[1]));
    assert(mac_prefix(m, 3) == mac_prefix(m, 2) + ":"@ + hex_byte(m[2]));
    assert(mac_prefix(m, 4) == mac_prefix(m, 3) + ":"@ + hex_byte(m[3]));
    assert(mac_prefix(m, 5) == mac_prefix(m, 4) + ":"@ + hex_byte(m[4]));
    assert(mac_prefix(m, 6) == mac_prefix(m, 5) + ":"@ + hex_byte(m[5]));
    assert forall|k: int| 0 <= k < 6 implies {
        &&& mac_text(mac)[3 * k] == "0123456789abcdef"@[(#[trigger] mac@[k]) as int / 16]
        &&& mac_text(mac)[3 * k + 1] == "0123456789abcdef"@[mac@[k] as int % 16]
    } by {
        assert(k == 0 || k == 1 || k == 2 || k == 3 || k == 4 || k == 5);
        assert(hex_digit(mac@[k] as nat / 16) == "0123456789abcdef"@[mac@[k] as int / 16]);
        assert(hex_digit(mac@[k] as nat % 16) == "0123456789abcdef"@[mac@[k] as int % 16]);
    }
    assert forall|k: int| 0 <= k < 5 implies mac_text(mac)[#[trigger] (3 * k + 2)] == ':' by {
        assert(k == 0 || k == 1 || k == 2 || k == 3 || k == 4);
    }
}

proof fn lemma_hex_digits()
    ensures
        forall|n: nat| n < 16 ==> #[trigger] hex_digit(n) == "0123456789abcdef"@[n as int],
{
    reveal_strlit("0123456789abcdef");
}

/// An open sink keeps every row that is pushed, in order. Nothing is written until
/// there are 256 rows; then all of them are due, as one batch, with each further row.
pub proof fn law_rows_are_kept_until_written(s: SinkText, row: RowText)
    requires
        s.open,
    ensures
        after_push(s, row) == (SinkText { rows: s.rows.push(row), ..s }),
        s.rows.len() + 1 < 256 ==> due_after_push(s, row) is None,
        s.rows.len() + 1 >= 256 ==> due_after_push(s, row) == Some(batch(s.rows.push(row), s.chip)),
        s.rows.len() > 0 ==> pending(s) == Some(batch(s.rows, s.chip)),
        s.rows.len() == 0 ==> pending(s) is None,
        after_flush(s) == s,
{
}

/// A sink that is closed writes nothing.
pub proof fn law_closed_sinks_write_nothing(s: SinkText, row: RowText)
    requires
        !s.open,
    ensures
        due_after_push(s, row) is None,
        pending(s) is None,
        after_flush(s).rows.len() == 0,
        !after_push(s, row).open,
{
}

/// A sink that is closed gathers rows, drops them with every 256th, and keeps its path
/// and its chip.
pub proof fn law_closed_sinks_drop_their_rows(s: SinkText, row: RowText)
    requires
        !s.open,
    ensures
        s.rows.len() + 1 < 256 ==> after_push(s, row).rows == s.rows.push(row),
        s.rows.len() + 1 >= 256 ==> after_push(s, row).rows.len() == 0,
        after_push(s, row).path == s.path && after_push(s, row).chip == s.chip,
        after_flush(s).path == s.path && after_flush(s).chip == s.chip && !after_flush(s).open,
{
}

/// A new sink is open, for its path and its chip, and has nothing to write; neither has
/// one whose batch was written, nor one that is closed. None of this changes what file
/// it is or which chip it is for.
pub proof fn law_lives_of_sinks(s: SinkText, path: Seq<char>, chip: Seq<char>)
    ensures
        opened_sink(path, chip).open,
        opened_sink(path, chip).path == path,
        opened_sink(path, chip).chip == chip,
        pending(opened_sink(path, chip)) is None,
        pending(emptied_sink(s)) is None,
        emptied_sink(s) == (SinkText { rows: emptied_sink(s).rows, ..s }),
        emptied_sink(s).rows.len() == 0,
        pending(closed_sink(s)) is None,
        closed_sink(s).rows == s.rows && closed_sink(s).path == s.path && closed_sink(s).chip
            == s.chip,
        !closed_sink(s).open,
{
}

/// Each failure of a sink is told in full, with where it came from.
pub proof fn law_failures_of_sinks(e: String)
    ensures
        sink_failure(ParquetSinkError::Io(e)) == "parquet sink io error: "@ + e@,
        sink_failure(ParquetSinkError::Arrow(e)) == "parquet sink arrow error: "@ + e@,
        sink_failure(ParquetSinkError::Parquet(e)) == "parquet sink error: "@ + e@,
{
}

/// Sinks, rows, fields and columns show what they hold.
pub proof fn law_sinks_show_their_fields(s: ParquetSink, row: Row, field: ColumnField)
    ensures
        s@.open == s.open,
        s@.chip == s.chip@,
        s@.path == s.path@,
        s@.rows.len() == s.buffer@.len(),
        forall|i: int| 0 <= i < s.buffer@.len() ==> #[trigger] s@.rows[i] == s.buffer@[i]@,
        row@.host_rx_micros == row.host_rx_micros,
        row@.csi == row.csi@,
        field@.name == field.name@,
        field@.column_type == field.column_type,
        field@.nullable == field.nullable,
{
}

/// Fields and columns are shown one by one, in order; cells in their own type.
pub proof fn law_columns_show_their_cells(
    fields: Seq<ColumnField>,
    columns: Vec<ColumnData>,
    samples: Vec<Vec<i8>>,
    c: ColumnData,
)
    ensures
        fields_text(fields).len() == fields.len(),
        forall|i: int| 0 <= i < fields.len() ==> #[trigger] fields_text(fields)[i] == fields[i]@,
        batch_view(None) is None,
        batch_view(Some(columns)) matches Some(b) && b.len() == columns@.len() && (forall|i: int|
            0 <= i < columns@.len() ==> #[trigger] b[i] == columns@[i]@),
        c matches ColumnData::Micros(v) ==> c@ == ColumnValues::Micros(v@),
        c matches ColumnData::Text(v) ==> c@ == ColumnValues::Text(text::texts(v@)),
        c matches ColumnData::Int32(v) ==> c@ == ColumnValues::Int32(v@),
        c matches ColumnData::UInt32(v) ==> c@ == ColumnValues::UInt32(v@),
        c matches ColumnData::UInt16(v) ==> c@ == ColumnValues::UInt16(v@),
        c matches ColumnData::OptUInt32(v) ==> c@ == ColumnValues::OptUInt32(v@),
        c matches ColumnData::OptUInt64(v) ==> c@ == ColumnValues::OptUInt64(v@),
        ColumnData::Samples(samples)@ matches ColumnValues::Samples(t) && t.len() == samples@.len()
            && (forall|i: int| 0 <= i < samples@.len() ==> #[trigger] t[i] == samples@[i]@),
{
}

} // verus!
