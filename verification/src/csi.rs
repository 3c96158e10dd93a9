//! Decoder for the firmware's `serialized` CSI wire format.
//!
//! In `serialized` mode a board emits each CSI sample as a COBS-framed,
//! postcard-encoded record closed by a zero byte. postcard writes the fields of
//! a record one after another without names, so a record and a nested tuple of
//! the same fields in the same order have the same bytes: the tuples `WireA`,
//! `WireBc5` and `WireBc6` are the wire layouts.
//!
//! ## Chip layouts
//! - esp32 / esp32c3 / esp32s3: the full radio-metadata layout ([`PacketA`]).
//! - esp32c5 / esp32c6: another field set ([`PacketBc5`] / [`PacketBc6`]), where
//!   c6 also carries `he_sigb_len`, `cur_single_mpdu` and `rxmatch0`.
//!
//! The host learns the chip from the firmware `info` exchange and picks the
//! matching layout.

use vstd::prelude::*;

use crate::text;

verus! {

/// Which record layout a connected chip produces.
#[derive(Debug, Clone, Copy, PartialEq, Eq, Structural)]
pub enum ChipVariant {
    /// esp32, esp32c3, esp32s3: the full radio-metadata layout ([`PacketA`]).
    Esp32Family,
    /// esp32c5: the reduced layout without the c6-only fields ([`PacketBc5`]).
    Esp32c5,
    /// esp32c6: the reduced layout plus `he_sigb_len`/`cur_single_mpdu`/`rxmatch0`.
    Esp32c6,
}

/// The layout of a chip by its small-letter name.
pub open spec fn layout_of(name: Seq<char>) -> Option<ChipVariant> {
    if name == "esp32"@ || name == "esp32c3"@ || name == "esp32s3"@ || name == "esp32s2"@ {
        Some(ChipVariant::Esp32Family)
    } else if name == "esp32c5"@ {
        Some(ChipVariant::Esp32c5)
    } else if name == "esp32c6"@ {
        Some(ChipVariant::Esp32c6)
    } else {
        None
    }
}

/// The layout that a firmware `chip=` value names: white space around it and
/// the case of ASCII letters do not matter.
pub open spec fn chip_layout(chip: Seq<char>) -> Option<ChipVariant> {
    layout_of(text::lower(text::trimmed(chip)))
}

impl ChipVariant {
    /// Map a firmware `chip=` string (case-insensitive) to its wire layout.
    ///
    /// Returns `None` for unrecognized chips so the caller can refuse to decode
    /// rather than guess a layout.
    pub fn from_chip_str(chip: &str) -> (r: Option<Self>)
        ensures
            r == chip_layout(chip@),
    {
        let name = text::lower_text(text::trim_text(chip).as_str());
        let s = name.as_str();
        if text::same(s, "esp32") || text::same(s, "esp32c3") || text::same(s, "esp32s3")
            || text::same(s, "esp32s2") {
            Some(ChipVariant::Esp32Family)
        } else if text::same(s, "esp32c5") {
            Some(ChipVariant::Esp32c5)
        } else if text::same(s, "esp32c6") {
            Some(ChipVariant::Esp32c6)
        } else {
            None
        }
    }
}

/// Optional NTP-derived calendar timestamp the firmware may attach to a packet.
#[derive(Debug, Clone, Copy)]
pub struct DateTime {
    pub year: u64,
    pub month: u64,
    pub day: u64,
    pub hour: u64,
    pub minute: u64,
    pub second: u64,
    pub millisecond: u64,
}

/// Compact CSI data-format descriptor. The variants stand in the order of
/// their wire index.
#[derive(Debug, Clone, Copy, PartialEq, Eq, Structural)]
pub enum RxCsiFmt {
    Bw20,
    HtBw20,
    HtBw20Stbc,
    SecbBw20,
    SecbHtBw20,
    SecbHtBw20Stbc,
    SecbHtBw40,
    SecbHtBw40Stbc,
    SecaBw20,
    SecaHtBw20,
    SecaHtBw20Stbc,
    SecaHtBw40,
    SecaHtBw40Stbc,
    Undefined,
}

/// Name of a data format in the `data_format` column.
pub open spec fn format_name(f: RxCsiFmt) -> Seq<char> {
    match f {
        RxCsiFmt::Bw20 => "Bw20"@,
        RxCsiFmt::HtBw20 => "HtBw20"@,
        RxCsiFmt::HtBw20Stbc => "HtBw20Stbc"@,
        RxCsiFmt::SecbBw20 => "SecbBw20"@,
        RxCsiFmt::SecbHtBw20 => "SecbHtBw20"@,
        RxCsiFmt::SecbHtBw20Stbc => "SecbHtBw20Stbc"@,
        RxCsiFmt::SecbHtBw40 => "SecbHtBw40"@,
        RxCsiFmt::SecbHtBw40Stbc => "SecbHtBw40Stbc"@,
        RxCsiFmt::SecaBw20 => "SecaBw20"@,
        RxCsiFmt::SecaHtBw20 => "SecaHtBw20"@,
        RxCsiFmt::SecaHtBw20Stbc => "SecaHtBw20Stbc"@,
        RxCsiFmt::SecaHtBw40 => "SecaHtBw40"@,
        RxCsiFmt::SecaHtBw40Stbc => "SecaHtBw40Stbc"@,
        RxCsiFmt::Undefined => "Undefined"@,
    }
}

/// Index of a data format on the wire.
pub open spec fn format_index(f: RxCsiFmt) -> u32 {
    match f {
        RxCsiFmt::Bw20 => 0u32,
        RxCsiFmt::HtBw20 => 1u32,
        RxCsiFmt::HtBw20Stbc => 2u32,
        RxCsiFmt::SecbBw20 => 3u32,
        RxCsiFmt::SecbHtBw20 => 4u32,
        RxCsiFmt::SecbHtBw20Stbc => 5u32,
        RxCsiFmt::SecbHtBw40 => 6u32,
        RxCsiFmt::SecbHtBw40Stbc => 7u32,
        RxCsiFmt::SecaBw20 => 8u32,
        RxCsiFmt::SecaHtBw20 => 9u32,
        RxCsiFmt::SecaHtBw20Stbc => 10u32,
        RxCsiFmt::SecaHtBw40 => 11u32,
        RxCsiFmt::SecaHtBw40Stbc => 12u32,
        RxCsiFmt::Undefined => 13u32,
    }
}

/// The data format that a wire index denotes.
pub open spec fn format_at(index: u32) -> Option<RxCsiFmt> {
    if index >= 14u32 {
        None
    } else {
        Some(choose|f: RxCsiFmt| format_index(f) == index)
    }
}

impl RxCsiFmt {
    /// Stable identifier for the `data_format` column.
    pub fn as_str(self) -> (r: &'static str)
        ensures
            r@ == format_name(self),
    {
        match self {
            RxCsiFmt::Bw20 => "Bw20",
            RxCsiFmt::HtBw20 => "HtBw20",
            RxCsiFmt::HtBw20Stbc => "HtBw20Stbc",
            RxCsiFmt::SecbBw20 => "SecbBw20",
            RxCsiFmt::SecbHtBw20 => "SecbHtBw20",
            RxCsiFmt::SecbHtBw20Stbc => "SecbHtBw20Stbc",
            RxCsiFmt::SecbHtBw40 => "SecbHtBw40",
            RxCsiFmt::SecbHtBw40Stbc => "SecbHtBw40Stbc",
            RxCsiFmt::SecaBw20 => "SecaBw20",
            RxCsiFmt::SecaHtBw20 => "SecaHtBw20",
            RxCsiFmt::SecaHtBw20Stbc => "SecaHtBw20Stbc",
            RxCsiFmt::SecaHtBw40 => "SecaHtBw40",
            RxCsiFmt::SecaHtBw40Stbc => "SecaHtBw40Stbc",
            RxCsiFmt::Undefined => "Undefined",
        }
    }

    /// Index on the wire.
    pub fn wire_index(self) -> (r: u32)
        ensures
            r == format_index(self),
    {
        match self {
            RxCsiFmt::Bw20 => 0,
            RxCsiFmt::HtBw20 => 1,
            RxCsiFmt::HtBw20Stbc => 2,
            RxCsiFmt::SecbBw20 => 3,
            RxCsiFmt::SecbHtBw20 => 4,
            RxCsiFmt::SecbHtBw20Stbc => 5,
            RxCsiFmt::SecbHtBw40 => 6,
            RxCsiFmt::SecbHtBw40Stbc => 7,
            RxCsiFmt::SecaBw20 => 8,
            RxCsiFmt::SecaHtBw20 => 9,
            RxCsiFmt::SecaHtBw20Stbc => 10,
            RxCsiFmt::SecaHtBw40 => 11,
            RxCsiFmt::SecaHtBw40Stbc => 12,
            RxCsiFmt::Undefined => 13,
        }
    }

    /// The format that a wire index denotes; `None` past the last one.
    pub fn from_wire_index(index: u32) -> (r: Option<Self>)
        ensures
            r == format_at(index),
            r matches Some(f) ==> format_index(f) == index,
            r is None <==> index >= 14,
    {
        let found = match index {
            0 => RxCsiFmt::Bw20,
            1 => RxCsiFmt::HtBw20,
            2 => RxCsiFmt::HtBw20Stbc,
            3 => RxCsiFmt::SecbBw20,
            4 => RxCsiFmt::SecbHtBw20,
            5 => RxCsiFmt::SecbHtBw20Stbc,
            6 => RxCsiFmt::SecbHtBw40,
            7 => RxCsiFmt::SecbHtBw40Stbc,
            8 => RxCsiFmt::SecaBw20,
            9 => RxCsiFmt::SecaHtBw20,
            10 => RxCsiFmt::SecaHtBw20Stbc,
            11 => RxCsiFmt::SecaHtBw40,
            12 => RxCsiFmt::SecaHtBw40Stbc,
            13 => RxCsiFmt::Undefined,
            _ => return None,
        };
        proof {
            lemma_format_index(found);
        }
        Some(found)
    }
}

/// A format's index denotes that format.
pub proof fn lemma_format_index(f: RxCsiFmt)
    ensures
        format_index(f) < 14,
        format_at(format_index(f)) == Some(f),
{
    let g = choose|g: RxCsiFmt| format_index(g) == format_index(f);
    assert(format_index(g) == format_index(f));
    assert(g == f);
}

/// esp32 / esp32c3 / esp32s3 layout. Field order is the wire order.
#[derive(Debug, Clone)]
pub struct PacketA {
    pub mac: [u8; 6],
    pub rssi: i32,
    pub timestamp: u32,
    pub rate: u32,
    pub sgi: u32,
    pub secondary_channel: u32,
    pub channel: u32,
    pub bandwidth: u32,
    pub antenna: u32,
    pub sig_mode: u32,
    pub mcs: u32,
    pub smoothing: u32,
    pub not_sounding: u32,
    pub aggregation: u32,
    pub stbc: u32,
    pub fec_coding: u32,
    pub ampdu_cnt: u32,
    pub noise_floor: i32,
    pub rx_state: u32,
    pub sig_len: u32,
    pub date_time: Option<DateTime>,
    pub sequence_number: u16,
    pub data_format: RxCsiFmt,
    pub csi_data_len: u16,
    pub csi_data: Vec<i8>,
}

/// esp32c5 layout. Field order is the wire order.
#[derive(Debug, Clone)]
pub struct PacketBc5 {
    pub mac: [u8; 6],
    pub rssi: i32,
    pub timestamp: u32,
    pub rate: u32,
    pub noise_floor: i32,
    pub sig_len: u32,
    pub rx_state: u32,
    pub dump_len: u32,
    pub cur_bb_format: u32,
    pub rx_channel_estimate_info_vld: u32,
    pub rx_channel_estimate_len: u32,
    pub second: u32,
    pub channel: u32,
    pub is_group: u32,
    pub rxend_state: u32,
    pub rxmatch3: u32,
    pub rxmatch2: u32,
    pub rxmatch1: u32,
    pub date_time: Option<DateTime>,
    pub sequence_number: u16,
    pub csi_data_len: u16,
    pub data_format: RxCsiFmt,
    pub csi_data: Vec<i8>,
}

/// esp32c6 layout: the c5 layout plus `he_sigb_len`, `cur_single_mpdu` and
/// `rxmatch0` at their places. Field order is the wire order.
#[derive(Debug, Clone)]
pub struct PacketBc6 {
    pub mac: [u8; 6],
    pub rssi: i32,
    pub timestamp: u32,
    pub rate: u32,
    pub noise_floor: i32,
    pub sig_len: u32,
    pub rx_state: u32,
    pub dump_len: u32,
    pub he_sigb_len: u32,
    pub cur_single_mpdu: u32,
    pub cur_bb_format: u32,
    pub rx_channel_estimate_info_vld: u32,
    pub rx_channel_estimate_len: u32,
    pub second: u32,
    pub channel: u32,
    pub is_group: u32,
    pub rxend_state: u32,
    pub rxmatch3: u32,
    pub rxmatch2: u32,
    pub rxmatch1: u32,
    pub rxmatch0: u32,
    pub date_time: Option<DateTime>,
    pub sequence_number: u16,
    pub csi_data_len: u16,
    pub data_format: RxCsiFmt,
    pub csi_data: Vec<i8>,
}

/// Chip-agnostic decoded CSI record: the union of every layout's fields.
///
/// Fields absent on the source chip are `None`.
#[derive(Debug, Clone)]
pub struct DecodedCsi {
    pub mac: [u8; 6],
    pub rssi: i32,
    pub timestamp: u32,
    pub rate: u32,
    pub noise_floor: i32,
    pub sig_len: u32,
    pub rx_state: u32,
    pub channel: u32,
    pub date_time: Option<DateTime>,
    pub sequence_number: u16,
    pub data_format: RxCsiFmt,
    pub csi_data_len: u16,
    pub csi_data: Vec<i8>,
    pub sgi: Option<u32>,
    pub secondary_channel: Option<u32>,
    pub bandwidth: Option<u32>,
    pub antenna: Option<u32>,
    pub sig_mode: Option<u32>,
    pub mcs: Option<u32>,
    pub smoothing: Option<u32>,
    pub not_sounding: Option<u32>,
    pub aggregation: Option<u32>,
    pub stbc: Option<u32>,
    pub fec_coding: Option<u32>,
    pub ampdu_cnt: Option<u32>,
    pub dump_len: Option<u32>,
    pub cur_bb_format: Option<u32>,
    pub rx_channel_estimate_info_vld: Option<u32>,
    pub rx_channel_estimate_len: Option<u32>,
    pub second: Option<u32>,
    pub is_group: Option<u32>,
    pub rxend_state: Option<u32>,
    pub rxmatch3: Option<u32>,
    pub rxmatch2: Option<u32>,
    pub rxmatch1: Option<u32>,
    pub he_sigb_len: Option<u32>,
    pub cur_single_mpdu: Option<u32>,
    pub rxmatch0: Option<u32>,
}

/// What a [`DecodedCsi`] says: its fields, with the samples as a sequence.
pub struct CsiRecord {
    pub mac: [u8; 6],
    pub rssi: i32,
    pub timestamp: u32,
    pub rate: u32,
    pub noise_floor: i32,
    pub sig_len: u32,
    pub rx_state: u32,
    pub channel: u32,
    pub date_time: Option<DateTime>,
    pub sequence_number: u16,
    pub data_format: RxCsiFmt,
    pub csi_data_len: u16,
    pub csi_data: Seq<i8>,
    pub sgi: Option<u32>,
    pub secondary_channel: Option<u32>,
    pub bandwidth: Option<u32>,
    pub antenna: Option<u32>,
    pub sig_mode: Option<u32>,
    pub mcs: Option<u32>,
    pub smoothing: Option<u32>,
    pub not_sounding: Option<u32>,
    pub aggregation: Option<u32>,
    pub stbc: Option<u32>,
    pub fec_coding: Option<u32>,
    pub ampdu_cnt: Option<u32>,
    pub dump_len: Option<u32>,
    pub cur_bb_format: Option<u32>,
    pub rx_channel_estimate_info_vld: Option<u32>,
    pub rx_channel_estimate_len: Option<u32>,
    pub second: Option<u32>,
    pub is_group: Option<u32>,
    pub rxend_state: Option<u32>,
    pub rxmatch3: Option<u32>,
    pub rxmatch2: Option<u32>,
    pub rxmatch1: Option<u32>,
    pub he_sigb_len: Option<u32>,
    pub cur_single_mpdu: Option<u32>,
    pub rxmatch0: Option<u32>,
}

impl View for DecodedCsi {
    type V = CsiRecord;

    open spec fn view(&self) -> CsiRecord {
        CsiRecord {
            mac: self.mac,
            rssi: self.rssi,
            timestamp: self.timestamp,
            rate: self.rate,
            noise_floor: self.noise_floor,
            sig_len: self.sig_len,
            rx_state: self.rx_state,
            channel: self.channel,
            date_time: self.date_time,
            sequence_number: self.sequence_number,
            data_format: self.data_format,
            csi_data_len: self.csi_data_len,
            csi_data: self.csi_data@,
            sgi: self.sgi,
            secondary_channel: self.secondary_channel,
            bandwidth: self.bandwidth,
            antenna: self.antenna,
            sig_mode: self.sig_mode,
            mcs: self.mcs,
            smoothing: self.smoothing,
            not_sounding: self.not_sounding,
            aggregation: self.aggregation,
            stbc: self.stbc,
            fec_coding: self.fec_coding,
            ampdu_cnt: self.ampdu_cnt,
            dump_len: self.dump_len,
            cur_bb_format: self.cur_bb_format,
            rx_channel_estimate_info_vld: self.rx_channel_estimate_info_vld,
            rx_channel_estimate_len: self.rx_channel_estimate_len,
            second: self.second,
            is_group: self.is_group,
            rxend_state: self.rxend_state,
            rxmatch3: self.rxmatch3,
            rxmatch2: self.rxmatch2,
            rxmatch1: self.rxmatch1,
            he_sigb_len: self.he_sigb_len,
            cur_single_mpdu: self.cur_single_mpdu,
            rxmatch0: self.rxmatch0,
        }
    }
}

impl From<PacketA> for DecodedCsi {
    fn from(p: PacketA) -> Self {
        DecodedCsi {
            mac: p.mac,
            rssi: p.rssi,
            timestamp: p.timestamp,
            rate: p.rate,
            noise_floor: p.noise_floor,
            sig_len: p.sig_len,
            rx_state: p.rx_state,
            channel: p.channel,
            date_time: p.date_time,
            sequence_number: p.sequence_number,
            data_format: p.data_format,
            csi_data_len: p.csi_data_len,
            csi_data: p.csi_data,
            sgi: Some(p.sgi),
            secondary_channel: Some(p.secondary_channel),
            bandwidth: Some(p.bandwidth),
            antenna: Some(p.antenna),
            sig_mode: Some(p.sig_mode),
            mcs: Some(p.mcs),
            smoothing: Some(p.smoothing),
            not_sounding: Some(p.not_sounding),
            aggregation: Some(p.aggregation),
            stbc: Some(p.stbc),
            fec_coding: Some(p.fec_coding),
            ampdu_cnt: Some(p.ampdu_cnt),
            dump_len: None,
            cur_bb_format: None,
            rx_channel_estimate_info_vld: None,
            rx_channel_estimate_len: None,
            second: None,
            is_group: None,
            rxend_state: None,
            rxmatch3: None,
            rxmatch2: None,
            rxmatch1: None,
            he_sigb_len: None,
            cur_single_mpdu: None,
            rxmatch0: None,
        }
    }
}

impl vstd::std_specs::convert::FromSpecImpl<PacketA> for DecodedCsi {
    open spec fn obeys_from_spec() -> bool {
        true
    }

    open spec fn from_spec(p: PacketA) -> Self {
        DecodedCsi {
            mac: p.mac,
            rssi: p.rssi,
            timestamp: p.timestamp,
            rate: p.rate,
            noise_floor: p.noise_floor,
            sig_len: p.sig_len,
            rx_state: p.rx_state,
            channel: p.channel,
            date_time: p.date_time,
            sequence_number: p.sequence_number,
            data_format: p.data_format,
            csi_data_len: p.csi_data_len,
            csi_data: p.csi_data,
            sgi: Some(p.sgi),
            secondary_channel: Some(p.secondary_channel),
            bandwidth: Some(p.bandwidth),
            antenna: Some(p.antenna),
            sig_mode: Some(p.sig_mode),
            mcs: Some(p.mcs),
            smoothing: Some(p.smoothing),
            not_sounding: Some(p.not_sounding),
            aggregation: Some(p.aggregation),
            stbc: Some(p.stbc),
            fec_coding: Some(p.fec_coding),
            ampdu_cnt: Some(p.ampdu_cnt),
            dump_len: None,
            cur_bb_format: None,
            rx_channel_estimate_info_vld: None,
            rx_channel_estimate_len: None,
            second: None,
            is_group: None,
            rxend_state: None,
            rxmatch3: None,
            rxmatch2: None,
            rxmatch1: None,
            he_sigb_len: None,
            cur_single_mpdu: None,
            rxmatch0: None,
        }
    }
}

impl From<PacketBc5> for DecodedCsi {
    fn from(p: PacketBc5) -> Self {
        DecodedCsi {
            mac: p.mac,
            rssi: p.rssi,
            timestamp: p.timestamp,
            rate: p.rate,
            noise_floor: p.noise_floor,
            sig_len: p.sig_len,
            rx_state: p.rx_state,
            channel: p.channel,
            date_time: p.date_time,
            sequence_number: p.sequence_number,
            data_format: p.data_format,
            csi_data_len: p.csi_data_len,
            csi_data: p.csi_data,
            sgi: None,
            secondary_channel: None,
            bandwidth: None,
            antenna: None,
            sig_mode: None,
            mcs: None,
            smoothing: None,
            not_sounding: None,
            aggregation: None,
            stbc: None,
            fec_coding: None,
            ampdu_cnt: None,
            dump_len: Some(p.dump_len),
            cur_bb_format: Some(p.cur_bb_format),
            rx_channel_estimate_info_vld: Some(p.rx_channel_estimate_info_vld),
            rx_channel_estimate_len: Some(p.rx_channel_estimate_len),
            second: Some(p.second),
            is_group: Some(p.is_group),
            rxend_state: Some(p.rxend_state),
            rxmatch3: Some(p.rxmatch3),
            rxmatch2: Some(p.rxmatch2),
            rxmatch1: Some(p.rxmatch1),
            he_sigb_len: None,
            cur_single_mpdu: None,
            rxmatch0: None,
        }
    }
}

impl vstd::std_specs::convert::FromSpecImpl<PacketBc5> for DecodedCsi {
    open spec fn obeys_from_spec() -> bool {
        true
    }

    open spec fn from_spec(p: PacketBc5) -> Self {
        DecodedCsi {
            mac: p.mac,
            rssi: p.rssi,
            timestamp: p.timestamp,
            rate: p.rate,
            noise_floor: p.noise_floor,
            sig_len: p.sig_len,
            rx_state: p.rx_state,
            channel: p.channel,
            date_time: p.date_time,
            sequence_number: p.sequence_number,
            data_format: p.data_format,
            csi_data_len: p.csi_data_len,
            csi_data: p.csi_data,
            sgi: None,
            secondary_channel: None,
            bandwidth: None,
            antenna: None,
            sig_mode: None,
            mcs: None,
            smoothing: None,
            not_sounding: None,
            aggregation: None,
            stbc: None,
            fec_coding: None,
            ampdu_cnt: None,
            dump_len: Some(p.dump_len),
            cur_bb_format: Some(p.cur_bb_format),
            rx_channel_estimate_info_vld: Some(p.rx_channel_estimate_info_vld),
            rx_channel_estimate_len: Some(p.rx_channel_estimate_len),
            second: Some(p.second),
            is_group: Some(p.is_group),
            rxend_state: Some(p.rxend_state),
            rxmatch3: Some(p.rxmatch3),
            rxmatch2: Some(p.rxmatch2),
            rxmatch1: Some(p.rxmatch1),
            he_sigb_len: None,
            cur_single_mpdu: None,
            rxmatch0: None,
        }
    }
}

impl From<PacketBc6> for DecodedCsi {
    fn from(p: PacketBc6) -> Self {
        DecodedCsi {
            mac: p.mac,
            rssi: p.rssi,
            timestamp: p.timestamp,
            rate: p.rate,
            noise_floor: p.noise_floor,
            sig_len: p.sig_len,
            rx_state: p.rx_state,
            channel: p.channel,
            date_time: p.date_time,
            sequence_number: p.sequence_number,
            data_format: p.data_format,
            csi_data_len: p.csi_data_len,
            csi_data: p.csi_data,
            sgi: None,
            secondary_channel: None,
            bandwidth: None,
            antenna: None,
            sig_mode: None,
            mcs: None,
            smoothing: None,
            not_sounding: None,
            aggregation: None,
            stbc: None,
            fec_coding: None,
            ampdu_cnt: None,
            dump_len: Some(p.dump_len),
            cur_bb_format: Some(p.cur_bb_format),
            rx_channel_estimate_info_vld: Some(p.rx_channel_estimate_info_vld),
            rx_channel_estimate_len: Some(p.rx_channel_estimate_len),
            second: Some(p.second),
            is_group: Some(p.is_group),
            rxend_state: Some(p.rxend_state),
            rxmatch3: Some(p.rxmatch3),
            rxmatch2: Some(p.rxmatch2),
            rxmatch1: Some(p.rxmatch1),
            he_sigb_len: Some(p.he_sigb_len),
            cur_single_mpdu: Some(p.cur_single_mpdu),
            rxmatch0: Some(p.rxmatch0),
        }
    }
}

impl vstd::std_specs::convert::FromSpecImpl<PacketBc6> for DecodedCsi {
    open spec fn obeys_from_spec() -> bool {
        true
    }

    open spec fn from_spec(p: PacketBc6) -> Self {
        DecodedCsi {
            mac: p.mac,
            rssi: p.rssi,
            timestamp: p.timestamp,
            rate: p.rate,
            noise_floor: p.noise_floor,
            sig_len: p.sig_len,
            rx_state: p.rx_state,
            channel: p.channel,
            date_time: p.date_time,
            sequence_number: p.sequence_number,
            data_format: p.data_format,
            csi_data_len: p.csi_data_len,
            csi_data: p.csi_data,
            sgi: None,
            secondary_channel: None,
            bandwidth: None,
            antenna: None,
            sig_mode: None,
            mcs: None,
            smoothing: None,
            not_sounding: None,
            aggregation: None,
            stbc: None,
            fec_coding: None,
            ampdu_cnt: None,
            dump_len: Some(p.dump_len),
            cur_bb_format: Some(p.cur_bb_format),
            rx_channel_estimate_info_vld: Some(p.rx_channel_estimate_info_vld),
            rx_channel_estimate_len: Some(p.rx_channel_estimate_len),
            second: Some(p.second),
            is_group: Some(p.is_group),
            rxend_state: Some(p.rxend_state),
            rxmatch3: Some(p.rxmatch3),
            rxmatch2: Some(p.rxmatch2),
            rxmatch1: Some(p.rxmatch1),
            he_sigb_len: Some(p.he_sigb_len),
            cur_single_mpdu: Some(p.cur_single_mpdu),
            rxmatch0: Some(p.rxmatch0),
        }
    }
}

// ── The wire ──────────────────────────────────────────────────────────────

/// A [`DateTime`] on the wire.
pub type WireTime = (u64, u64, u64, u64, u64, u64, u64);

/// [`PacketA`] on the wire: its fields in order, the data format by its index.
pub type WireA = (
    ([u8; 6], i32, u32, u32),
    (u32, u32, u32, u32, u32, u32, u32, u32),
    (u32, u32, u32, u32, u32, i32, u32, u32),
    (Option<WireTime>, u16, u32, u16, Vec<i8>),
);

/// The beginning of a [`WireA`], up to the index of its data format.
pub type HeadA = (
    ([u8; 6], i32, u32, u32),
    (u32, u32, u32, u32, u32, u32, u32, u32),
    (u32, u32, u32, u32, u32, i32, u32, u32),
    (Option<WireTime>, u16, u32),
);

/// What a [`WireA`] says.
pub type RecordA = (
    ([u8; 6], i32, u32, u32),
    (u32, u32, u32, u32, u32, u32, u32, u32),
    (u32, u32, u32, u32, u32, i32, u32, u32),
    (Option<WireTime>, u16, u32, u16, Seq<i8>),
);

/// A [`WireA`] with its samples as a sequence.
pub open spec fn record_a(w: WireA) -> RecordA {
    (w.0, w.1, w.2, (w.3.0, w.3.1, w.3.2, w.3.3, w.3.4@))
}

/// [`PacketBc5`] on the wire: its fields in order, the data format by its index.
pub type WireBc5 = (
    ([u8; 6], i32, u32, u32, i32, u32, u32, u32),
    (u32, u32, u32, u32, u32),
    (u32, u32, u32, u32, u32),
    (Option<WireTime>, u16, u16, u32, Vec<i8>),
);

/// The beginning of a [`WireBc5`], up to the index of its data format.
pub type HeadBc5 = (
    ([u8; 6], i32, u32, u32, i32, u32, u32, u32),
    (u32, u32, u32, u32, u32),
    (u32, u32, u32, u32, u32),
    (Option<WireTime>, u16, u16, u32),
);

/// What a [`WireBc5`] says.
pub type RecordBc5 = (
    ([u8; 6], i32, u32, u32, i32, u32, u32, u32),
    (u32, u32, u32, u32, u32),
    (u32, u32, u32, u32, u32),
    (Option<WireTime>, u16, u16, u32, Seq<i8>),
);

/// A [`WireBc5`] with its samples as a sequence.
pub open spec fn record_bc5(w: WireBc5) -> RecordBc5 {
    (w.0, w.1, w.2, (w.3.0, w.3.1, w.3.2, w.3.3, w.3.4@))
}

/// [`PacketBc6`] on the wire: its fields in order, the data format by its index.
pub type WireBc6 = (
    ([u8; 6], i32, u32, u32, i32, u32, u32, u32),
    (u32, u32, u32, u32, u32, u32, u32),
    (u32, u32, u32, u32, u32, u32),
    (Option<WireTime>, u16, u16, u32, Vec<i8>),
);

/// The beginning of a [`WireBc6`], up to the index of its data format.
pub type HeadBc6 = (
    ([u8; 6], i32, u32, u32, i32, u32, u32, u32),
    (u32, u32, u32, u32, u32, u32, u32),
    (u32, u32, u32, u32, u32, u32),
    (Option<WireTime>, u16, u16, u32),
);

/// What a [`WireBc6`] says.
pub type RecordBc6 = (
    ([u8; 6], i32, u32, u32, i32, u32, u32, u32),
    (u32, u32, u32, u32, u32, u32, u32),
    (u32, u32, u32, u32, u32, u32),
    (Option<WireTime>, u16, u16, u32, Seq<i8>),
);

/// A [`WireBc6`] with its samples as a sequence.
pub open spec fn record_bc6(w: WireBc6) -> RecordBc6 {
    (w.0, w.1, w.2, (w.3.0, w.3.1, w.3.2, w.3.3, w.3.4@))
}

/// A timestamp on the wire.
pub open spec fn time_on_wire(t: Option<DateTime>) -> Option<WireTime> {
    match t {
        Some(d) => Some((d.year, d.month, d.day, d.hour, d.minute, d.second, d.millisecond)),
        None => None,
    }
}

/// The timestamp that stands on the wire.
pub open spec fn time_of_wire(t: Option<WireTime>) -> Option<DateTime> {
    match t {
        Some(w) => Some(
            DateTime {
                year: w.0,
                month: w.1,
                day: w.2,
                hour: w.3,
                minute: w.4,
                second: w.5,
                millisecond: w.6,
            },
        ),
        None => None,
    }
}

fn wire_time(t: Option<DateTime>) -> (r: Option<WireTime>)
    ensures
        r == time_on_wire(t),
{
    match t {
        Some(d) => Some((d.year, d.month, d.day, d.hour, d.minute, d.second, d.millisecond)),
        None => None,
    }
}

fn date_time(t: Option<WireTime>) -> (r: Option<DateTime>)
    ensures
        r == time_of_wire(t),
{
    match t {
        Some(w) => Some(
            DateTime {
                year: w.0,
                month: w.1,
                day: w.2,
                hour: w.3,
                minute: w.4,
                second: w.5,
                millisecond: w.6,
            },
        ),
        None => None,
    }
}

// ── Trusted: postcard ─────────────────────────────────────────────────────

/// The bytes that a COBS frame carries. A frame is a row of blocks; a block opens with
/// the count of its bytes, and what it holds is followed by a zero, except in the last
/// block and in one of full length.
pub open spec fn payload(frame: Seq<u8>) -> Option<Seq<u8>>
    decreases frame.len(),
{
    if frame.len() == 0 {
        Some(Seq::empty())
    } else if frame[0] == 0 || frame[0] > frame.len() {
        None
    } else {
        let held = frame.subrange(1, frame[0] as int);
        let rest = frame.skip(frame[0] as int);
        match payload(rest) {
            Some(p) => if frame[0] < 255 && rest.len() > 0 {
                Some(held.push(0) + p)
            } else {
                Some(held + p)
            },
            None => None,
        }
    }
}

/// Whether `longer` is a COBS frame that carries the bytes of `frame`, and maybe more
/// behind them.
pub open spec fn carries(longer: Seq<u8>, frame: Seq<u8>) -> bool {
    &&& !longer.contains(0)
    &&& match (payload(longer), payload(frame)) {
        (Some(all), Some(first)) => first.is_prefix_of(all),
        _ => false,
    }
}

/// What was read of the beginning of a record, its error as text.
pub open spec fn head_view<T>(read: Result<T, String>) -> Result<T, Seq<char>> {
    match read {
        Ok(h) => Ok(h),
        Err(e) => Err(e@),
    }
}

/// What `postcard::take_from_bytes_cobs` reads as a [`WireA`] from a frame on a
/// host whose pointers have that many bits (the samples' count is read as a
/// `usize`): the record, or the text of the error.
pub uninterp spec fn read_a(frame: Seq<u8>, pointer_bits: u32) -> Result<RecordA, Seq<char>>;

/// `postcard::take_from_bytes_cobs` at the type [`WireA`], its error as the text
/// that it displays. Claimed: the result is a function of the frame and of the
/// width of a pointer.
#[verifier::external_body]
fn take_a(frame: &mut Vec<u8>) -> (r: Result<WireA, String>)
    ensures
        read_view_a(r) == read_a(old(frame)@, usize::BITS),
{
    match postcard::take_from_bytes_cobs::<WireA>(frame) {
        Ok((w, _)) => Ok(w),
        Err(e) => Err(e.to_string()),
    }
}

/// What `postcard::take_from_bytes_cobs` reads as a [`HeadA`] from a frame: the
/// beginning of the record, or the text of the error.
pub uninterp spec fn head_a(frame: Seq<u8>) -> Result<HeadA, Seq<char>>;

/// `postcard::take_from_bytes_cobs` at the type [`HeadA`], its error as the text
/// that it displays. Claimed: the result is a function of the frame.
#[verifier::external_body]
fn take_head_a(frame: &mut Vec<u8>) -> (r: Result<HeadA, String>)
    ensures
        head_view(r) == head_a(old(frame)@),
{
    match postcard::take_from_bytes_cobs::<HeadA>(frame) {
        Ok((h, _)) => Ok(h),
        Err(e) => Err(e.to_string()),
    }
}

/// What `postcard::to_stdvec_cobs` writes for a [`WireA`], without the closing
/// zero.
pub uninterp spec fn frame_a(record: RecordA) -> Seq<u8>;

/// `postcard::to_stdvec_cobs` at the type [`WireA`]. Claimed: it succeeds; the
/// bytes are a function of the record: a COBS frame, free of zeros, and the zero that
/// closes it; and `postcard::take_from_bytes_cobs` reads the record back from the
/// frame, from any frame that carries more bytes behind the record, and whatever
/// follows the closing zero.
#[verifier::external_body]
fn emit_a(w: &WireA) -> (r: Result<Vec<u8>, postcard::Error>)
    ensures
        r is Ok,
        r->Ok_0@ == frame_a(record_a(*w)).push(0),
        !r->Ok_0@.drop_last().contains(0),
        payload(r->Ok_0@.drop_last()) is Some,
        read_a(r->Ok_0@.drop_last(), usize::BITS) == read_view_a(Ok(*w)),
        forall|longer: Seq<u8>| #[trigger]
            carries(longer, r->Ok_0@.drop_last()) ==> read_a(longer, usize::BITS)
                == read_view_a(Ok(*w)),
        forall|rest: Seq<u8>|
            read_a(#[trigger] (r->Ok_0@ + rest), usize::BITS) == read_view_a(Ok(*w)),
{
    postcard::to_stdvec_cobs(w)
}

/// What `postcard::take_from_bytes_cobs` reads as a [`WireBc5`] from a frame on a
/// host whose pointers have that many bits (the samples' count is read as a
/// `usize`): the record, or the text of the error.
pub uninterp spec fn read_bc5(frame: Seq<u8>, pointer_bits: u32) -> Result<RecordBc5, Seq<char>>;

/// `postcard::take_from_bytes_cobs` at the type [`WireBc5`], its error as the text
/// that it displays. Claimed: the result is a function of the frame and of the
/// width of a pointer.
#[verifier::external_body]
fn take_bc5(frame: &mut Vec<u8>) -> (r: Result<WireBc5, String>)
    ensures
        read_view_bc5(r) == read_bc5(old(frame)@, usize::BITS),
{
    match postcard::take_from_bytes_cobs::<WireBc5>(frame) {
        Ok((w, _)) => Ok(w),
        Err(e) => Err(e.to_string()),
    }
}

/// What `postcard::take_from_bytes_cobs` reads as a [`HeadBc5`] from a frame: the
/// beginning of the record, or the text of the error.
pub uninterp spec fn head_bc5(frame: Seq<u8>) -> Result<HeadBc5, Seq<char>>;

/// `postcard::take_from_bytes_cobs` at the type [`HeadBc5`], its error as the text
/// that it displays. Claimed: the result is a function of the frame.
#[verifier::external_body]
fn take_head_bc5(frame: &mut Vec<u8>) -> (r: Result<HeadBc5, String>)
    ensures
        head_view(r) == head_bc5(old(frame)@),
{
    match postcard::take_from_bytes_cobs::<HeadBc5>(frame) {
        Ok((h, _)) => Ok(h),
        Err(e) => Err(e.to_string()),
    }
}

/// What `postcard::to_stdvec_cobs` writes for a [`WireBc5`], without the closing
/// zero.
pub uninterp spec fn frame_bc5(record: RecordBc5) -> Seq<u8>;

/// `postcard::to_stdvec_cobs` at the type [`WireBc5`]. Claimed: it succeeds; the
/// bytes are a function of the record: a COBS frame, free of zeros, and the zero that
/// closes it; and `postcard::take_from_bytes_cobs` reads the record back from the
/// frame, from any frame that carries more bytes behind the record, and whatever
/// follows the closing zero.
#[verifier::external_body]
fn emit_bc5(w: &WireBc5) -> (r: Result<Vec<u8>, postcard::Error>)
    ensures
        r is Ok,
        r->Ok_0@ == frame_bc5(record_bc5(*w)).push(0),
        !r->Ok_0@.drop_last().contains(0),
        payload(r->Ok_0@.drop_last()) is Some,
        read_bc5(r->Ok_0@.drop_last(), usize::BITS) == read_view_bc5(Ok(*w)),
        forall|longer: Seq<u8>| #[trigger]
            carries(longer, r->Ok_0@.drop_last()) ==> read_bc5(longer, usize::BITS)
                == read_view_bc5(Ok(*w)),
        forall|rest: Seq<u8>|
            read_bc5(#[trigger] (r->Ok_0@ + rest), usize::BITS) == read_view_bc5(Ok(*w)),
{
    postcard::to_stdvec_cobs(w)
}

/// What `postcard::take_from_bytes_cobs` reads as a [`WireBc6`] from a frame on a
/// host whose pointers have that many bits (the samples' count is read as a
/// `usize`): the record, or the text of the error.
pub uninterp spec fn read_bc6(frame: Seq<u8>, pointer_bits: u32) -> Result<RecordBc6, Seq<char>>;

/// `postcard::take_from_bytes_cobs` at the type [`WireBc6`], its error as the text
/// that it displays. Claimed: the result is a function of the frame and of the
/// width of a pointer.
#[verifier::external_body]
fn take_bc6(frame: &mut Vec<u8>) -> (r: Result<WireBc6, String>)
    ensures
        read_view_bc6(r) == read_bc6(old(frame)@, usize::BITS),
{
    match postcard::take_from_bytes_cobs::<WireBc6>(frame) {
        Ok((w, _)) => Ok(w),
        Err(e) => Err(e.to_string()),
    }
}

/// What `postcard::take_from_bytes_cobs` reads as a [`HeadBc6`] from a frame: the
/// beginning of the record, or the text of the error.
pub uninterp spec fn head_bc6(frame: Seq<u8>) -> Result<HeadBc6, Seq<char>>;

/// `postcard::take_from_bytes_cobs` at the type [`HeadBc6`], its error as the text
/// that it displays. Claimed: the result is a function of the frame.
#[verifier::external_body]
fn take_head_bc6(frame: &mut Vec<u8>) -> (r: Result<HeadBc6, String>)
    ensures
        head_view(r) == head_bc6(old(frame)@),
{
    match postcard::take_from_bytes_cobs::<HeadBc6>(frame) {
        Ok((h, _)) => Ok(h),
        Err(e) => Err(e.to_string()),
    }
}

/// What `postcard::to_stdvec_cobs` writes for a [`WireBc6`], without the closing
/// zero.
pub uninterp spec fn frame_bc6(record: RecordBc6) -> Seq<u8>;

/// `postcard::to_stdvec_cobs` at the type [`WireBc6`]. Claimed: it succeeds; the
/// bytes are a function of the record: a COBS frame, free of zeros, and the zero that
/// closes it; and `postcard::take_from_bytes_cobs` reads the record back from the
/// frame, from any frame that carries more bytes behind the record, and whatever
/// follows the closing zero.
#[verifier::external_body]
fn emit_bc6(w: &WireBc6) -> (r: Result<Vec<u8>, postcard::Error>)
    ensures
        r is Ok,
        r->Ok_0@ == frame_bc6(record_bc6(*w)).push(0),
        !r->Ok_0@.drop_last().contains(0),
        payload(r->Ok_0@.drop_last()) is Some,
        read_bc6(r->Ok_0@.drop_last(), usize::BITS) == read_view_bc6(Ok(*w)),
        forall|longer: Seq<u8>| #[trigger]
            carries(longer, r->Ok_0@.drop_last()) ==> read_bc6(longer, usize::BITS)
                == read_view_bc6(Ok(*w)),
        forall|rest: Seq<u8>|
            read_bc6(#[trigger] (r->Ok_0@ + rest), usize::BITS) == read_view_bc6(Ok(*w)),
{
    postcard::to_stdvec_cobs(w)
}

/// `postcard::Error`, the error of the writing side.
#[verifier::external_type_specification]
#[verifier::external_body]
pub struct ExPostcardError(postcard::Error);

// ── Decoding ──────────────────────────────────────────────────────────────

/// Failure decoding a serialized CSI frame.
#[derive(Debug)]
pub struct DecodeError {
    /// What was wrong with the frame.
    pub reason: String,
}

/// What is said of a data format that does not exist.
pub open spec fn unknown_format() -> Seq<char> {
    "Serde Deserialization Error"@
}

/// What is said of a frame that could not be read: a data format that does not exist
/// comes before what is wrong behind it.
pub open spec fn fault(reason: Seq<char>, format: Option<u32>) -> Seq<char> {
    match format {
        Some(i) => if format_at(i) is None {
            unknown_format()
        } else {
            reason
        },
        None => reason,
    }
}

fn unread(reason: String, format: Option<u32>) -> (r: DecodeError)
    ensures
        r.reason@ == fault(reason@, format),
{
    if let Some(i) = format {
        if RxCsiFmt::from_wire_index(i).is_none() {
            return DecodeError { reason: "Serde Deserialization Error".to_owned() };
        }
    }
    DecodeError { reason }
}

/// A frame that was not decoded, in words.
pub open spec fn decode_failure(reason: Seq<char>) -> Seq<char> {
    "failed to decode CSI frame: "@ + reason
}

impl DecodeError {
    /// The failure in words.
    pub fn message(&self) -> (r: String)
        ensures
            r@ == decode_failure(self.reason@),
    {
        text::join2("failed to decode CSI frame: ", self.reason.as_str())
    }
}

/// The decoded record of a [`PacketA`] on the wire with data format `f`.
pub open spec fn decoded_a(w: RecordA, f: RxCsiFmt) -> CsiRecord {
    CsiRecord {
        mac: w.0.0,
        rssi: w.0.1,
        timestamp: w.0.2,
        rate: w.0.3,
        noise_floor: w.2.5,
        sig_len: w.2.7,
        rx_state: w.2.6,
        channel: w.1.2,
        date_time: time_of_wire(w.3.0),
        sequence_number: w.3.1,
        data_format: f,
        csi_data_len: w.3.3,
        csi_data: w.3.4,
        sgi: Some(w.1.0),
        secondary_channel: Some(w.1.1),
        bandwidth: Some(w.1.3),
        antenna: Some(w.1.4),
        sig_mode: Some(w.1.5),
        mcs: Some(w.1.6),
        smoothing: Some(w.1.7),
        not_sounding: Some(w.2.0),
        aggregation: Some(w.2.1),
        stbc: Some(w.2.2),
        fec_coding: Some(w.2.3),
        ampdu_cnt: Some(w.2.4),
        dump_len: None,
        cur_bb_format: None,
        rx_channel_estimate_info_vld: None,
        rx_channel_estimate_len: None,
        second: None,
        is_group: None,
        rxend_state: None,
        rxmatch3: None,
        rxmatch2: None,
        rxmatch1: None,
        he_sigb_len: None,
        cur_single_mpdu: None,
        rxmatch0: None,
    }
}

/// What decoding makes of a read [`WireA`]; `format` is the index of the data
/// format, as far as a frame that could not be read gets to it.
pub open spec fn outcome_a(
    read: Result<RecordA, Seq<char>>,
    format: Option<u32>,
) -> Result<CsiRecord, Seq<char>> {
    match read {
        Ok(w) => match format_at(w.3.2) {
            Some(f) => Ok(decoded_a(w, f)),
            None => Err(unknown_format()),
        },
        Err(e) => Err(fault(e, format)),
    }
}

/// The index of the data format that a read [`HeadA`] ends with.
pub open spec fn format_a(head: Result<HeadA, Seq<char>>) -> Option<u32> {
    match head {
        Ok(h) => Some(h.3.2),
        Err(_) => None,
    }
}

/// What was read as a [`WireA`], as text and sequences.
pub open spec fn read_view_a(read: Result<WireA, String>) -> Result<RecordA, Seq<char>> {
    match read {
        Ok(w) => Ok(record_a(w)),
        Err(e) => Err(e@),
    }
}

/// Turns what was read from a frame into the decoded record. Where the frame could
/// not be read, `format` is the index of its data format, as far as it gets to it.
pub fn finish_a(read: Result<WireA, String>, format: Option<u32>) -> (r: Result<
    DecodedCsi,
    DecodeError,
>)
    ensures
        decode_view(r) == outcome_a(read_view_a(read), format),
{
    match read {
        Ok(w) => match RxCsiFmt::from_wire_index(w.3.2) {
            Some(f) => {
                let p = PacketA {
                    mac: w.0.0,
                    rssi: w.0.1,
                    timestamp: w.0.2,
                    rate: w.0.3,
                    sgi: w.1.0,
                    secondary_channel: w.1.1,
                    channel: w.1.2,
                    bandwidth: w.1.3,
                    antenna: w.1.4,
                    sig_mode: w.1.5,
                    mcs: w.1.6,
                    smoothing: w.1.7,
                    not_sounding: w.2.0,
                    aggregation: w.2.1,
                    stbc: w.2.2,
                    fec_coding: w.2.3,
                    ampdu_cnt: w.2.4,
                    noise_floor: w.2.5,
                    rx_state: w.2.6,
                    sig_len: w.2.7,
                    date_time: date_time(w.3.0),
                    sequence_number: w.3.1,
                    data_format: f,
                    csi_data_len: w.3.3,
                    csi_data: w.3.4,
                };
                let d = DecodedCsi::from(p);
                Ok(d)
            },
            None => Err(DecodeError { reason: "Serde Deserialization Error".to_owned() }),
        },
        Err(reason) => Err(unread(reason, format)),
    }
}

/// The decoded record of a [`PacketBc5`] on the wire with data format `f`.
pub open spec fn decoded_bc5(w: RecordBc5, f: RxCsiFmt) -> CsiRecord {
    CsiRecord {
        mac: w.0.0,
        rssi: w.0.1,
        timestamp: w.0.2,
        rate: w.0.3,
        noise_floor: w.0.4,
        sig_len: w.0.5,
        rx_state: w.0.6,
        channel: w.1.4,
        date_time: time_of_wire(w.3.0),
        sequence_number: w.3.1,
        data_format: f,
        csi_data_len: w.3.2,
        csi_data: w.3.4,
        sgi: None,
        secondary_channel: None,
        bandwidth: None,
        antenna: None,
        sig_mode: None,
        mcs: None,
        smoothing: None,
        not_sounding: None,
        aggregation: None,
        stbc: None,
        fec_coding: None,
        ampdu_cnt: None,
        dump_len: Some(w.0.7),
        cur_bb_format: Some(w.1.0),
        rx_channel_estimate_info_vld: Some(w.1.1),
        rx_channel_estimate_len: Some(w.1.2),
        second: Some(w.1.3),
        is_group: Some(w.2.0),
        rxend_state: Some(w.2.1),
        rxmatch3: Some(w.2.2),
        rxmatch2: Some(w.2.3),
        rxmatch1: Some(w.2.4),
        he_sigb_len: None,
        cur_single_mpdu: None,
        rxmatch0: None,
    }
}

/// What decoding makes of a read [`WireBc5`]; `format` is the index of the data
/// format, as far as a frame that could not be read gets to it.
pub open spec fn outcome_bc5(
    read: Result<RecordBc5, Seq<char>>,
    format: Option<u32>,
) -> Result<CsiRecord, Seq<char>> {
    match read {
        Ok(w) => match format_at(w.3.3) {
            Some(f) => Ok(decoded_bc5(w, f)),
            None => Err(unknown_format()),
        },
        Err(e) => Err(fault(e, format)),
    }
}

/// The index of the data format that a read [`HeadBc5`] ends with.
pub open spec fn format_bc5(head: Result<HeadBc5, Seq<char>>) -> Option<u32> {
    match head {
        Ok(h) => Some(h.3.3),
        Err(_) => None,
    }
}

/// What was read as a [`WireBc5`], as text and sequences.
pub open spec fn read_view_bc5(read: Result<WireBc5, String>) -> Result<RecordBc5, Seq<char>> {
    match read {
        Ok(w) => Ok(record_bc5(w)),
        Err(e) => Err(e@),
    }
}

/// Turns what was read from a frame into the decoded record. Where the frame could
/// not be read, `format` is the index of its data format, as far as it gets to it.
pub fn finish_bc5(read: Result<WireBc5, String>, format: Option<u32>) -> (r: Result<
    DecodedCsi,
    DecodeError,
>)
    ensures
        decode_view(r) == outcome_bc5(read_view_bc5(read), format),
{
    match read {
        Ok(w) => match RxCsiFmt::from_wire_index(w.3.3) {
            Some(f) => {
                let p = PacketBc5 {
                    mac: w.0.0,
                    rssi: w.0.1,
                    timestamp: w.0.2,
                    rate: w.0.3,
                    noise_floor: w.0.4,
                    sig_len: w.0.5,
                    rx_state: w.0.6,
                    dump_len: w.0.7,
                    cur_bb_format: w.1.0,
                    rx_channel_estimate_info_vld: w.1.1,
                    rx_channel_estimate_len: w.1.2,
                    second: w.1.3,
                    channel: w.1.4,
                    is_group: w.2.0,
                    rxend_state: w.2.1,
                    rxmatch3: w.2.2,
                    rxmatch2: w.2.3,
                    rxmatch1: w.2.4,
                    date_time: date_time(w.3.0),
                    sequence_number: w.3.1,
                    csi_data_len: w.3.2,
                    data_format: f,
                    csi_data: w.3.4,
                };
                let d = DecodedCsi::from(p);
                Ok(d)
            },
            None => Err(DecodeError { reason: "Serde Deserialization Error".to_owned() }),
        },
        Err(reason) => Err(unread(reason, format)),
    }
}

/// The decoded record of a [`PacketBc6`] on the wire with data format `f`.
pub open spec fn decoded_bc6(w: RecordBc6, f: RxCsiFmt) -> CsiRecord {
    CsiRecord {
        mac: w.0.0,
        rssi: w.0.1,
        timestamp: w.0.2,
        rate: w.0.3,
        noise_floor: w.0.4,
        sig_len: w.0.5,
        rx_state: w.0.6,
        channel: w.1.6,
        date_time: time_of_wire(w.3.0),
        sequence_number: w.3.1,
        data_format: f,
        csi_data_len: w.3.2,
        csi_data: w.3.4,
        sgi: None,
        secondary_channel: None,
        bandwidth: None,
        antenna: None,
        sig_mode: None,
        mcs: None,
        smoothing: None,
        not_sounding: None,
        aggregation: None,
        stbc: None,
        fec_coding: None,
        ampdu_cnt: None,
        dump_len: Some(w.0.7),
        cur_bb_format: Some(w.1.2),
        rx_channel_estimate_info_vld: Some(w.1.3),
        rx_channel_estimate_len: Some(w.1.4),
        second: Some(w.1.5),
        is_group: Some(w.2.0),
        rxend_state: Some(w.2.1),
        rxmatch3: Some(w.2.2),
        rxmatch2: Some(w.2.3),
        rxmatch1: Some(w.2.4),
        he_sigb_len: Some(w.1.0),
        cur_single_mpdu: Some(w.1.1),
        rxmatch0: Some(w.2.5),
    }
}

/// What decoding makes of a read [`WireBc6`]; `format` is the index of the data
/// format, as far as a frame that could not be read gets to it.
pub open spec fn outcome_bc6(
    read: Result<RecordBc6, Seq<char>>,
    format: Option<u32>,
) -> Result<CsiRecord, Seq<char>> {
    match read {
        Ok(w) => match format_at(w.3.3) {
            Some(f) => Ok(decoded_bc6(w, f)),
            None => Err(unknown_format()),
        },
        Err(e) => Err(fault(e, format)),
    }
}

/// The index of the data format that a read [`HeadBc6`] ends with.
pub open spec fn format_bc6(head: Result<HeadBc6, Seq<char>>) -> Option<u32> {
    match head {
        Ok(h) => Some(h.3.3),
        Err(_) => None,
    }
}

/// What was read as a [`WireBc6`], as text and sequences.
pub open spec fn read_view_bc6(read: Result<WireBc6, String>) -> Result<RecordBc6, Seq<char>> {
    match read {
        Ok(w) => Ok(record_bc6(w)),
        Err(e) => Err(e@),
    }
}

/// Turns what was read from a frame into the decoded record. Where the frame could
/// not be read, `format` is the index of its data format, as far as it gets to it.
pub fn finish_bc6(read: Result<WireBc6, String>, format: Option<u32>) -> (r: Result<
    DecodedCsi,
    DecodeError,
>)
    ensures
        decode_view(r) == outcome_bc6(read_view_bc6(read), format),
{
    match read {
        Ok(w) => match RxCsiFmt::from_wire_index(w.3.3) {
            Some(f) => {
                let p = PacketBc6 {
                    mac: w.0.0,
                    rssi: w.0.1,
                    timestamp: w.0.2,
                    rate: w.0.3,
                    noise_floor: w.0.4,
                    sig_len: w.0.5,
                    rx_state: w.0.6,
                    dump_len: w.0.7,
                    he_sigb_len: w.1.0,
                    cur_single_mpdu: w.1.1,
                    cur_bb_format: w.1.2,
                    rx_channel_estimate_info_vld: w.1.3,
                    rx_channel_estimate_len: w.1.4,
                    second: w.1.5,
                    channel: w.1.6,
                    is_group: w.2.0,
                    rxend_state: w.2.1,
                    rxmatch3: w.2.2,
                    rxmatch2: w.2.3,
                    rxmatch1: w.2.4,
                    rxmatch0: w.2.5,
                    date_time: date_time(w.3.0),
                    sequence_number: w.3.1,
                    csi_data_len: w.3.2,
                    data_format: f,
                    csi_data: w.3.4,
                };
                let d = DecodedCsi::from(p);
                Ok(d)
            },
            None => Err(DecodeError { reason: "Serde Deserialization Error".to_owned() }),
        },
        Err(reason) => Err(unread(reason, format)),
    }
}

/// A decoding result as records and text.
pub open spec fn decode_view(r: Result<DecodedCsi, DecodeError>) -> Result<CsiRecord, Seq<char>> {
    match r {
        Ok(d) => Ok(d@),
        Err(e) => Err(e.reason@),
    }
}

/// What a frame of a chip decodes to.
pub open spec fn decoded_frame(frame: Seq<u8>, chip: ChipVariant) -> Result<CsiRecord, Seq<char>> {
    match chip {
        ChipVariant::Esp32Family => outcome_a(
            read_a(frame, usize::BITS),
            format_a(head_a(frame)),
        ),
        ChipVariant::Esp32c5 => outcome_bc5(
            read_bc5(frame, usize::BITS),
            format_bc5(head_bc5(frame)),
        ),
        ChipVariant::Esp32c6 => outcome_bc6(
            read_bc6(frame, usize::BITS),
            format_bc6(head_bc6(frame)),
        ),
    }
}

/// Whether a frame of a chip decodes to that record.
pub open spec fn decodes_to(frame: Seq<u8>, chip: ChipVariant, record: CsiRecord) -> bool {
    decoded_frame(frame, chip) == Ok::<CsiRecord, Seq<char>>(record)
}

/// Decode one COBS-framed postcard CSI frame into a [`DecodedCsi`].
///
/// `frame` is what the serial task accumulates up to (not counting) the zero
/// that closes it. Bytes after the encoded record are tolerated: see
/// [`PacketA::to_frame`]. The input is copied because COBS decoding works in place.
pub fn decode(frame: &[u8], chip: ChipVariant) -> (r: Result<DecodedCsi, DecodeError>)
    ensures
        decode_view(r) == decoded_frame(frame@, chip),
{
    let mut owned: Vec<u8> = vstd::slice::slice_to_vec(frame);
    match chip {
        ChipVariant::Esp32Family => {
            let read = take_a(&mut owned);
            let format: Option<u32> = match &read {
                Ok(_) => None,
                Err(_) => {
                    let mut again: Vec<u8> = vstd::slice::slice_to_vec(frame);
                    match take_head_a(&mut again) {
                        Ok(h) => Some(h.3.2),
                        Err(_) => None,
                    }
                },
            };
            finish_a(read, format)
        },
        ChipVariant::Esp32c5 => {
            let read = take_bc5(&mut owned);
            let format: Option<u32> = match &read {
                Ok(_) => None,
                Err(_) => {
                    let mut again: Vec<u8> = vstd::slice::slice_to_vec(frame);
                    match take_head_bc5(&mut again) {
                        Ok(h) => Some(h.3.3),
                        Err(_) => None,
                    }
                },
            };
            finish_bc5(read, format)
        },
        ChipVariant::Esp32c6 => {
            let read = take_bc6(&mut owned);
            let format: Option<u32> = match &read {
                Ok(_) => None,
                Err(_) => {
                    let mut again: Vec<u8> = vstd::slice::slice_to_vec(frame);
                    match take_head_bc6(&mut again) {
                        Ok(h) => Some(h.3.3),
                        Err(_) => None,
                    }
                },
            };
            finish_bc6(read, format)
        },
    }
}

// ── Emitting ──────────────────────────────────────────────────────────────

impl PacketA {
    /// The fields in wire order.
    pub open spec fn record(self) -> RecordA {
        (
            (self.mac, self.rssi, self.timestamp, self.rate),
            (
                self.sgi,
                self.secondary_channel,
                self.channel,
                self.bandwidth,
                self.antenna,
                self.sig_mode,
                self.mcs,
                self.smoothing,
            ),
            (
                self.not_sounding,
                self.aggregation,
                self.stbc,
                self.fec_coding,
                self.ampdu_cnt,
                self.noise_floor,
                self.rx_state,
                self.sig_len,
            ),
            (
                time_on_wire(self.date_time),
                self.sequence_number,
                format_index(self.data_format),
                self.csi_data_len,
                self.csi_data@,
            ),
        )
    }

    /// The chip-agnostic record of this packet.
    pub open spec fn decoded(self) -> CsiRecord {
        <DecodedCsi as vstd::std_specs::convert::FromSpec<PacketA>>::from_spec(self)@
    }

    /// The bytes that a board sends for this packet: the COBS frame and the zero
    /// that closes it, the only one. The frame decodes to this packet's record, and so
    /// it does with more bytes behind the record, or behind the closing zero.
    pub fn to_frame(&self) -> (r: Vec<u8>)
        ensures
            r@ == frame_a(self.record()).push(0),
            !r@.drop_last().contains(0),
            decodes_to(r@.drop_last(), ChipVariant::Esp32Family, self.decoded()),
            forall|longer: Seq<u8>| #[trigger]
                carries(longer, r@.drop_last()) ==> decodes_to(
                    longer,
                    ChipVariant::Esp32Family,
                    self.decoded(),
                ),
            forall|rest: Seq<u8>|
                decodes_to(#[trigger] (r@ + rest), ChipVariant::Esp32Family, self.decoded()),
            carries(r@.drop_last(), r@.drop_last()),
    {
        let w: WireA = (
            (self.mac, self.rssi, self.timestamp, self.rate),
            (
                self.sgi,
                self.secondary_channel,
                self.channel,
                self.bandwidth,
                self.antenna,
                self.sig_mode,
                self.mcs,
                self.smoothing,
            ),
            (
                self.not_sounding,
                self.aggregation,
                self.stbc,
                self.fec_coding,
                self.ampdu_cnt,
                self.noise_floor,
                self.rx_state,
                self.sig_len,
            ),
            (
                wire_time(self.date_time),
                self.sequence_number,
                self.data_format.wire_index(),
                self.csi_data_len,
                self.csi_data.clone(),
            ),
        );
        assert(w.3.4@ =~= self.csi_data@);
        assert(record_a(w) == self.record());
        proof {
            lemma_format_index(self.data_format);
        }
        match emit_a(&w) {
            Ok(b) => b,
            Err(_) => Vec::new(),
        }
    }
}

impl PacketBc5 {
    /// The fields in wire order.
    pub open spec fn record(self) -> RecordBc5 {
        (
            (
                self.mac,
                self.rssi,
                self.timestamp,
                self.rate,
                self.noise_floor,
                self.sig_len,
                self.rx_state,
                self.dump_len,
            ),
            (
                self.cur_bb_format,
                self.rx_channel_estimate_info_vld,
                self.rx_channel_estimate_len,
                self.second,
                self.channel,
            ),
            (self.is_group, self.rxend_state, self.rxmatch3, self.rxmatch2, self.rxmatch1),
            (
                time_on_wire(self.date_time),
                self.sequence_number,
                self.csi_data_len,
                format_index(self.data_format),
                self.csi_data@,
            ),
        )
    }

    /// The chip-agnostic record of this packet.
    pub open spec fn decoded(self) -> CsiRecord {
        <DecodedCsi as vstd::std_specs::convert::FromSpec<PacketBc5>>::from_spec(self)@
    }

    /// The bytes that a board sends for this packet: the COBS frame and the zero
    /// that closes it, the only one. The frame decodes to this packet's record, and so
    /// it does with more bytes behind the record, or behind the closing zero.
    pub fn to_frame(&self) -> (r: Vec<u8>)
        ensures
            r@ == frame_bc5(self.record()).push(0),
            !r@.drop_last().contains(0),
            decodes_to(r@.drop_last(), ChipVariant::Esp32c5, self.decoded()),
            forall|longer: Seq<u8>| #[trigger]
                carries(longer, r@.drop_last()) ==> decodes_to(
                    longer,
                    ChipVariant::Esp32c5,
                    self.decoded(),
                ),
            forall|rest: Seq<u8>|
                decodes_to(#[trigger] (r@ + rest), ChipVariant::Esp32c5, self.decoded()),
            carries(r@.drop_last(), r@.drop_last()),
    {
        let w: WireBc5 = (
            (
                self.mac,
                self.rssi,
                self.timestamp,
                self.rate,
                self.noise_floor,
                self.sig_len,
                self.rx_state,
                self.dump_len,
            ),
            (
                self.cur_bb_format,
                self.rx_channel_estimate_info_vld,
                self.rx_channel_estimate_len,
                self.second,
                self.channel,
            ),
            (self.is_group, self.rxend_state, self.rxmatch3, self.rxmatch2, self.rxmatch1),
            (
                wire_time(self.date_time),
                self.sequence_number,
                self.csi_data_len,
                self.data_format.wire_index(),
                self.csi_data.clone(),
            ),
        );
        assert(w.3.4@ =~= self.csi_data@);
        assert(record_bc5(w) == self.record());
        proof {
            lemma_format_index(self.data_format);
        }
        match emit_bc5(&w) {
            Ok(b) => b,
            Err(_) => Vec::new(),
        }
    }
}

impl PacketBc6 {
    /// The fields in wire order.
    pub open spec fn record(self) -> RecordBc6 {
        (
            (
                self.mac,
                self.rssi,
                self.timestamp,
                self.rate,
                self.noise_floor,
                self.sig_len,
                self.rx_state,
                self.dump_len,
            ),
            (
                self.he_sigb_len,
                self.cur_single_mpdu,
                self.cur_bb_format,
                self.rx_channel_estimate_info_vld,
                self.rx_channel_estimate_len,
                self.second,
                self.channel,
            ),
            (
                self.is_group,
                self.rxend_state,
                self.rxmatch3,
                self.rxmatch2,
                self.rxmatch1,
                self.rxmatch0,
            ),
            (
                time_on_wire(self.date_time),
                self.sequence_number,
                self.csi_data_len,
                format_index(self.data_format),
                self.csi_data@,
            ),
        )
    }

    /// The chip-agnostic record of this packet.
    pub open spec fn decoded(self) -> CsiRecord {
        <DecodedCsi as vstd::std_specs::convert::FromSpec<PacketBc6>>::from_spec(self)@
    }

    /// The bytes that a board sends for this packet: the COBS frame and the zero
    /// that closes it, the only one. The frame decodes to this packet's record, and so
    /// it does with more bytes behind the record, or behind the closing zero.
    pub fn to_frame(&self) -> (r: Vec<u8>)
        ensures
            r@ == frame_bc6(self.record()).push(0),
            !r@.drop_last().contains(0),
            decodes_to(r@.drop_last(), ChipVariant::Esp32c6, self.decoded()),
            forall|longer: Seq<u8>| #[trigger]
                carries(longer, r@.drop_last()) ==> decodes_to(
                    longer,
                    ChipVariant::Esp32c6,
                    self.decoded(),
                ),
            forall|rest: Seq<u8>|
                decodes_to(#[trigger] (r@ + rest), ChipVariant::Esp32c6, self.decoded()),
            carries(r@.drop_last(), r@.drop_last()),
    {
        let w: WireBc6 = (
            (
                self.mac,
                self.rssi,
                self.timestamp,
                self.rate,
                self.noise_floor,
                self.sig_len,
                self.rx_state,
                self.dump_len,
            ),
            (
                self.he_sigb_len,
                self.cur_single_mpdu,
                self.cur_bb_format,
                self.rx_channel_estimate_info_vld,
                self.rx_channel_estimate_len,
                self.second,
                self.channel,
            ),
            (
                self.is_group,
                self.rxend_state,
                self.rxmatch3,
                self.rxmatch2,
                self.rxmatch1,
                self.rxmatch0,
            ),
            (
                wire_time(self.date_time),
                self.sequence_number,
                self.csi_data_len,
                self.data_format.wire_index(),
                self.csi_data.clone(),
            ),
        );
        assert(w.3.4@ =~= self.csi_data@);
        assert(record_bc6(w) == self.record());
        proof {
            lemma_format_index(self.data_format);
        }
        match emit_bc6(&w) {
            Ok(b) => b,
            Err(_) => Vec::new(),
        }
    }
}

// ── Laws ──────────────────────────────────────────────────────────────────

/// Fields that the source chip does not have are absent after decoding, and the
/// fields that it has are present.
pub proof fn law_fields_follow_the_chip(frame: Seq<u8>, chip: ChipVariant)
    ensures
        decoded_frame(frame, chip) matches Ok(c) ==> {
            &&& (chip == ChipVariant::Esp32Family <==> c.sgi is Some)
            &&& (chip == ChipVariant::Esp32Family <==> c.secondary_channel is Some)
            &&& (chip == ChipVariant::Esp32Family <==> c.bandwidth is Some)
            &&& (chip == ChipVariant::Esp32Family <==> c.antenna is Some)
            &&& (chip == ChipVariant::Esp32Family <==> c.sig_mode is Some)
            &&& (chip == ChipVariant::Esp32Family <==> c.mcs is Some)
            &&& (chip == ChipVariant::Esp32Family <==> c.smoothing is Some)
            &&& (chip == ChipVariant::Esp32Family <==> c.not_sounding is Some)
            &&& (chip == ChipVariant::Esp32Family <==> c.aggregation is Some)
            &&& (chip == ChipVariant::Esp32Family <==> c.stbc is Some)
            &&& (chip == ChipVariant::Esp32Family <==> c.fec_coding is Some)
            &&& (chip == ChipVariant::Esp32Family <==> c.ampdu_cnt is Some)
            &&& (chip != ChipVariant::Esp32Family <==> c.dump_len is Some)
            &&& (chip != ChipVariant::Esp32Family <==> c.cur_bb_format is Some)
            &&& (chip != ChipVariant::Esp32Family <==> c.rx_channel_estimate_info_vld is Some)
            &&& (chip != ChipVariant::Esp32Family <==> c.rx_channel_estimate_len is Some)
            &&& (chip != ChipVariant::Esp32Family <==> c.second is Some)
            &&& (chip != ChipVariant::Esp32Family <==> c.is_group is Some)
            &&& (chip != ChipVariant::Esp32Family <==> c.rxend_state is Some)
            &&& (chip != ChipVariant::Esp32Family <==> c.rxmatch3 is Some)
            &&& (chip != ChipVariant::Esp32Family <==> c.rxmatch2 is Some)
            &&& (chip != ChipVariant::Esp32Family <==> c.rxmatch1 is Some)
            &&& (chip == ChipVariant::Esp32c6 <==> c.he_sigb_len is Some)
            &&& (chip == ChipVariant::Esp32c6 <==> c.cur_single_mpdu is Some)
            &&& (chip == ChipVariant::Esp32c6 <==> c.rxmatch0 is Some)
        },
{
}

proof fn lemma_lower_keeps_white(c: char)
    ensures
        text::is_white(text::lower_char(c)) == text::is_white(c),
{
}

proof fn lemma_trim_start_lower(s: Seq<char>)
    ensures
        text::trim_start(text::lower(s)) == text::lower(text::trim_start(s)),
    decreases s.len(),
{
    if s.len() > 0 {
        lemma_lower_keeps_white(s[0]);
        if text::is_white(s[0]) {
            assert(text::lower(s).drop_first() =~= text::lower(s.drop_first()));
            lemma_trim_start_lower(s.drop_first());
        }
    }
}

proof fn lemma_trim_end_lower(s: Seq<char>)
    ensures
        text::trim_end(text::lower(s)) == text::lower(text::trim_end(s)),
    decreases s.len(),
{
    if s.len() > 0 {
        lemma_lower_keeps_white(s.last());
        if text::is_white(s.last()) {
            assert(text::lower(s).drop_last() =~= text::lower(s.drop_last()));
            lemma_trim_end_lower(s.drop_last());
        }
    }
}

/// Chip names that differ only in the case of ASCII letters name the same
/// layout.
pub proof fn law_chip_name_ignores_case(a: Seq<char>, b: Seq<char>)
    requires
        text::lower(a) == text::lower(b),
    ensures
        chip_layout(a) == chip_layout(b),
{
    lemma_trim_start_lower(a);
    lemma_trim_end_lower(text::trim_start(a));
    lemma_trim_start_lower(b);
    lemma_trim_end_lower(text::trim_start(b));
}

/// What a decoded record shows is what it holds, field by field.
pub proof fn law_a_record_shows_its_fields(d: DecodedCsi)
    ensures
        d@.mac == d.mac,
        d@.rssi == d.rssi,
        d@.timestamp == d.timestamp,
        d@.rate == d.rate,
        d@.noise_floor == d.noise_floor,
        d@.sig_len == d.sig_len,
        d@.rx_state == d.rx_state,
        d@.channel == d.channel,
        d@.date_time == d.date_time,
        d@.sequence_number == d.sequence_number,
        d@.data_format == d.data_format,
        d@.csi_data_len == d.csi_data_len,
        d@.csi_data == d.csi_data@,
        d@.sgi == d.sgi,
        d@.secondary_channel == d.secondary_channel,
        d@.bandwidth == d.bandwidth,
        d@.antenna == d.antenna,
        d@.sig_mode == d.sig_mode,
        d@.mcs == d.mcs,
        d@.smoothing == d.smoothing,
        d@.not_sounding == d.not_sounding,
        d@.aggregation == d.aggregation,
        d@.stbc == d.stbc,
        d@.fec_coding == d.fec_coding,
        d@.ampdu_cnt == d.ampdu_cnt,
        d@.dump_len == d.dump_len,
        d@.cur_bb_format == d.cur_bb_format,
        d@.rx_channel_estimate_info_vld == d.rx_channel_estimate_info_vld,
        d@.rx_channel_estimate_len == d.rx_channel_estimate_len,
        d@.second == d.second,
        d@.is_group == d.is_group,
        d@.rxend_state == d.rxend_state,
        d@.rxmatch3 == d.rxmatch3,
        d@.rxmatch2 == d.rxmatch2,
        d@.rxmatch1 == d.rxmatch1,
        d@.he_sigb_len == d.he_sigb_len,
        d@.cur_single_mpdu == d.cur_single_mpdu,
        d@.rxmatch0 == d.rxmatch0,
{
}

/// The record that the frame of a packet of an esp32, esp32c3 or esp32s3 decodes to agrees with
/// the packet, field by field; what the chip does not report is absent.
pub proof fn law_record_agrees_with_packet_a(p: PacketA, frame: Seq<u8>, record: CsiRecord)
    requires
        read_a(frame, usize::BITS) == Ok::<RecordA, Seq<char>>(p.record()),
        decodes_to(frame, ChipVariant::Esp32Family, record),
    ensures
        record.mac == p.mac,
        record.rssi == p.rssi,
        record.timestamp == p.timestamp,
        record.rate == p.rate,
        record.noise_floor == p.noise_floor,
        record.sig_len == p.sig_len,
        record.rx_state == p.rx_state,
        record.channel == p.channel,
        record.date_time == p.date_time,
        record.sequence_number == p.sequence_number,
        record.data_format == p.data_format,
        record.csi_data_len == p.csi_data_len,
        record.csi_data == p.csi_data@,
        record.sgi == Some(p.sgi),
        record.secondary_channel == Some(p.secondary_channel),
        record.bandwidth == Some(p.bandwidth),
        record.antenna == Some(p.antenna),
        record.sig_mode == Some(p.sig_mode),
        record.mcs == Some(p.mcs),
        record.smoothing == Some(p.smoothing),
        record.not_sounding == Some(p.not_sounding),
        record.aggregation == Some(p.aggregation),
        record.stbc == Some(p.stbc),
        record.fec_coding == Some(p.fec_coding),
        record.ampdu_cnt == Some(p.ampdu_cnt),
        record.dump_len is None,
        record.cur_bb_format is None,
        record.rx_channel_estimate_info_vld is None,
        record.rx_channel_estimate_len is None,
        record.second is None,
        record.is_group is None,
        record.rxend_state is None,
        record.rxmatch3 is None,
        record.rxmatch2 is None,
        record.rxmatch1 is None,
        record.he_sigb_len is None,
        record.cur_single_mpdu is None,
        record.rxmatch0 is None,
        record == p.decoded(),
{
    lemma_format_index(p.data_format);
}

/// A packet of an esp32, esp32c3 or esp32s3 is converted field by field.
pub proof fn law_conversion_keeps_the_fields_a(p: PacketA)
    ensures
        ({
            let d = <DecodedCsi as vstd::std_specs::convert::FromSpec<PacketA>>::from_spec(p);
            &&& p.decoded() == d@
            &&& d.mac == p.mac
            &&& d.rssi == p.rssi
            &&& d.timestamp == p.timestamp
            &&& d.rate == p.rate
            &&& d.noise_floor == p.noise_floor
            &&& d.sig_len == p.sig_len
            &&& d.rx_state == p.rx_state
            &&& d.channel == p.channel
            &&& d.date_time == p.date_time
            &&& d.sequence_number == p.sequence_number
            &&& d.data_format == p.data_format
            &&& d.csi_data_len == p.csi_data_len
            &&& d.csi_data@ == p.csi_data@
            &&& d.sgi == Some(p.sgi)
            &&& d.secondary_channel == Some(p.secondary_channel)
            &&& d.bandwidth == Some(p.bandwidth)
            &&& d.antenna == Some(p.antenna)
            &&& d.sig_mode == Some(p.sig_mode)
            &&& d.mcs == Some(p.mcs)
            &&& d.smoothing == Some(p.smoothing)
            &&& d.not_sounding == Some(p.not_sounding)
            &&& d.aggregation == Some(p.aggregation)
            &&& d.stbc == Some(p.stbc)
            &&& d.fec_coding == Some(p.fec_coding)
            &&& d.ampdu_cnt == Some(p.ampdu_cnt)
            &&& d.dump_len is None
            &&& d.cur_bb_format is None
            &&& d.rx_channel_estimate_info_vld is None
            &&& d.rx_channel_estimate_len is None
            &&& d.second is None
            &&& d.is_group is None
            &&& d.rxend_state is None
            &&& d.rxmatch3 is None
            &&& d.rxmatch2 is None
            &&& d.rxmatch1 is None
            &&& d.he_sigb_len is None
            &&& d.cur_single_mpdu is None
            &&& d.rxmatch0 is None
        }),
{
}

/// Every packet of an esp32, esp32c3 or esp32s3 is decoded from what was read, whatever it holds.
pub proof fn law_packet_a_is_decoded(p: PacketA, frame: Seq<u8>)
    requires
        read_a(frame, usize::BITS) == Ok::<RecordA, Seq<char>>(p.record()),
    ensures
        decodes_to(frame, ChipVariant::Esp32Family, p.decoded()),
{
    lemma_format_index(p.data_format);
}

/// The fields of a packet of an esp32, esp32c3 or esp32s3 stand on the wire in the order in which
/// the firmware declares them.
pub proof fn law_wire_order_a(p: PacketA)
    ensures
        ({
            let w = p.record();
            &&& w.0.0 == p.mac
            &&& w.0.1 == p.rssi
            &&& w.0.2 == p.timestamp
            &&& w.0.3 == p.rate
            &&& w.1.0 == p.sgi
            &&& w.1.1 == p.secondary_channel
            &&& w.1.2 == p.channel
            &&& w.1.3 == p.bandwidth
            &&& w.1.4 == p.antenna
            &&& w.1.5 == p.sig_mode
            &&& w.1.6 == p.mcs
            &&& w.1.7 == p.smoothing
            &&& w.2.0 == p.not_sounding
            &&& w.2.1 == p.aggregation
            &&& w.2.2 == p.stbc
            &&& w.2.3 == p.fec_coding
            &&& w.2.4 == p.ampdu_cnt
            &&& w.2.5 == p.noise_floor
            &&& w.2.6 == p.rx_state
            &&& w.2.7 == p.sig_len
            &&& w.3.0 is Some <==> p.date_time is Some
            &&& p.date_time matches Some(d) ==> w.3.0 == Some(
                (d.year, d.month, d.day, d.hour, d.minute, d.second, d.millisecond),
            )
            &&& w.3.1 == p.sequence_number
            &&& format_at(w.3.2) == Some(p.data_format)
            &&& w.3.2 == format_index(p.data_format)
            &&& w.3.3 == p.csi_data_len
            &&& w.3.4 == p.csi_data@
        }),
{
    lemma_format_index(p.data_format);
}

/// The record that the frame of a packet of an esp32c5 decodes to agrees with
/// the packet, field by field; what the chip does not report is absent.
pub proof fn law_record_agrees_with_packet_bc5(p: PacketBc5, frame: Seq<u8>, record: CsiRecord)
    requires
        read_bc5(frame, usize::BITS) == Ok::<RecordBc5, Seq<char>>(p.record()),
        decodes_to(frame, ChipVariant::Esp32c5, record),
    ensures
        record.mac == p.mac,
        record.rssi == p.rssi,
        record.timestamp == p.timestamp,
        record.rate == p.rate,
        record.noise_floor == p.noise_floor,
        record.sig_len == p.sig_len,
        record.rx_state == p.rx_state,
        record.channel == p.channel,
        record.date_time == p.date_time,
        record.sequence_number == p.sequence_number,
        record.data_format == p.data_format,
        record.csi_data_len == p.csi_data_len,
        record.csi_data == p.csi_data@,
        record.sgi is None,
        record.secondary_channel is None,
        record.bandwidth is None,
        record.antenna is None,
        record.sig_mode is None,
        record.mcs is None,
        record.smoothing is None,
        record.not_sounding is None,
        record.aggregation is None,
        record.stbc is None,
        record.fec_coding is None,
        record.ampdu_cnt is None,
        record.dump_len == Some(p.dump_len),
        record.cur_bb_format == Some(p.cur_bb_format),
        record.rx_channel_estimate_info_vld == Some(p.rx_channel_estimate_info_vld),
        record.rx_channel_estimate_len == Some(p.rx_channel_estimate_len),
        record.second == Some(p.second),
        record.is_group == Some(p.is_group),
        record.rxend_state == Some(p.rxend_state),
        record.rxmatch3 == Some(p.rxmatch3),
        record.rxmatch2 == Some(p.rxmatch2),
        record.rxmatch1 == Some(p.rxmatch1),
        record.he_sigb_len is None,
        record.cur_single_mpdu is None,
        record.rxmatch0 is None,
        record == p.decoded(),
{
    lemma_format_index(p.data_format);
}

/// A packet of an esp32c5 is converted field by field.
pub proof fn law_conversion_keeps_the_fields_bc5(p: PacketBc5)
    ensures
        ({
            let d = <DecodedCsi as vstd::std_specs::convert::FromSpec<PacketBc5>>::from_spec(p);
            &&& p.decoded() == d@
            &&& d.mac == p.mac
            &&& d.rssi == p.rssi
            &&& d.timestamp == p.timestamp
            &&& d.rate == p.rate
            &&& d.noise_floor == p.noise_floor
            &&& d.sig_len == p.sig_len
            &&& d.rx_state == p.rx_state
            &&& d.channel == p.channel
            &&& d.date_time == p.date_time
            &&& d.sequence_number == p.sequence_number
            &&& d.data_format == p.data_format
            &&& d.csi_data_len == p.csi_data_len
            &&& d.csi_data@ == p.csi_data@
            &&& d.sgi is None
            &&& d.secondary_channel is None
            &&& d.bandwidth is None
            &&& d.antenna is None
            &&& d.sig_mode is None
            &&& d.mcs is None
            &&& d.smoothing is None
            &&& d.not_sounding is None
            &&& d.aggregation is None
            &&& d.stbc is None
            &&& d.fec_coding is None
            &&& d.ampdu_cnt is None
            &&& d.dump_len == Some(p.dump_len)
            &&& d.cur_bb_format == Some(p.cur_bb_format)
            &&& d.rx_channel_estimate_info_vld == Some(p.rx_channel_estimate_info_vld)
            &&& d.rx_channel_estimate_len == Some(p.rx_channel_estimate_len)
            &&& d.second == Some(p.second)
            &&& d.is_group == Some(p.is_group)
            &&& d.rxend_state == Some(p.rxend_state)
            &&& d.rxmatch3 == Some(p.rxmatch3)
            &&& d.rxmatch2 == Some(p.rxmatch2)
            &&& d.rxmatch1 == Some(p.rxmatch1)
            &&& d.he_sigb_len is None
            &&& d.cur_single_mpdu is None
            &&& d.rxmatch0 is None
        }),
{
}

/// Every packet of an esp32c5 is decoded from what was read, whatever it holds.
pub proof fn law_packet_bc5_is_decoded(p: PacketBc5, frame: Seq<u8>)
    requires
        read_bc5(frame, usize::BITS) == Ok::<RecordBc5, Seq<char>>(p.record()),
    ensures
        decodes_to(frame, ChipVariant::Esp32c5, p.decoded()),
{
    lemma_format_index(p.data_format);
}

/// The fields of a packet of an esp32c5 stand on the wire in the order in which
/// the firmware declares them.
pub proof fn law_wire_order_bc5(p: PacketBc5)
    ensures
        ({
            let w = p.record();
            &&& w.0.0 == p.mac
            &&& w.0.1 == p.rssi
            &&& w.0.2 == p.timestamp
            &&& w.0.3 == p.rate
            &&& w.0.4 == p.noise_floor
            &&& w.0.5 == p.sig_len
            &&& w.0.6 == p.rx_state
            &&& w.0.7 == p.dump_len
            &&& w.1.0 == p.cur_bb_format
            &&& w.1.1 == p.rx_channel_estimate_info_vld
            &&& w.1.2 == p.rx_channel_estimate_len
            &&& w.1.3 == p.second
            &&& w.1.4 == p.channel
            &&& w.2.0 == p.is_group
            &&& w.2.1 == p.rxend_state
            &&& w.2.2 == p.rxmatch3
            &&& w.2.3 == p.rxmatch2
            &&& w.2.4 == p.rxmatch1
            &&& w.3.0 is Some <==> p.date_time is Some
            &&& p.date_time matches Some(d) ==> w.3.0 == Some(
                (d.year, d.month, d.day, d.hour, d.minute, d.second, d.millisecond),
            )
            &&& w.3.1 == p.sequence_number
            &&& w.3.2 == p.csi_data_len
            &&& format_at(w.3.3) == Some(p.data_format)
            &&& w.3.3 == format_index(p.data_format)
            &&& w.3.4 == p.csi_data@
        }),
{
    lemma_format_index(p.data_format);
}

/// The record that the frame of a packet of an esp32c6 decodes to agrees with
/// the packet, field by field; what the chip does not report is absent.
pub proof fn law_record_agrees_with_packet_bc6(p: PacketBc6, frame: Seq<u8>, record: CsiRecord)
    requires
        read_bc6(frame, usize::BITS) == Ok::<RecordBc6, Seq<char>>(p.record()),
        decodes_to(frame, ChipVariant::Esp32c6, record),
    ensures
        record.mac == p.mac,
        record.rssi == p.rssi,
        record.timestamp == p.timestamp,
        record.rate == p.rate,
        record.noise_floor == p.noise_floor,
        record.sig_len == p.sig_len,
        record.rx_state == p.rx_state,
        record.channel == p.channel,
        record.date_time == p.date_time,
        record.sequence_number == p.sequence_number,
        record.data_format == p.data_format,
        record.csi_data_len == p.csi_data_len,
        record.csi_data == p.csi_data@,
        record.sgi is None,
        record.secondary_channel is None,
        record.bandwidth is None,
        record.antenna is None,
        record.sig_mode is None,
        record.mcs is None,
        record.smoothing is None,
        record.not_sounding is None,
        record.aggregation is None,
        record.stbc is None,
        record.fec_coding is None,
        record.ampdu_cnt is None,
        record.dump_len == Some(p.dump_len),
        record.cur_bb_format == Some(p.cur_bb_format),
        record.rx_channel_estimate_info_vld == Some(p.rx_channel_estimate_info_vld),
        record.rx_channel_estimate_len == Some(p.rx_channel_estimate_len),
        record.second == Some(p.second),
        record.is_group == Some(p.is_group),
        record.rxend_state == Some(p.rxend_state),
        record.rxmatch3 == Some(p.rxmatch3),
        record.rxmatch2 == Some(p.rxmatch2),
        record.rxmatch1 == Some(p.rxmatch1),
        record.he_sigb_len == Some(p.he_sigb_len),
        record.cur_single_mpdu == Some(p.cur_single_mpdu),
        record.rxmatch0 == Some(p.rxmatch0),
        record == p.decoded(),
{
    lemma_format_index(p.data_format);
}

/// A packet of an esp32c6 is converted field by field.
pub proof fn law_conversion_keeps_the_fields_bc6(p: PacketBc6)
    ensures
        ({
            let d = <DecodedCsi as vstd::std_specs::convert::FromSpec<PacketBc6>>::from_spec(p);
            &&& p.decoded() == d@
            &&& d.mac == p.mac
            &&& d.rssi == p.rssi
            &&& d.timestamp == p.timestamp
            &&& d.rate == p.rate
            &&& d.noise_floor == p.noise_floor
            &&& d.sig_len == p.sig_len
            &&& d.rx_state == p.rx_state
            &&& d.channel == p.channel
            &&& d.date_time == p.date_time
            &&& d.sequence_number == p.sequence_number
            &&& d.data_format == p.data_format
            &&& d.csi_data_len == p.csi_data_len
            &&& d.csi_data@ == p.csi_data@
            &&& d.sgi is None
            &&& d.secondary_channel is None
            &&& d.bandwidth is None
            &&& d.antenna is None
            &&& d.sig_mode is None
            &&& d.mcs is None
            &&& d.smoothing is None
            &&& d.not_sounding is None
            &&& d.aggregation is None
            &&& d.stbc is None
            &&& d.fec_coding is None
            &&& d.ampdu_cnt is None
            &&& d.dump_len == Some(p.dump_len)
            &&& d.cur_bb_format == Some(p.cur_bb_format)
            &&& d.rx_channel_estimate_info_vld == Some(p.rx_channel_estimate_info_vld)
            &&& d.rx_channel_estimate_len == Some(p.rx_channel_estimate_len)
            &&& d.second == Some(p.second)
            &&& d.is_group == Some(p.is_group)
            &&& d.rxend_state == Some(p.rxend_state)
            &&& d.rxmatch3 == Some(p.rxmatch3)
            &&& d.rxmatch2 == Some(p.rxmatch2)
            &&& d.rxmatch1 == Some(p.rxmatch1)
            &&& d.he_sigb_len == Some(p.he_sigb_len)
            &&& d.cur_single_mpdu == Some(p.cur_single_mpdu)
            &&& d.rxmatch0 == Some(p.rxmatch0)
        }),
{
}

/// Every packet of an esp32c6 is decoded from what was read, whatever it holds.
pub proof fn law_packet_bc6_is_decoded(p: PacketBc6, frame: Seq<u8>)
    requires
        read_bc6(frame, usize::BITS) == Ok::<RecordBc6, Seq<char>>(p.record()),
    ensures
        decodes_to(frame, ChipVariant::Esp32c6, p.decoded()),
{
    lemma_format_index(p.data_format);
}

/// The fields of a packet of an esp32c6 stand on the wire in the order in which
/// the firmware declares them.
pub proof fn law_wire_order_bc6(p: PacketBc6)
    ensures
        ({
            let w = p.record();
            &&& w.0.0 == p.mac
            &&& w.0.1 == p.rssi
            &&& w.0.2 == p.timestamp
            &&& w.0.3 == p.rate
            &&& w.0.4 == p.noise_floor
            &&& w.0.5 == p.sig_len
            &&& w.0.6 == p.rx_state
            &&& w.0.7 == p.dump_len
            &&& w.1.0 == p.he_sigb_len
            &&& w.1.1 == p.cur_single_mpdu
            &&& w.1.2 == p.cur_bb_format
            &&& w.1.3 == p.rx_channel_estimate_info_vld
            &&& w.1.4 == p.rx_channel_estimate_len
            &&& w.1.5 == p.second
            &&& w.1.6 == p.channel
            &&& w.2.0 == p.is_group
            &&& w.2.1 == p.rxend_state
            &&& w.2.2 == p.rxmatch3
            &&& w.2.3 == p.rxmatch2
            &&& w.2.4 == p.rxmatch1
            &&& w.2.5 == p.rxmatch0
            &&& w.3.0 is Some <==> p.date_time is Some
            &&& p.date_time matches Some(d) ==> w.3.0 == Some(
                (d.year, d.month, d.day, d.hour, d.minute, d.second, d.millisecond),
            )
            &&& w.3.1 == p.sequence_number
            &&& w.3.2 == p.csi_data_len
            &&& format_at(w.3.3) == Some(p.data_format)
            &&& w.3.3 == format_index(p.data_format)
            &&& w.3.4 == p.csi_data@
        }),
{
    lemma_format_index(p.data_format);
}

/// The data formats have the indices `0` to `13` in the order of their declaration,
/// and the names under which they are declared.
pub proof fn law_data_formats(f: RxCsiFmt, index: u32)
    ensures
        f == RxCsiFmt::Bw20 ==> format_index(f) == 0 && format_name(f) == "Bw20"@,
        f == RxCsiFmt::HtBw20 ==> format_index(f) == 1 && format_name(f) == "HtBw20"@,
        f == RxCsiFmt::HtBw20Stbc ==> format_index(f) == 2 && format_name(f) == "HtBw20Stbc"@,
        f == RxCsiFmt::SecbBw20 ==> format_index(f) == 3 && format_name(f) == "SecbBw20"@,
        f == RxCsiFmt::SecbHtBw20 ==> format_index(f) == 4 && format_name(f) == "SecbHtBw20"@,
        f == RxCsiFmt::SecbHtBw20Stbc ==> format_index(f) == 5 && format_name(f) == "SecbHtBw20Stbc"@,
        f == RxCsiFmt::SecbHtBw40 ==> format_index(f) == 6 && format_name(f) == "SecbHtBw40"@,
        f == RxCsiFmt::SecbHtBw40Stbc ==> format_index(f) == 7 && format_name(f) == "SecbHtBw40Stbc"@,
        f == RxCsiFmt::SecaBw20 ==> format_index(f) == 8 && format_name(f) == "SecaBw20"@,
        f == RxCsiFmt::SecaHtBw20 ==> format_index(f) == 9 && format_name(f) == "SecaHtBw20"@,
        f == RxCsiFmt::SecaHtBw20Stbc ==> format_index(f) == 10 && format_name(f) == "SecaHtBw20Stbc"@,
        f == RxCsiFmt::SecaHtBw40 ==> format_index(f) == 11 && format_name(f) == "SecaHtBw40"@,
        f == RxCsiFmt::SecaHtBw40Stbc ==> format_index(f) == 12 && format_name(f) == "SecaHtBw40Stbc"@,
        f == RxCsiFmt::Undefined ==> format_index(f) == 13 && format_name(f) == "Undefined"@,
        index < 14 <==> format_at(index) is Some,
        format_at(index) matches Some(g) ==> format_index(g) == index,
        format_at(format_index(f)) == Some(f),
{
    lemma_format_index(f);
    if index < 14 {
        let g = if index == 0 {
            RxCsiFmt::Bw20
        } else if index == 1 {
            RxCsiFmt::HtBw20
        } else if index == 2 {
            RxCsiFmt::HtBw20Stbc
        } else if index == 3 {
            RxCsiFmt::SecbBw20
        } else if index == 4 {
            RxCsiFmt::SecbHtBw20
        } else if index == 5 {
            RxCsiFmt::SecbHtBw20Stbc
        } else if index == 6 {
            RxCsiFmt::SecbHtBw40
        } else if index == 7 {
            RxCsiFmt::SecbHtBw40Stbc
        } else if index == 8 {
            RxCsiFmt::SecaBw20
        } else if index == 9 {
            RxCsiFmt::SecaHtBw20
        } else if index == 10 {
            RxCsiFmt::SecaHtBw20Stbc
        } else if index == 11 {
            RxCsiFmt::SecaHtBw40
        } else if index == 12 {
            RxCsiFmt::SecaHtBw40Stbc
        } else {
            RxCsiFmt::Undefined
        };
        lemma_format_index(g);
    }
}

/// A frame decodes exactly where it can be read as a record of its chip whose data
/// format exists. What else is said of it: the reason why it cannot be read, or that
/// the format does not exist.
pub proof fn law_frames_that_decode(frame: Seq<u8>)
    ensures
        decoded_frame(frame, ChipVariant::Esp32Family) is Ok <==> read_a(frame, usize::BITS) is Ok
            && read_a(frame, usize::BITS)->Ok_0.3.2 < 14,
        decoded_frame(frame, ChipVariant::Esp32c5) is Ok <==> read_bc5(frame, usize::BITS) is Ok
            && read_bc5(frame, usize::BITS)->Ok_0.3.3 < 14,
        decoded_frame(frame, ChipVariant::Esp32c6) is Ok <==> read_bc6(frame, usize::BITS) is Ok
            && read_bc6(frame, usize::BITS)->Ok_0.3.3 < 14,
        read_a(frame, usize::BITS) is Ok && read_a(frame, usize::BITS)->Ok_0.3.2 >= 14
            ==> decoded_frame(frame, ChipVariant::Esp32Family)->Err_0
            == "Serde Deserialization Error"@,
        read_bc5(frame, usize::BITS) is Ok && read_bc5(frame, usize::BITS)->Ok_0.3.3 >= 14
            ==> decoded_frame(frame, ChipVariant::Esp32c5)->Err_0
            == "Serde Deserialization Error"@,
        read_bc6(frame, usize::BITS) is Ok && read_bc6(frame, usize::BITS)->Ok_0.3.3 >= 14
            ==> decoded_frame(frame, ChipVariant::Esp32c6)->Err_0
            == "Serde Deserialization Error"@,
        read_a(frame, usize::BITS) is Err ==> decoded_frame(frame, ChipVariant::Esp32Family)->Err_0
            == if head_a(frame) is Ok && head_a(frame)->Ok_0.3.2 >= 14 {
            "Serde Deserialization Error"@
        } else {
            read_a(frame, usize::BITS)->Err_0
        },
        read_bc5(frame, usize::BITS) is Err ==> decoded_frame(frame, ChipVariant::Esp32c5)->Err_0
            == if head_bc5(frame) is Ok && head_bc5(frame)->Ok_0.3.3 >= 14 {
            "Serde Deserialization Error"@
        } else {
            read_bc5(frame, usize::BITS)->Err_0
        },
        read_bc6(frame, usize::BITS) is Err ==> decoded_frame(frame, ChipVariant::Esp32c6)->Err_0
            == if head_bc6(frame) is Ok && head_bc6(frame)->Ok_0.3.3 >= 14 {
            "Serde Deserialization Error"@
        } else {
            read_bc6(frame, usize::BITS)->Err_0
        },
{
}

/// Which chips have which layout: the name decides, in any case and with white space
/// around it.
pub proof fn law_layouts_by_chip_name(chip: Seq<char>)
    ensures
        ({
            let name = text::lower(text::trimmed(chip));
            &&& chip_layout(chip) == Some(ChipVariant::Esp32c5) <==> name == "esp32c5"@
            &&& chip_layout(chip) == Some(ChipVariant::Esp32c6) <==> name == "esp32c6"@
            &&& chip_layout(chip) == Some(ChipVariant::Esp32Family) <==> name == "esp32"@ || name
                == "esp32c3"@ || name == "esp32s3"@ || name == "esp32s2"@
        }),
{
    reveal_strlit("esp32");
    reveal_strlit("esp32c3");
    reveal_strlit("esp32s3");
    reveal_strlit("esp32s2");
    reveal_strlit("esp32c5");
    reveal_strlit("esp32c6");
    let (c3, c5, c6) = ("esp32c3"@, "esp32c5"@, "esp32c6"@);
    let (s2, s3) = ("esp32s2"@, "esp32s3"@);
    assert("esp32"@.len() == 5 && c3.len() == 7 && c5.len() == 7 && c6.len() == 7 && s2.len() == 7
        && s3.len() == 7);
    assert(c3[6] == '3' && c5[6] == '5' && c6[6] == '6');
    assert(s2[5] == 's' && s3[5] == 's' && c5[5] == 'c' && c6[5] == 'c');
}

/// A decoded frame shows its record, and one that was not its reason, which is told in
/// full.
pub proof fn law_results_of_decoding(d: DecodedCsi, e: DecodeError)
    ensures
        decode_view(Ok(d)) == Ok::<CsiRecord, Seq<char>>(d@),
        decode_view(Err(e)) == Err::<CsiRecord, Seq<char>>(e.reason@),
        decode_failure(e.reason@).skip("failed to decode CSI frame: "@.len() as int) == e.reason@,
        decode_failure(e.reason@).take("failed to decode CSI frame: "@.len() as int)
            == "failed to decode CSI frame: "@,
{
    let head = "failed to decode CSI frame: "@;
    assert(decode_failure(e.reason@).skip(head.len() as int) =~= e.reason@);
    assert(decode_failure(e.reason@).take(head.len() as int) =~= head);
}

/// A COBS block of up to 253 bytes is preceded by their number and one; a zero stands
/// behind what it holds where another block follows. One of 254 bytes opens with 255, and no
/// zero stands behind it. A block that opens with a zero, or counts more than there is,
/// carries nothing.
pub proof fn law_cobs_blocks(held: Seq<u8>, rest: Seq<u8>, n: u8)
    ensures
        payload(Seq::empty()) == Some(Seq::<u8>::empty()),
        held.len() < 254 && n == held.len() + 1 ==> payload(seq![n] + held) == Some(held),
        held.len() == 254 ==> payload(seq![255u8] + held) == Some(held),
        held.len() < 254 && n == held.len() + 1 && rest.len() > 0 ==> match payload(rest) {
            Some(p) => payload(seq![n] + held + rest) == Some(held.push(0) + p),
            None => payload(seq![n] + held + rest) is None,
        },
        held.len() == 254 && rest.len() > 0 ==> match payload(rest) {
            Some(p) => payload(seq![255u8] + held + rest) == Some(held + p),
            None => payload(seq![255u8] + held + rest) is None,
        },
        payload(seq![0u8] + rest) is None,
        n > held.len() + 1 ==> payload(seq![n] + held) is None,
{
    reveal_with_fuel(payload, 2);
    if held.len() < 254 && n == held.len() + 1 {
        lemma_first_block(held, Seq::empty(), n);
        lemma_first_block(held, rest, n);
        assert(seq![n] + held + Seq::<u8>::empty() =~= seq![n] + held);
        assert(held + Seq::<u8>::empty() =~= held);
    }
    if held.len() == 254 {
        lemma_first_block(held, Seq::empty(), 255);
        lemma_first_block(held, rest, 255);
        assert(seq![255u8] + held + Seq::<u8>::empty() =~= seq![255u8] + held);
        assert(held + Seq::<u8>::empty() =~= held);
    }
}

proof fn lemma_first_block(held: Seq<u8>, rest: Seq<u8>, n: u8)
    requires
        n == held.len() + 1,
    ensures
        ({
            let frame = seq![n] + held + rest;
            &&& frame[0] == n
            &&& frame.len() == n + rest.len()
            &&& frame.subrange(1, n as int) == held
            &&& frame.skip(n as int) == rest
        }),
{
    let frame = seq![n] + held + rest;
    assert(frame.subrange(1, n as int) =~= held);
    assert(frame.skip(n as int) =~= rest);
}

/// A frame that carries another holds no zero, and begins with what the other holds.
pub proof fn law_longer_frames(longer: Seq<u8>, frame: Seq<u8>)
    requires
        carries(longer, frame),
    ensures
        forall|i: int| 0 <= i < longer.len() ==> #[trigger] longer[i] != 0,
        payload(longer) is Some && payload(frame) is Some,
        payload(longer)->0.len() >= payload(frame)->0.len(),
        forall|i: int|
            0 <= i < payload(frame)->0.len() ==> payload(longer)->0[i] == #[trigger] payload(
                frame,
            )->0[i],
{
    assert forall|i: int| 0 <= i < longer.len() implies #[trigger] longer[i] != 0 by {
        assert(longer.contains(longer[i]));
    }
}

} // verus!
