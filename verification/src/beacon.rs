//! The beacons: open, 1 Mbit/s DSSS, on channel 1.
use core::marker::PhantomData;
use ieee80211::common::CapabilitiesInformation;
use ieee80211::elements::element_chain::{ChainElement, ElementChainEnd};
use ieee80211::elements::rates::{EncodedRate, SupportedRatesElement};
use ieee80211::elements::{DSSSParameterSetElement, RawIEEE80211Element, SSIDElement};
use ieee80211::mgmt_frame::body::BeaconBody;
use ieee80211::mgmt_frame::{BeaconFrame, ManagementFrameHeader};
use ieee80211::scroll::Pwrite;
use vstd::prelude::*;
use vstd::string::StringSliceAdditionalSpecFns;

verus! {

/// Name of the control beacon.
pub const SSID_CTRL: &'static str = "CR-CTRL";

/// Name of the driver's beacon.
pub const SSID_RUST: &'static str = "CR-RUST";

/// Name of the beacon of the interposed build.
pub const SSID_INTERPOSED: &'static str = "DEBLOB-HAL";

/// Address of the control beacon.
pub const MAC_CTRL: [u8; 6] = [0x02, 0x00, 0x00, 0x00, 0xda, 0xb0];

/// Address of the driver's beacon.
pub const MAC_RUST: [u8; 6] = [0x02, 0x00, 0x00, 0x00, 0xc6, 0x00];

/// Longest name that a beacon can carry.
pub const SSID_MAX: usize = 32;

/// Bytes of a beacon beside its name.
pub const BEACON_OVERHEAD: usize = 57;

/// The fields of a beacon beside its name.
#[derive(Clone, Copy, Debug)]
pub struct BeaconFields {
    pub duration: u16,
    pub receiver: [u8; 6],
    pub mac: [u8; 6],
    pub timestamp: u64,
    pub interval: u16,
    pub ess: bool,
    pub rates: [u8; 8],
    pub channel: u8,
    pub tag: u8,
    pub tag_data: [u8; 4],
}

/// A halfword as little-endian bytes.
pub open spec fn le_bytes16(x: u16) -> Seq<u8> {
    seq![(x & 0xff) as u8, ((x >> 8) & 0xff) as u8]
}

/// A doubleword as little-endian bytes.
pub open spec fn le_bytes64(x: u64) -> Seq<u8> {
    Seq::new(8, |i: int| ((x >> (8 * i) as u64) & 0xff) as u8)
}

/// The management header of a beacon: frame control, duration, receiver, transmitter and BSSID, and
/// sequence control 0.
pub open spec fn header_bytes(f: BeaconFields) -> Seq<u8> {
    seq![0x80u8, 0x00] + le_bytes16(f.duration) + f.receiver@ + f.mac@ + f.mac@ + seq![0x00u8, 0x00]
}

/// The bytes of a beacon: header, timestamp, interval, capabilities, and the SSID, rates, channel
/// and closing elements, each with its type and length.
pub open spec fn frame_bytes(f: BeaconFields, ssid: Seq<u8>) -> Seq<u8> {
    header_bytes(f) + le_bytes64(f.timestamp) + le_bytes16(f.interval) + seq![
        if f.ess {
            1u8
        } else {
            0
        },
        0x00,
    ] + seq![0x00u8, ssid.len() as u8] + ssid + seq![0x01u8, 0x08] + f.rates@ + seq![
        0x03u8,
        0x01,
        f.channel,
    ] + seq![f.tag, 0x04] + f.tag_data@
}

/// Encodes a data rate with `ieee80211`'s `EncodedRate::from_rate_in_kbps`: the rate in units of 500
/// kbit/s, with bit 7 for an 802.11b rate. The rate has to fit into the other seven bits.
#[verifier::external_body]
fn encode_rate(kbps: usize, is_b: bool) -> (r: u8)
    requires
        kbps / 500 < 0x80,
    ensures
        r == kbps / 500 + (if is_b {
            0x80int
        } else {
            0
        }),
{
    EncodedRate::from_rate_in_kbps(kbps, is_b).into_bits()
}

/// Writes a beacon to the start of `buf` with `scroll`'s `Pwrite::pwrite` of an `ieee80211`
/// `BeaconFrame`, and returns its length. The rest of `buf` stays as it is. A name of more than 32
/// bytes is refused by `SSIDElement::new`, a shorter buffer by `pwrite`.
#[verifier::external_body]
fn write_beacon(buf: &mut [u8], ssid: &str, f: BeaconFields) -> (r: usize)
    requires
        ssid.spec_bytes().len() <= SSID_MAX,
        BEACON_OVERHEAD + ssid.spec_bytes().len() <= old(buf)@.len(),
    ensures
        r == BEACON_OVERHEAD + ssid.spec_bytes().len(),
        final(buf)@ == frame_bytes(f, ssid.spec_bytes()) + old(buf)@.skip(r as int),
{
    let rates = f.rates.map(EncodedRate::from_bits);
    let raw = RawIEEE80211Element { tlv_type: f.tag, slice: &f.tag_data, _phantom: PhantomData };
    let elements = ElementChainEnd::new(SSIDElement::new(ssid).unwrap())
        .append(SupportedRatesElement { supported_rates: rates, _phantom: PhantomData })
        .append(DSSSParameterSetElement { current_channel: f.channel })
        .append(raw);
    let ta = f.mac.into();
    let header = ManagementFrameHeader { duration: f.duration, receiver_address: f.receiver.into(),
        transmitter_address: ta, bssid: ta, ..Default::default() };
    let capabilities_info = CapabilitiesInformation::new().with_is_ess(f.ess);
    let body = BeaconBody { timestamp: f.timestamp, beacon_interval: f.interval,
        capabilities_info, elements, _phantom: PhantomData };
    buf.pwrite(BeaconFrame { header, body }, 0).unwrap()
}

/// The bytes of the beacon of `mac` with the name `ssid`.
pub open spec fn beacon_bytes(ssid: Seq<u8>, mac: Seq<u8>) -> Seq<u8> {
    seq![0x80u8, 0x00, 0x00, 0x00, 0xff, 0xff, 0xff, 0xff, 0xff, 0xff] + mac + mac + seq![
        0x00u8,
        0x00,
    ] + Seq::new(8, |i: int| 0u8) + seq![0x64u8, 0x00, 0x01, 0x00] + seq![
        0x00u8,
        ssid.len() as u8,
    ] + ssid + seq![0x01u8, 0x08, 0x82, 0x84, 0x8b, 0x96, 0x0c, 0x12, 0x18, 0x24] + seq![
        0x03u8,
        0x01,
        0x01,
    ] + seq![0x05u8, 0x04, 0x01, 0x02, 0x00, 0x00]
}

proof fn lemma_little_endian()
    ensures
        le_bytes16(0) =~= seq![0u8, 0u8],
        le_bytes16(100) =~= seq![0x64u8, 0u8],
        le_bytes64(0) =~= Seq::new(8, |i: int| 0u8),
{
    assert((0u16 & 0xff) == 0 && (0u16 >> 8) & 0xff == 0 && (100u16 & 0xff) == 100 && (100u16 >> 8)
        & 0xff == 0) by (bit_vector);
    assert forall|i: int| 0 <= i < 8 implies #[trigger] le_bytes64(0)[i] == 0 by {
        let s = (8 * i) as u64;
        assert((0u64 >> s) & 0xff == 0) by (bit_vector)
            requires
                s < 64,
        ;
    }
}

/// Builds the beacon of `mac` with the name `ssid` at the start of `buf` and returns its length.
pub fn build(buf: &mut [u8], ssid: &str, mac: [u8; 6]) -> (r: usize)
    requires
        ssid.spec_bytes().len() <= SSID_MAX,
        BEACON_OVERHEAD + ssid.spec_bytes().len() <= old(buf)@.len(),
    ensures
        r == BEACON_OVERHEAD + ssid.spec_bytes().len(),
        final(buf)@ == beacon_bytes(ssid.spec_bytes(), mac@) + old(buf)@.skip(r as int),
        final(buf)@.len() == old(buf)@.len(),
{
    let rates = [
        encode_rate(1000, true),
        encode_rate(2000, true),
        encode_rate(5500, true),
        encode_rate(11000, true),
        encode_rate(6000, false),
        encode_rate(9000, false),
        encode_rate(12000, false),
        encode_rate(18000, false),
    ];
    let f = BeaconFields {
        duration: 0,
        receiver: [0xff, 0xff, 0xff, 0xff, 0xff, 0xff],
        mac,
        timestamp: 0,
        interval: 100,
        ess: true,
        rates,
        channel: 1,
        tag: 5,
        tag_data: [0x01, 0x02, 0x00, 0x00],
    };
    proof {
        lemma_little_endian();
        assert(frame_bytes(f, ssid.spec_bytes()) =~= beacon_bytes(ssid.spec_bytes(), mac@));
    }
    write_beacon(buf, ssid, f)
}

/// A beacon is 57 bytes and its name. It is a management frame of subtype 8 with no flags and no
/// duration, for everyone, from its address both as transmitter and as BSSID, with sequence control and
/// timestamp 0. Its interval is 100, its capabilities are those of an ESS alone. Its elements are the
/// name (type 0); the rates 1, 2, 5.5 and 11 Mbit/s with bit 7 set, and 6, 9, 12 and 18 Mbit/s without
/// (type 1, in units of 500 kbit/s); channel 1 (type 3); and the four bytes 1, 2, 0, 0 (type 5).
pub proof fn beacon_field_by_field(ssid: Seq<u8>, mac: Seq<u8>, i: int)
    requires
        mac.len() == 6,
        ssid.len() <= 32,
    ensures
        ({
            let b = beacon_bytes(ssid, mac);
            let n = ssid.len() as int;
            &&& b.len() == 57 + n
            &&& b[0] == 0x80 && b[1] == 0 && b[2] == 0 && b[3] == 0
            &&& 4 <= i < 10 ==> b[i] == 0xff
            &&& 10 <= i < 16 ==> b[i] == mac[i - 10]
            &&& 16 <= i < 22 ==> b[i] == mac[i - 16]
            &&& 22 <= i < 32 ==> b[i] == 0
            &&& b[32] == 100 && b[33] == 0 && b[34] == 1 && b[35] == 0
            &&& b[36] == 0 && b[37] == n
            &&& 38 <= i < 38 + n ==> b[i] == ssid[i - 38]
            &&& b[38 + n] == 1 && b[39 + n] == 8
            &&& b[40 + n] == 0x80 + 1000int / 500 && b[41 + n] == 0x80 + 2000int / 500
            &&& b[42 + n] == 0x80 + 5500int / 500 && b[43 + n] == 0x80 + 11000int / 500
            &&& b[44 + n] == 6000int / 500 && b[45 + n] == 9000int / 500
            &&& b[46 + n] == 12000int / 500 && b[47 + n] == 18000int / 500
            &&& b[48 + n] == 3 && b[49 + n] == 1 && b[50 + n] == 1
            &&& b[51 + n] == 5 && b[52 + n] == 4 && b[53 + n] == 1 && b[54 + n] == 2
            &&& b[55 + n] == 0 && b[56 + n] == 0
        }),
{
}

} // verus!
