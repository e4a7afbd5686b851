//! Rate indices.
//!
//! 0 to 7 are the DSSS/CCK rates (0 is 1 Mbit), 8 to 15 the OFDM rates, 16 to 25 and 26 to 35 the
//! HT/HE rates with long and short guard interval.
use vstd::prelude::*;

verus! {

/// The rate at which the response (RTS or ack) to a frame sent at `rate` is expected.
pub open spec fn rts_rate(rate: int) -> int {
    if 1 <= rate <= 3 {
        1
    } else if 5 <= rate <= 7 {
        5
    } else if rate == 11 || rate == 15 || rate == 0x10 || rate == 0x1a {
        11
    } else if rate == 10 || rate == 14 || 0x11 <= rate <= 0x12 || 0x1b <= rate <= 0x1c {
        10
    } else if rate == 8 || rate == 9 || rate == 12 || rate == 13 || 0x13 <= rate <= 0x19 || 0x1d
        <= rate <= 0x23 {
        9
    } else {
        0
    }
}

/// Looks up the response rate of a rate index.
pub fn cr_mac_tx_get_rts_rate(rate: i32) -> (r: i32)
    ensures
        r == rts_rate(rate as int),
{
    if 0x10 <= rate && rate < 0x24 {
        // The two guard intervals share one pattern, which starts at 0x10 and at 0x1a.
        let mcs: i32 = if rate < 0x1a { rate - 0x10 } else { rate - 0x1a };
        if mcs == 0 {
            11
        } else if mcs <= 2 {
            10
        } else {
            9
        }
    } else if 8 <= rate && rate < 0x10 {
        // OFDM: the pattern of four repeats once.
        let k: i32 = if rate < 12 { rate - 8 } else { rate - 12 };
        if k <= 1 {
            9
        } else if k == 2 {
            10
        } else {
            11
        }
    } else if 1 <= rate && rate <= 3 {
        1
    } else if 5 <= rate && rate <= 7 {
        5
    } else {
        0
    }
}

/// The response rate of every rate index: the CCK rates respond at the 2 Mbit rate of their preamble, 1
/// for 1 to 3 and 5 for 5 to 7; the OFDM rates in two runs of four, and the HT/HE rates in two runs of
/// ten, at 9, 10 or 11; every other index, 0 and 4 among them, at 0.
pub proof fn response_rates(rate: int)
    ensures
        1 <= rate <= 3 ==> rts_rate(rate) == 1,
        5 <= rate <= 7 ==> rts_rate(rate) == 5,
        8 <= rate <= 9 ==> rts_rate(rate) == 9,
        8 <= rate <= 11 ==> rts_rate(rate + 4) == rts_rate(rate),
        rts_rate(10) == 10,
        rts_rate(11) == 11,
        rts_rate(0x10) == 11,
        0x11 <= rate <= 0x12 ==> rts_rate(rate) == 10,
        0x13 <= rate <= 0x19 ==> rts_rate(rate) == 9,
        0x10 <= rate <= 0x19 ==> rts_rate(rate + 10) == rts_rate(rate),
        rate <= 0 || rate == 4 || rate >= 0x24 ==> rts_rate(rate) == 0,
{
}

/// The response rate is one of six basic rates, and each of those is its own response rate.
pub proof fn rts_rate_is_basic(rate: int)
    ensures
        rts_rate(rate) == 0 || rts_rate(rate) == 1 || rts_rate(rate) == 5 || rts_rate(rate) == 9
            || rts_rate(rate) == 10 || rts_rate(rate) == 11,
        rts_rate(rts_rate(rate)) == rts_rate(rate),
{
}

} // verus!
