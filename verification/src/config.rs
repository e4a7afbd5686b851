//! Build-time selectors.
use vstd::prelude::*;
use vstd::string::StringSliceAdditionalSpecFns;

verus! {

/// The AC (and slot) that the driver transmits on: the only slot that the scheduler activates for
/// raw frames.
pub const MY_AC: i32 = 0;

/// Boot probes and periodic health reports.
pub const DIAG: bool = true;

/// A few vendor-scheduled control beacons at boot, as an RF baseline.
pub const CONTROL_BEACON: bool = true;

/// Skip the clock enable inside the wake.
pub const EXP_NO_CLOCK: u8 = 1;

/// Skip the PHY enable inside the wake.
pub const EXP_NO_PHY: u8 = 2;

/// Skip the store that clears the TX block.
pub const EXP_NO_STORE: u8 = 4;

/// Wake through the ROM's PHY enable.
pub const EXP_ROM_PHY: u8 = 8;

/// Wake through the vendor firmware's disconnected wake.
pub const EXP_VENDOR_WAKE: u8 = 16;

/// The selectors that a build can change.
#[derive(Clone, Copy, Debug, PartialEq, Eq, Structural)]
pub struct Config {
    /// Interleave control beacons with the driver's own (they contend for slot 0).
    pub control_burst: bool,
    /// Set of `EXP_*` bits; 0 in production.
    pub pm_wake_experiment: u8,
    /// Alternate the driver's wake with the vendor firmware's from round to round.
    pub ab_wake: bool,
    /// Send only control beacons.
    pub tx_mode_control_only: bool,
    /// Wake the modem before each frame.
    pub pm_on_data_tx: bool,
    /// Use the driver's wake rather than the vendor firmware's.
    pub pm_wake_rust: bool,
    /// Use the driver's security-header step rather than the vendor firmware's.
    pub cr_secframe: bool,
    /// Use the driver's eb pool rather than the vendor firmware's.
    pub cr_pool_enabled: bool,
}

/// Reads the bytes of a decimal number into a byte, modulo 256. A byte that is no digit counts by
/// its distance from `0`.
pub open spec fn digits(s: Seq<u8>) -> u8
    decreases s.len(),
{
    if s.len() == 0 {
        0
    } else {
        digits(s.drop_last()).wrapping_mul(10).wrapping_add(s.last().wrapping_sub(0x30))
    }
}

/// The value of a selector variable; 0 if it is unset.
pub fn env_digit(v: Option<&str>) -> (r: u8)
    ensures
        r == (match v {
            Some(s) => digits(s.spec_bytes()),
            None => 0,
        }),
{
    match v {
        Some(s) => {
            let b = s.as_bytes();
            let mut i: usize = 0;
            let mut n: u8 = 0;
            proof {
                assert(b@.take(0) =~= Seq::<u8>::empty());
            }
            while i < b.len()
                invariant
                    i <= b@.len(),
                    n == digits(b@.take(i as int)),
                decreases b@.len() - i,
            {
                n = n.wrapping_mul(10).wrapping_add(b[i].wrapping_sub(0x30));
                proof {
                    assert(b@.take(i + 1).drop_last() =~= b@.take(i as int));
                }
                i = i + 1;
            }
            proof {
                assert(b@.take(i as int) =~= b@);
            }
            n
        },
        None => 0,
    }
}

/// The selectors from the values of their variables.
pub open spec fn config_of(burst: u8, ab: u8, pm_exp: u8, tx_mode: u8, vendor_wake: u8) -> Config {
    Config {
        control_burst: burst == 1 || ab != 0,
        pm_wake_experiment: pm_exp,
        ab_wake: ab != 0,
        tx_mode_control_only: tx_mode == 1,
        pm_on_data_tx: true,
        pm_wake_rust: vendor_wake == 0,
        cr_secframe: true,
        cr_pool_enabled: true,
    }
}

/// Builds the selectors from the values of CR_BURST, CR_AB, CR_PM_EXP, CR_TX_MODE and CR_BLOB_WAKE.
pub fn from_values(burst: u8, ab: u8, pm_exp: u8, tx_mode: u8, vendor_wake: u8) -> (r: Config)
    ensures
        r == config_of(burst, ab, pm_exp, tx_mode, vendor_wake),
{
    Config {
        control_burst: burst == 1 || ab != 0,
        pm_wake_experiment: pm_exp,
        ab_wake: ab != 0,
        tx_mode_control_only: tx_mode == 1,
        pm_on_data_tx: true,
        pm_wake_rust: vendor_wake == 0,
        cr_secframe: true,
        cr_pool_enabled: true,
    }
}

proof fn lemma_digit(d: u8, c: u8)
    ensures
        d.wrapping_mul(10).wrapping_add(c.wrapping_sub(0x30)) == (10 * d + c + 0x100 - 0x30) % 0x100,
{
    let x: int = d * 10;
    let m = d.wrapping_mul(10);
    let e = c.wrapping_sub(0x30);
    assert(m == x % 0x100);
    assert(e == c - 0x30 || e == c - 0x30 + 0x100);
    assert(x == 0x100 * (x / 0x100) + m);
}

/// A selector variable reads from left to right: an empty one is 0, and each further byte multiplies by
/// ten and adds its distance from `0`, modulo 256.
pub proof fn digits_read_left_to_right(s: Seq<u8>, c: u8)
    ensures
        digits(Seq::empty()) == 0,
        digits(s.push(c)) == (10 * digits(s) + c + 0x100 - 0x30) % 0x100,
{
    let t = s.push(c);
    assert(t.drop_last() =~= s);
    assert(t.last() == c);
    lemma_digit(digits(s), c);
}

/// What each variable selects, and nothing else: CR_BURST at 1 or any CR_AB brings the bursts, any CR_AB
/// the alternation, CR_TX_MODE at 1 the control-only mode, CR_PM_EXP is the set of experiments as it
/// stands, and any CR_BLOB_WAKE takes the wake away from the driver. Wake, security-header step and pool
/// are always the driver's to do.
pub proof fn variables_select(burst: u8, ab: u8, pm_exp: u8, tx_mode: u8, vendor_wake: u8)
    ensures
        ({
            let c = config_of(burst, ab, pm_exp, tx_mode, vendor_wake);
            &&& c.control_burst <==> burst == 1 || ab > 0
            &&& c.ab_wake <==> ab > 0
            &&& c.tx_mode_control_only <==> tx_mode == 1
            &&& c.pm_wake_experiment == pm_exp
            &&& c.pm_wake_rust <==> vendor_wake == 0
            &&& c.pm_on_data_tx && c.cr_secframe && c.cr_pool_enabled
        }),
{
}

/// The number that a run of decimal digits stands for.
pub open spec fn decimal(s: Seq<u8>) -> nat
    decreases s.len(),
{
    if s.len() == 0 {
        0
    } else {
        decimal(s.drop_last()) * 10 + (s.last() - 0x30) as nat
    }
}

proof fn lemma_carry(n: nat, c: int)
    requires
        0x30 <= c <= 0x39,
    ensures
        (10 * (n % 0x100) + c + 0x100 - 0x30) % 0x100 == (n * 10 + (c - 0x30)) % 0x100,
{
    let low: int = (n % 0x100) as int;
    let high: int = (n / 0x100) as int;
    assert(n == 0x100 * high + low);
    vstd::arithmetic::div_mod::lemma_mod_multiples_vanish(
        10 * high - 1,
        10 * low + c + 0x100 - 0x30,
        0x100,
    );
}

/// A variable made of decimal digits has the value of its number modulo 256.
pub proof fn digits_read_decimal(s: Seq<u8>)
    requires
        forall|i: int| 0 <= i < s.len() ==> 0x30 <= #[trigger] s[i] <= 0x39,
    ensures
        digits(s) == decimal(s) % 0x100,
    decreases s.len(),
{
    if s.len() > 0 {
        let t = s.drop_last();
        assert forall|i: int| 0 <= i < t.len() implies 0x30 <= #[trigger] t[i] <= 0x39 by {
            assert(t[i] == s[i]);
        }
        digits_read_decimal(t);
        assert(0x30 <= s[s.len() - 1] <= 0x39);
        lemma_digit(digits(t), s.last());
        lemma_carry(decimal(t), s.last() as int);
        assert(decimal(s) == decimal(t) * 10 + (s.last() - 0x30));
    }
}

} // verus!
