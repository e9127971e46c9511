//! The DCF77 time code: the data model and its advance-by-one-minute step.
//!
//! A DCF77 frame transmits the time of the *next* minute, each digit as its
//! own bounded (BCD-style) field.  The only mutation the device ever applies
//! is `increment_minute`, a minute-to-hour carry chain with 24-hour
//! wraparound; date fields deliberately never roll over.

use crate::parity::{even_pop, is_bit, lemma_even_pop_top_bit, odd_parity};
use vstd::arithmetic::div_mod::{
    lemma_add_mod_noop_right, lemma_fundamental_div_mod, lemma_fundamental_div_mod_converse,
    lemma_mod_bound, lemma_mod_mod, lemma_mod_self_0, lemma_small_mod,
};
use vstd::prelude::*;

verus! {

/// The carrier frequency of the DCF77 broadcast in Hertz.
pub const FREQUENCY_HZ: u32 = 77_500;

/// One minute of civil time, held as the separate digit fields that the
/// DCF77 frame layout transmits.
#[derive(Clone, Copy, Debug, Eq, Hash, PartialEq, Structural)]
pub struct Dcf77Data {
    // start of minute (bit :00) is always 0
    /// Civil warning bits (bits :01 through :14); only the bottom 14 bits
    /// of this value are used.
    pub civil_warning: u16,

    /// Abnormal transmitter operation (bit :15).
    pub abnormal_operation: bool,

    /// Summer time announcement (bit :16).
    pub summer_announcement: bool,

    /// Set if CEST (summer time) is in effect (bit :17).
    pub cest: bool,

    /// Set if CET (winter time) is in effect (bit :18).
    pub cet: bool,

    /// Leap second announcement (bit :19).
    pub leap_second_announcement: bool,

    // start of time (bit :20) is always 1
    /// Ones of the minute (bits :21 through :24).
    pub minute_ones: u8,

    /// Tens of the minute (bits :25 through :27).
    pub minute_tens: u8,

    // bit :28 is even parity over minute bits
    /// Ones of the hour (bits :29 through :32).
    pub hour_ones: u8,

    /// Tens of the hour (bits :33 through :34).
    pub hour_tens: u8,

    // bit :35 is even parity over hour bits
    /// Ones of the day of month (bits :36 through :39).
    pub day_of_month_ones: u8,

    /// Tens of the day of month (bits :40 through :41).
    pub day_of_month_tens: u8,

    /// Day of week (bits :42 through :44), 1 (Monday) to 7 (Sunday).
    pub day_of_week: u8,

    /// Ones of the month (bits :45 through :48).
    pub month_ones: u8,

    /// Tens of the month (bit :49), contributing ten when set.
    pub month_ten: bool,

    /// Ones of the year within its century (bits :50 through :53).
    pub year_in_century_ones: u8,

    /// Tens of the year within its century (bits :54 through :57).
    pub year_in_century_tens: u8,
    // bit :58 is even parity over date bits :36 through :57
    // on bit :59, modulation is fully disabled
}

impl Dcf77Data {
    /// Every digit field within its documented range: minute below sixty,
    /// hour below twenty-four, day of week one to seven, date digits decimal,
    /// civil warning within its fourteen bits.
    pub open spec fn wf(self) -> bool {
        &&& self.civil_warning < 0x4000
        &&& self.minute_ones <= 9
        &&& self.minute_tens <= 5
        &&& self.hour_ones <= 9
        &&& self.hour_tens <= 2
        &&& (self.hour_tens == 2 ==> self.hour_ones <= 3)
        &&& 1 <= self.day_of_week <= 7
        &&& self.day_of_month_ones <= 9
        &&& self.day_of_month_tens <= 3
        &&& self.month_ones <= 9
        &&& self.year_in_century_ones <= 9
        &&& self.year_in_century_tens <= 9
    }

    /// The minute within the hour that the digit fields encode.
    pub open spec fn minute_value(self) -> int {
        self.minute_tens * 10 + self.minute_ones
    }

    /// The hour of the day that the digit fields encode.
    pub open spec fn hour_value(self) -> int {
        self.hour_tens * 10 + self.hour_ones
    }

    /// Minutes since midnight.
    pub open spec fn time_value(self) -> int {
        self.hour_value() * 60 + self.minute_value()
    }

    /// The time code one minute later: the same stamp with the minutes since
    /// midnight advanced by one, modulo one day, in canonical digits.
    pub open spec fn spec_increment(self) -> Self {
        let t = (self.time_value() + 1) % 1440;
        Self {
            minute_ones: (t % 10) as u8,
            minute_tens: ((t % 60) / 10) as u8,
            hour_ones: ((t / 60) % 10) as u8,
            hour_tens: ((t / 60) / 10) as u8,
            ..self
        }
    }

    /// The fixed initial stamp the device boots with:
    /// Tuesday 1990-04-10, 10:40, CEST in effect.
    pub open spec fn initial() -> Self {
        Self {
            civil_warning: 0u16,
            abnormal_operation: false,
            summer_announcement: false,
            cest: true,
            cet: false,
            leap_second_announcement: false,
            minute_ones: 0u8,
            minute_tens: 4u8,
            hour_tens: 1u8,
            hour_ones: 0u8,
            day_of_month_tens: 1u8,
            day_of_month_ones: 0u8,
            day_of_week: 2u8,
            month_ones: 4u8,
            month_ten: false,
            year_in_century_ones: 0u8,
            year_in_century_tens: 9u8,
        }
    }

    /// The fixed initial stamp the device boots with:
    /// Tuesday 1990-04-10, 10:40, CEST in effect.
    pub fn new() -> (d: Self)
        ensures
            d == Self::initial(),
            d.wf(),
    {
        Self {
            civil_warning: 0,
            abnormal_operation: false,
            summer_announcement: false,
            cest: true,
            cet: false,
            leap_second_announcement: false,
            minute_ones: 0,
            minute_tens: 4,
            hour_tens: 1,
            hour_ones: 0,
            day_of_month_tens: 1,
            day_of_month_ones: 0,
            day_of_week: 2,
            month_ones: 4,
            month_ten: false,
            year_in_century_ones: 0,
            year_in_century_tens: 9,
        }
    }

    /// Advances the stamp by one minute: minute ones carry into minute tens,
    /// minute tens into the hour, and the hour wraps from 23:59 to 00:00.
    /// No date field changes.
    pub fn increment_minute(&mut self)
        requires
            old(self).wf(),
        ensures
            *final(self) == old(self).spec_increment(),
            final(self).wf(),
    {
        proof {
            lemma_digits_from_time(*old(self));
        }
        self.minute_ones += 1;
        if self.minute_ones < 10 {
            proof {
                lemma_small_mod((old(self).time_value() + 1) as nat, 1440);
                lemma_digits_from_time(*self);
            }
            return;
        }

        self.minute_ones = 0;
        self.minute_tens += 1;
        if self.minute_tens < 6 {
            proof {
                lemma_small_mod((old(self).time_value() + 1) as nat, 1440);
                lemma_digits_from_time(*self);
            }
            return;
        }

        self.minute_tens = 0;
        self.hour_ones += 1;
        if self.hour_tens == 2 && self.hour_ones >= 4 {
            // don't bother incrementing the date
            self.hour_ones = 0;
            self.hour_tens = 0;
            proof {
                lemma_mod_self_0(1440);
                lemma_digits_from_time(*self);
            }
            return;
        } else if self.hour_ones < 10 {
            proof {
                lemma_small_mod((old(self).time_value() + 1) as nat, 1440);
                lemma_digits_from_time(*self);
            }
            return;
        }

        self.hour_ones = 0;
        self.hour_tens += 1;
        proof {
            lemma_small_mod((old(self).time_value() + 1) as nat, 1440);
            lemma_digits_from_time(*self);
        }

        // don't bother with the date
    }

    /// Serializes the stamp into the DCF77 frame layout: bit 0 clear, the
    /// civil warning and status flags in bits 1 through 19, bit 20 set, and
    /// the time and date digits with their three even-parity bits up to
    /// bit 58.  Bits 59 and up stay clear.
    pub fn to_bits(&self) -> (bits: u64)
        ensures
            bits == frame_of(*self),
    {
        let base: u64 = (((self.civil_warning as u64) & 0x3FFF) << 1)
            | (if self.abnormal_operation { 1u64 << 15 } else { 0u64 })
            | (if self.summer_announcement { 1u64 << 16 } else { 0u64 })
            | (if self.cest { 1u64 << 17 } else { 0u64 })
            | (if self.cet { 1u64 << 18 } else { 0u64 })
            | (if self.leap_second_announcement { 1u64 << 19 } else { 0u64 })
            | (1u64 << 20)
            | (((self.minute_ones as u64) & 0xF) << 21)
            | (((self.minute_tens as u64) & 0x7) << 25)
            | (((self.hour_ones as u64) & 0xF) << 29)
            | (((self.hour_tens as u64) & 0x3) << 33)
            | (((self.day_of_month_ones as u64) & 0xF) << 36)
            | (((self.day_of_month_tens as u64) & 0x3) << 40)
            | (((self.day_of_week as u64) & 0x7) << 42)
            | (((self.month_ones as u64) & 0xF) << 45)
            | (if self.month_ten { 1u64 << 49 } else { 0u64 })
            | (((self.year_in_century_ones as u64) & 0xF) << 50)
            | (((self.year_in_century_tens as u64) & 0xF) << 54);
        let minute_odd: bool = odd_parity((base >> 21) & 0x7F);
        let hour_odd: bool = odd_parity((base >> 29) & 0x3F);
        let date_odd: bool = odd_parity((base >> 36) & 0x3F_FFFF);
        base
            | (if minute_odd { 1u64 << 28 } else { 0u64 })
            | (if hour_odd { 1u64 << 35 } else { 0u64 })
            | (if date_odd { 1u64 << 58 } else { 0u64 })
    }

    /// Reads a frame back into its fields: the inverse of `to_bits` on
    /// well-formed stamps.  Parity bits are not checked.
    pub fn from_bits(bits: u64) -> (d: Self)
        ensures
            d == data_of_frame(bits),
    {
        Self {
            civil_warning: ((bits >> 1) & 0x3FFF) as u16,
            abnormal_operation: (bits >> 15) & 1 == 1,
            summer_announcement: (bits >> 16) & 1 == 1,
            cest: (bits >> 17) & 1 == 1,
            cet: (bits >> 18) & 1 == 1,
            leap_second_announcement: (bits >> 19) & 1 == 1,
            minute_ones: ((bits >> 21) & 0xF) as u8,
            minute_tens: ((bits >> 25) & 0x7) as u8,
            hour_ones: ((bits >> 29) & 0xF) as u8,
            hour_tens: ((bits >> 33) & 0x3) as u8,
            day_of_month_ones: ((bits >> 36) & 0xF) as u8,
            day_of_month_tens: ((bits >> 40) & 0x3) as u8,
            day_of_week: ((bits >> 42) & 0x7) as u8,
            month_ones: ((bits >> 45) & 0xF) as u8,
            month_ten: (bits >> 49) & 1 == 1,
            year_in_century_ones: ((bits >> 50) & 0xF) as u8,
            year_in_century_tens: ((bits >> 54) & 0xF) as u8,
        }
    }
}

/// The frame bits before the parity bits are placed: every field shifted to
/// its documented position, with bit 0 clear and bit 20 set.
pub open spec fn frame_base(d: Dcf77Data) -> u64 {
    (((d.civil_warning as u64) & 0x3FFF) << 1)
        | (if d.abnormal_operation { 1u64 << 15 } else { 0u64 })
        | (if d.summer_announcement { 1u64 << 16 } else { 0u64 })
        | (if d.cest { 1u64 << 17 } else { 0u64 })
        | (if d.cet { 1u64 << 18 } else { 0u64 })
        | (if d.leap_second_announcement { 1u64 << 19 } else { 0u64 })
        | (1u64 << 20)
        | (((d.minute_ones as u64) & 0xF) << 21)
        | (((d.minute_tens as u64) & 0x7) << 25)
        | (((d.hour_ones as u64) & 0xF) << 29)
        | (((d.hour_tens as u64) & 0x3) << 33)
        | (((d.day_of_month_ones as u64) & 0xF) << 36)
        | (((d.day_of_month_tens as u64) & 0x3) << 40)
        | (((d.day_of_week as u64) & 0x7) << 42)
        | (((d.month_ones as u64) & 0xF) << 45)
        | (if d.month_ten { 1u64 << 49 } else { 0u64 })
        | (((d.year_in_century_ones as u64) & 0xF) << 50)
        | (((d.year_in_century_tens as u64) & 0xF) << 54)
}

/// The minute digit bits of a frame, bits 21 through 27.
pub open spec fn minute_group(bits: u64) -> u64 {
    (bits >> 21) & 0x7F
}

/// The hour digit bits of a frame, bits 29 through 34.
pub open spec fn hour_group(bits: u64) -> u64 {
    (bits >> 29) & 0x3F
}

/// The date digit bits of a frame, bits 36 through 57.
pub open spec fn date_group(bits: u64) -> u64 {
    (bits >> 36) & 0x3F_FFFF
}

/// The complete DCF77 frame for a stamp: the placed fields together with an
/// even-parity bit over each of the minute, hour and date groups, at bits
/// 28, 35 and 58.
pub open spec fn frame_of(d: Dcf77Data) -> u64 {
    let base = frame_base(d);
    base
        | (if even_pop(minute_group(base)) { 0u64 } else { 1u64 << 28 })
        | (if even_pop(hour_group(base)) { 0u64 } else { 1u64 << 35 })
        | (if even_pop(date_group(base)) { 0u64 } else { 1u64 << 58 })
}

/// The fields a frame carries, each read back from its documented bits.
pub open spec fn data_of_frame(bits: u64) -> Dcf77Data {
    Dcf77Data {
        civil_warning: ((bits >> 1) & 0x3FFF) as u16,
        abnormal_operation: (bits >> 15) & 1 == 1,
        summer_announcement: (bits >> 16) & 1 == 1,
        cest: (bits >> 17) & 1 == 1,
        cet: (bits >> 18) & 1 == 1,
        leap_second_announcement: (bits >> 19) & 1 == 1,
        minute_ones: ((bits >> 21) & 0xF) as u8,
        minute_tens: ((bits >> 25) & 0x7) as u8,
        hour_ones: ((bits >> 29) & 0xF) as u8,
        hour_tens: ((bits >> 33) & 0x3) as u8,
        day_of_month_ones: ((bits >> 36) & 0xF) as u8,
        day_of_month_tens: ((bits >> 40) & 0x3) as u8,
        day_of_week: ((bits >> 42) & 0x7) as u8,
        month_ones: ((bits >> 45) & 0xF) as u8,
        month_ten: (bits >> 49) & 1 == 1,
        year_in_century_ones: ((bits >> 50) & 0xF) as u8,
        year_in_century_tens: ((bits >> 54) & 0xF) as u8,
    }
}

/// The stamp after `n` applications of the one-minute advance.
pub open spec fn nth_increment(d: Dcf77Data, n: nat) -> Dcf77Data
    decreases n,
{
    if n == 0 {
        d
    } else {
        nth_increment(d, (n - 1) as nat).spec_increment()
    }
}

/// One advance keeps the stamp well formed, moves the minutes since
/// midnight forward by one modulo one day, and touches no other field.
pub proof fn lemma_increment_step(d: Dcf77Data)
    requires
        d.wf(),
    ensures
        d.spec_increment().wf(),
        d.spec_increment().time_value() == (d.time_value() + 1) % 1440,
        d.spec_increment().civil_warning == d.civil_warning,
        d.spec_increment().abnormal_operation == d.abnormal_operation,
        d.spec_increment().summer_announcement == d.summer_announcement,
        d.spec_increment().cest == d.cest,
        d.spec_increment().cet == d.cet,
        d.spec_increment().leap_second_announcement == d.leap_second_announcement,
        d.spec_increment().day_of_month_ones == d.day_of_month_ones,
        d.spec_increment().day_of_month_tens == d.day_of_month_tens,
        d.spec_increment().day_of_week == d.day_of_week,
        d.spec_increment().month_ones == d.month_ones,
        d.spec_increment().month_ten == d.month_ten,
        d.spec_increment().year_in_century_ones == d.year_in_century_ones,
        d.spec_increment().year_in_century_tens == d.year_in_century_tens,
{
    let t = (d.time_value() + 1) % 1440;
    lemma_mod_bound(d.time_value() + 1, 1440);
    let h = t / 60;
    let m = t % 60;
    lemma_fundamental_div_mod(t, 60);
    lemma_mod_bound(t, 60);
    assert(0 <= h < 24);
    lemma_fundamental_div_mod(h, 10);
    lemma_mod_bound(h, 10);
    lemma_fundamental_div_mod(m, 10);
    lemma_mod_bound(m, 10);
    lemma_mod_mod(t, 10, 6);
    assert(t % 10 == m % 10);
    let e = d.spec_increment();
    assert(e.hour_tens == h / 10 && e.hour_ones == h % 10);
    assert(e.minute_tens == m / 10 && e.minute_ones == t % 10);
    assert(e.hour_value() == h);
    assert(e.minute_value() == m);
    assert(e.time_value() == t);
}

/// After `n` advances the minutes since midnight have moved forward by `n`
/// modulo one day, the stamp is still well formed, and no other field has
/// changed.
pub proof fn lemma_nth_increment(d: Dcf77Data, n: nat)
    requires
        d.wf(),
    ensures
        nth_increment(d, n).wf(),
        nth_increment(d, n).time_value() == (d.time_value() + n) % 1440,
        nth_increment(d, n).civil_warning == d.civil_warning,
        nth_increment(d, n).abnormal_operation == d.abnormal_operation,
        nth_increment(d, n).summer_announcement == d.summer_announcement,
        nth_increment(d, n).cest == d.cest,
        nth_increment(d, n).cet == d.cet,
        nth_increment(d, n).leap_second_announcement == d.leap_second_announcement,
        nth_increment(d, n).day_of_month_ones == d.day_of_month_ones,
        nth_increment(d, n).day_of_month_tens == d.day_of_month_tens,
        nth_increment(d, n).day_of_week == d.day_of_week,
        nth_increment(d, n).month_ones == d.month_ones,
        nth_increment(d, n).month_ten == d.month_ten,
        nth_increment(d, n).year_in_century_ones == d.year_in_century_ones,
        nth_increment(d, n).year_in_century_tens == d.year_in_century_tens,
    decreases n,
{
    lemma_digits_from_time(d);
    if n == 0 {
        lemma_small_mod(d.time_value() as nat, 1440);
    } else {
        let prev = nth_increment(d, (n - 1) as nat);
        lemma_nth_increment(d, (n - 1) as nat);
        lemma_increment_step(prev);
        lemma_add_mod_noop_right(1, d.time_value() + n - 1, 1440);
        assert((1 + (d.time_value() + n - 1) % 1440) % 1440 == (d.time_value() + n) % 1440);
    }
}

/// From any well-formed stamp, a full day of one-minute advances returns to
/// exactly the original stamp, and along the way the hour digits never
/// encode a value of twenty-four or more.
pub proof fn lemma_minute_cycle(d: Dcf77Data)
    requires
        d.wf(),
    ensures
        nth_increment(d, 1440) == d,
        forall|n: nat|
            #[trigger] nth_increment(d, n).wf() && nth_increment(d, n).hour_value() < 24,
{
    assert forall|n: nat|
        #[trigger] nth_increment(d, n).wf() && nth_increment(d, n).hour_value() < 24 by {
        lemma_nth_increment(d, n);
    }
    lemma_nth_increment(d, 1440);
    let e = nth_increment(d, 1440);
    assert((d.time_value() + 1440) % 1440 == d.time_value()) by {
        lemma_fundamental_div_mod_converse(d.time_value() + 1440, 1440, 1, d.time_value());
        lemma_digits_from_time(d);
    }
    lemma_digits_from_time(d);
    lemma_digits_from_time(e);
}

/// Bit-level facts about the pre-parity frame image, over the raw field
/// values: every field can be read back from its documented bits, the two
/// marker bits have their fixed values, and the parity-bit positions and
/// everything above bit 58 are still clear.
#[verifier::spinoff_prover]
proof fn lemma_base_bits(
    cw: u64,
    ab: u64,
    sa: u64,
    ce: u64,
    ct: u64,
    ls: u64,
    mo: u64,
    mt: u64,
    ho: u64,
    ht: u64,
    dmo: u64,
    dmt: u64,
    dw: u64,
    mn: u64,
    m10: u64,
    yo: u64,
    yt: u64,
    b: u64,
)
    by (bit_vector)
    requires
        b == ((cw & 0x3FFF) << 1) | ab | sa | ce | ct | ls | (1u64 << 20) | ((mo & 0xF) << 21) | (
        (mt & 0x7) << 25) | ((ho & 0xF) << 29) | ((ht & 0x3) << 33) | ((dmo & 0xF) << 36) | ((dmt
            & 0x3) << 40) | ((dw & 0x7) << 42) | ((mn & 0xF) << 45) | m10 | ((yo & 0xF) << 50) | ((
        yt & 0xF) << 54),
        ab == 0 || ab == (1u64 << 15),
        sa == 0 || sa == (1u64 << 16),
        ce == 0 || ce == (1u64 << 17),
        ct == 0 || ct == (1u64 << 18),
        ls == 0 || ls == (1u64 << 19),
        m10 == 0 || m10 == (1u64 << 49),
    ensures
        b & 1 == 0,
        (b >> 1) & 0x3FFF == cw & 0x3FFF,
        ((b >> 15) & 1 == 1) == (ab != 0),
        (ab == (1u64 << 15)) == (ab != 0),
        ((b >> 16) & 1 == 1) == (sa != 0),
        (sa == (1u64 << 16)) == (sa != 0),
        ((b >> 17) & 1 == 1) == (ce != 0),
        (ce == (1u64 << 17)) == (ce != 0),
        ((b >> 18) & 1 == 1) == (ct != 0),
        (ct == (1u64 << 18)) == (ct != 0),
        ((b >> 19) & 1 == 1) == (ls != 0),
        (ls == (1u64 << 19)) == (ls != 0),
        (b >> 20) & 1 == 1,
        (b >> 21) & 0xF == mo & 0xF,
        (b >> 25) & 0x7 == mt & 0x7,
        (b >> 28) & 1 == 0,
        (b >> 29) & 0xF == ho & 0xF,
        (b >> 33) & 0x3 == ht & 0x3,
        (b >> 35) & 1 == 0,
        (b >> 36) & 0xF == dmo & 0xF,
        (b >> 40) & 0x3 == dmt & 0x3,
        (b >> 42) & 0x7 == dw & 0x7,
        (b >> 45) & 0xF == mn & 0xF,
        ((b >> 49) & 1 == 1) == (m10 != 0),
        (m10 == (1u64 << 49)) == (m10 != 0),
        (b >> 50) & 0xF == yo & 0xF,
        (b >> 54) & 0xF == yt & 0xF,
        (b >> 58) & 1 == 0,
        b >> 59 == 0,
{
}

/// Bit-level facts about placing the three parity bits on top of a frame
/// image whose parity positions are clear: every other field keeps its
/// bits, and each digit group together with its parity bit reads back as
/// the group plus the placed top bit.
#[verifier::spinoff_prover]
proof fn lemma_parity_overlay(b: u64, pm: u64, ph: u64, pd: u64, r: u64)
    by (bit_vector)
    requires
        r == b | pm | ph | pd,
        (b >> 28) & 1 == 0,
        (b >> 35) & 1 == 0,
        (b >> 58) & 1 == 0,
        b >> 59 == 0,
        pm == 0 || pm == (1u64 << 28),
        ph == 0 || ph == (1u64 << 35),
        pd == 0 || pd == (1u64 << 58),
    ensures
        r & 1 == b & 1,
        (r >> 1) & 0x3FFF == (b >> 1) & 0x3FFF,
        (r >> 15) & 1 == (b >> 15) & 1,
        (r >> 16) & 1 == (b >> 16) & 1,
        (r >> 17) & 1 == (b >> 17) & 1,
        (r >> 18) & 1 == (b >> 18) & 1,
        (r >> 19) & 1 == (b >> 19) & 1,
        (r >> 20) & 1 == (b >> 20) & 1,
        (r >> 21) & 0xF == (b >> 21) & 0xF,
        (r >> 25) & 0x7 == (b >> 25) & 0x7,
        (r >> 29) & 0xF == (b >> 29) & 0xF,
        (r >> 33) & 0x3 == (b >> 33) & 0x3,
        (r >> 36) & 0xF == (b >> 36) & 0xF,
        (r >> 40) & 0x3 == (b >> 40) & 0x3,
        (r >> 42) & 0x7 == (b >> 42) & 0x7,
        (r >> 45) & 0xF == (b >> 45) & 0xF,
        (r >> 49) & 1 == (b >> 49) & 1,
        (r >> 50) & 0xF == (b >> 50) & 0xF,
        (r >> 54) & 0xF == (b >> 54) & 0xF,
        ((r >> 28) & 1 == 1) == (pm != 0),
        ((r >> 35) & 1 == 1) == (ph != 0),
        ((r >> 58) & 1 == 1) == (pd != 0),
        (pm == (1u64 << 28)) == (pm != 0),
        (ph == (1u64 << 35)) == (ph != 0),
        (pd == (1u64 << 58)) == (pd != 0),
        r >> 59 == 0,
        (b >> 21) & 0x7F < 128,
        (b >> 29) & 0x3F < 64,
        (b >> 36) & 0x3F_FFFF < 0x40_0000,
        (r >> 21) & 0x7F == (b >> 21) & 0x7F,
        (r >> 29) & 0x3F == (b >> 29) & 0x3F,
        (r >> 36) & 0x3F_FFFF == (b >> 36) & 0x3F_FFFF,
        pm == 0 ==> (r >> 21) & 0xFF == (b >> 21) & 0x7F,
        pm != 0 ==> (r >> 21) & 0xFF == ((b >> 21) & 0x7F) + 128,
        ph == 0 ==> (r >> 29) & 0x7F == (b >> 29) & 0x3F,
        ph != 0 ==> (r >> 29) & 0x7F == ((b >> 29) & 0x3F) + 64,
        pd == 0 ==> (r >> 36) & 0x7F_FFFF == (b >> 36) & 0x3F_FFFF,
        pd != 0 ==> (r >> 36) & 0x7F_FFFF == ((b >> 36) & 0x3F_FFFF) + 0x40_0000,
{
}

/// A value below a power of two is unchanged by the mask one below it.
proof fn lemma_small_masks(x: u64)
    by (bit_vector)
    ensures
        x < 0x4000 ==> x & 0x3FFF == x,
        x < 16 ==> x & 0xF == x,
        x < 8 ==> x & 0x7 == x,
        x < 4 ==> x & 0x3 == x,
{
}

/// Binds the field images of `d` and hands the two bit-level lemmas their
/// arguments, giving every caller the extraction facts about
/// `frame_of(d)` at once.
proof fn lemma_frame_bits(d: Dcf77Data)
    ensures
        ({
            let b = frame_base(d);
            let r = frame_of(d);
            &&& r & 1 == 0
            &&& (r >> 20) & 1 == 1
            &&& r >> 59 == 0
            &&& (r >> 1) & 0x3FFF == (d.civil_warning as u64) & 0x3FFF
            &&& ((r >> 15) & 1 == 1) == d.abnormal_operation
            &&& ((r >> 16) & 1 == 1) == d.summer_announcement
            &&& ((r >> 17) & 1 == 1) == d.cest
            &&& ((r >> 18) & 1 == 1) == d.cet
            &&& ((r >> 19) & 1 == 1) == d.leap_second_announcement
            &&& (r >> 21) & 0xF == (d.minute_ones as u64) & 0xF
            &&& (r >> 25) & 0x7 == (d.minute_tens as u64) & 0x7
            &&& (r >> 29) & 0xF == (d.hour_ones as u64) & 0xF
            &&& (r >> 33) & 0x3 == (d.hour_tens as u64) & 0x3
            &&& (r >> 36) & 0xF == (d.day_of_month_ones as u64) & 0xF
            &&& (r >> 40) & 0x3 == (d.day_of_month_tens as u64) & 0x3
            &&& (r >> 42) & 0x7 == (d.day_of_week as u64) & 0x7
            &&& (r >> 45) & 0xF == (d.month_ones as u64) & 0xF
            &&& ((r >> 49) & 1 == 1) == d.month_ten
            &&& (r >> 50) & 0xF == (d.year_in_century_ones as u64) & 0xF
            &&& (r >> 54) & 0xF == (d.year_in_century_tens as u64) & 0xF
            &&& ((r >> 28) & 1 == 1) == !even_pop(minute_group(b))
            &&& ((r >> 35) & 1 == 1) == !even_pop(hour_group(b))
            &&& ((r >> 58) & 1 == 1) == !even_pop(date_group(b))
            &&& minute_group(r) == minute_group(b)
            &&& hour_group(r) == hour_group(b)
            &&& date_group(r) == date_group(b)
            &&& minute_group(b) < 128
            &&& hour_group(b) < 64
            &&& date_group(b) < 0x40_0000
            &&& (!even_pop(minute_group(b)) ==> (r >> 21) & 0xFF == minute_group(b) + 128)
            &&& (even_pop(minute_group(b)) ==> (r >> 21) & 0xFF == minute_group(b))
            &&& (!even_pop(hour_group(b)) ==> (r >> 29) & 0x7F == hour_group(b) + 64)
            &&& (even_pop(hour_group(b)) ==> (r >> 29) & 0x7F == hour_group(b))
            &&& (!even_pop(date_group(b)) ==> (r >> 36) & 0x7F_FFFF == date_group(b) + 0x40_0000)
            &&& (even_pop(date_group(b)) ==> (r >> 36) & 0x7F_FFFF == date_group(b))
        }),
{
    let b = frame_base(d);
    let r = frame_of(d);
    let cw: u64 = d.civil_warning as u64;
    let ab: u64 = if d.abnormal_operation {
        1u64 << 15
    } else {
        0u64
    };
    let sa: u64 = if d.summer_announcement {
        1u64 << 16
    } else {
        0u64
    };
    let ce: u64 = if d.cest {
        1u64 << 17
    } else {
        0u64
    };
    let ct: u64 = if d.cet {
        1u64 << 18
    } else {
        0u64
    };
    let ls: u64 = if d.leap_second_announcement {
        1u64 << 19
    } else {
        0u64
    };
    let m10: u64 = if d.month_ten {
        1u64 << 49
    } else {
        0u64
    };
    lemma_base_bits(
        cw,
        ab,
        sa,
        ce,
        ct,
        ls,
        d.minute_ones as u64,
        d.minute_tens as u64,
        d.hour_ones as u64,
        d.hour_tens as u64,
        d.day_of_month_ones as u64,
        d.day_of_month_tens as u64,
        d.day_of_week as u64,
        d.month_ones as u64,
        m10,
        d.year_in_century_ones as u64,
        d.year_in_century_tens as u64,
        b,
    );
    let pm: u64 = if even_pop(minute_group(b)) {
        0u64
    } else {
        1u64 << 28
    };
    let ph: u64 = if even_pop(hour_group(b)) {
        0u64
    } else {
        1u64 << 35
    };
    let pd: u64 = if even_pop(date_group(b)) {
        0u64
    } else {
        1u64 << 58
    };
    lemma_parity_overlay(b, pm, ph, pd, r);
}

/// The frame markers (bit 0 clear as the start of the minute, bit 20 set as
/// the start of the time) hold of every encoded stamp, and no frame ever
/// uses bit 59 or above.
pub proof fn lemma_frame_markers(d: Dcf77Data)
    ensures
        frame_of(d) & 1 == 0,
        (frame_of(d) >> 20) & 1 == 1,
        frame_of(d) >> 59 == 0,
{
    lemma_frame_bits(d);
}

/// Every encoded stamp has even population count over bits 21 through 28,
/// over bits 29 through 35, and over bits 36 through 58: each digit group
/// together with its parity bit.
pub proof fn lemma_frame_parity(d: Dcf77Data)
    ensures
        even_pop((frame_of(d) >> 21) & 0xFF),
        even_pop((frame_of(d) >> 29) & 0x7F),
        even_pop((frame_of(d) >> 36) & 0x7F_FFFF),
{
    lemma_frame_bits(d);
    let b = frame_base(d);
    let r = frame_of(d);
    assert(is_bit(128) && is_bit(64) && is_bit(0x40_0000)) by {
        reveal_with_fuel(is_bit, 24);
    }
    if !even_pop(minute_group(b)) {
        lemma_even_pop_top_bit(minute_group(b), 128);
    }
    if !even_pop(hour_group(b)) {
        lemma_even_pop_top_bit(hour_group(b), 64);
    }
    if !even_pop(date_group(b)) {
        lemma_even_pop_top_bit(date_group(b), 0x40_0000);
    }
}

/// Decoding an encoded well-formed stamp gives the stamp back: the frame
/// layout loses no field.
pub proof fn lemma_frame_round_trip(d: Dcf77Data)
    requires
        d.wf(),
    ensures
        data_of_frame(frame_of(d)) == d,
{
    lemma_frame_bits(d);
    lemma_small_masks(d.civil_warning as u64);
    lemma_small_masks(d.minute_ones as u64);
    lemma_small_masks(d.minute_tens as u64);
    lemma_small_masks(d.hour_ones as u64);
    lemma_small_masks(d.hour_tens as u64);
    lemma_small_masks(d.day_of_month_ones as u64);
    lemma_small_masks(d.day_of_month_tens as u64);
    lemma_small_masks(d.day_of_week as u64);
    lemma_small_masks(d.month_ones as u64);
    lemma_small_masks(d.year_in_century_ones as u64);
    lemma_small_masks(d.year_in_century_tens as u64);
}

/// Under `wf`, the digit fields are the canonical decimal digits of
/// `time_value`: the digits can be reconstructed from the minutes since
/// midnight, so equal times mean equal digits.
pub proof fn lemma_digits_from_time(d: Dcf77Data)
    requires
        d.wf(),
    ensures
        0 <= d.time_value() < 1440,
        d.minute_ones == d.time_value() % 10,
        d.minute_tens == (d.time_value() % 60) / 10,
        d.hour_ones == (d.time_value() / 60) % 10,
        d.hour_tens == (d.time_value() / 60) / 10,
{
    let t = d.time_value();
    let h = d.hour_value();
    let m = d.minute_value();
    lemma_fundamental_div_mod_converse(t, 60, h, m);
    lemma_fundamental_div_mod_converse(t, 10, h * 6 + d.minute_tens, d.minute_ones as int);
    lemma_fundamental_div_mod_converse(m, 10, d.minute_tens as int, d.minute_ones as int);
    lemma_fundamental_div_mod_converse(h, 10, d.hour_tens as int, d.hour_ones as int);
}

} // verus!
