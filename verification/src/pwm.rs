//! The carrier port: a continuously running square-wave generator whose
//! duty cycle can be changed at runtime.
//!
//! The generator itself is hardware (a timer producing the 77.5 kHz
//! carrier); the scheduler only ever changes its duty cycle, so the port is
//! a single operation.  An implementation must block until the new value is
//! in effect for the next cycle: no queuing, no partial application.

use crate::dcf77::FREQUENCY_HZ;
use vstd::prelude::*;

verus! {

/// The speed of the core clock that feeds the carrier timer, in Hertz,
/// chosen to be readily divisible by the DCF77 carrier frequency.
pub const CORE_CLOCK_SPEED_HZ: u32 = 31_000_000;

/// Core clock cycles per carrier cycle: the period value of the timer.
pub const CARRIER_PERIOD: u32 = CORE_CLOCK_SPEED_HZ / FREQUENCY_HZ;

/// The high-duty preset: a full-amplitude second, an encoded one.
pub const FULL_DUTY: u32 = CARRIER_PERIOD / 2;

/// The low-duty preset: an attenuated second, an encoded zero, sized to
/// approximate the amplitude-reduction ratio of the DCF77 broadcast.
pub const REDUCED_DUTY: u32 = CARRIER_PERIOD / 44;

/// A carrier generator the scheduler can modulate.  The model an
/// implementation maintains is the sequence of duty-cycle values and the
/// sequence of period values applied, each in order; a zero duty silences
/// the carrier.
pub trait CarrierControl: Sized {
    /// Every duty-cycle value applied so far, in order.
    spec fn duty_history(&self) -> Seq<u32>;

    /// Every period value applied so far, in order.
    spec fn period_history(&self) -> Seq<u32>;

    /// Applies a new duty cycle, blocking until the hardware confirms it
    /// is in effect for the next carrier cycle.
    fn set_duty_cycle(&mut self, duty: u32)
        ensures
            final(self).duty_history() == old(self).duty_history().push(duty),
            final(self).period_history() == old(self).period_history(),
    ;

    /// Applies a new period and duty cycle together, blocking until the
    /// hardware confirms both are in effect for the next carrier cycle.
    fn set_period_and_duty_cycle(&mut self, period: u32, duty: u32)
        ensures
            final(self).duty_history() == old(self).duty_history().push(duty),
            final(self).period_history() == old(self).period_history().push(period),
    ;
}

} // verus!
