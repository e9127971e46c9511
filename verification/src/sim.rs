//! Simulated hardware for bench use: a scripted bus, a recording carrier,
//! and a counting byte sink.  Each implements the corresponding port with
//! plain vectors, so a whole device can be exercised without a register
//! block behind it.

use crate::i2c_controller::{BusOp, BusStatus, ByteSink, I2cBusHardware};
use crate::pwm::CarrierControl;
use vstd::prelude::*;

verus! {

/// A scripted I2C bus: it records every operation issued, answers each
/// byte-complete wait with the next scripted status (an undisturbed one
/// once the script runs out), and yields scripted data bytes to reads.
pub struct SimBus {
    /// Every operation issued so far.
    pub issued: Vec<BusOp>,
    /// The scripted per-byte statuses.
    pub statuses: Vec<BusStatus>,
    /// How many scripted statuses were already consumed.
    pub statuses_taken: usize,
    /// The scripted data bytes for reads.
    pub feed: Vec<u8>,
    /// How many scripted data bytes were already consumed.
    pub feed_taken: usize,
}

impl SimBus {
    /// A bus that will answer with `statuses` and yield `feed`.
    pub fn new(statuses: Vec<BusStatus>, feed: Vec<u8>) -> (bus: Self)
        ensures
            bus.ops() == Seq::<BusOp>::empty(),
            bus.responses() == statuses@,
            bus.rx_data() == feed@,
    {
        let bus = SimBus { issued: Vec::new(), statuses, statuses_taken: 0, feed, feed_taken: 0 };
        proof {
            assert(bus.statuses@.skip(0) =~= bus.statuses@);
            assert(bus.feed@.skip(0) =~= bus.feed@);
        }
        bus
    }

    /// A bus whose every byte goes through undisturbed and acknowledged,
    /// with nothing to read.
    pub fn flawless() -> (bus: Self)
        ensures
            bus.ops() == Seq::<BusOp>::empty(),
            bus.responses() == Seq::<BusStatus>::empty(),
            bus.rx_data() == Seq::<u8>::empty(),
    {
        Self::new(Vec::new(), Vec::new())
    }

    /// The operations issued so far, for inspection.
    pub fn issued_ops(&self) -> (ops: &Vec<BusOp>)
        ensures
            ops@ == self.ops(),
    {
        &self.issued
    }
}

impl I2cBusHardware for SimBus {
    open spec fn ops(&self) -> Seq<BusOp> {
        self.issued@
    }

    open spec fn responses(&self) -> Seq<BusStatus> {
        if self.statuses_taken <= self.statuses@.len() {
            self.statuses@.skip(self.statuses_taken as int)
        } else {
            Seq::empty()
        }
    }

    open spec fn rx_data(&self) -> Seq<u8> {
        if self.feed_taken <= self.feed@.len() {
            self.feed@.skip(self.feed_taken as int)
        } else {
            Seq::empty()
        }
    }

    fn configure(&mut self, baud_divisor: u8) {
        self.issued.push(BusOp::Configure(baud_divisor));
    }

    fn start_transfer(&mut self, address_byte: u8) {
        self.issued.push(BusOp::Start(address_byte));
    }

    fn write_byte(&mut self, byte: u8) {
        self.issued.push(BusOp::Write(byte));
    }

    fn read_byte(&mut self) -> (byte: u8) {
        self.issued.push(BusOp::Read);
        if self.feed_taken < self.feed.len() {
            let byte = self.feed[self.feed_taken];
            self.feed_taken += 1;
            proof {
                assert(self.feed@.skip(self.feed_taken as int) =~= old(self).feed@.skip(
                    old(self).feed_taken as int,
                ).skip(1));
            }
            byte
        } else {
            0
        }
    }

    fn command_read_next(&mut self) {
        self.issued.push(BusOp::AckRead);
    }

    fn command_nack_stop(&mut self) {
        self.issued.push(BusOp::NackStop);
    }

    fn command_stop(&mut self) {
        self.issued.push(BusOp::Stop);
    }

    fn pause_nanos(&mut self, nanos: u32) {
        // simulated time passes instantly
    }

    fn wait_byte_done(&mut self) -> (status: BusStatus) {
        if self.statuses_taken < self.statuses.len() {
            let status = self.statuses[self.statuses_taken];
            self.statuses_taken += 1;
            proof {
                assert(self.statuses@.skip(self.statuses_taken as int) =~= old(
                    self,
                ).statuses@.skip(old(self).statuses_taken as int).skip(1));
            }
            status
        } else {
            BusStatus::all_clear()
        }
    }
}

/// A recording carrier: it keeps every duty-cycle and period value
/// applied, in order.
pub struct SimCarrier {
    /// Every duty-cycle value applied so far.
    pub duties: Vec<u32>,
    /// Every period value applied so far.
    pub periods: Vec<u32>,
}

impl SimCarrier {
    /// A carrier with no modulation applied yet.
    pub fn new() -> (carrier: Self)
        ensures
            carrier.duty_history() == Seq::<u32>::empty(),
            carrier.period_history() == Seq::<u32>::empty(),
    {
        SimCarrier { duties: Vec::new(), periods: Vec::new() }
    }

    /// The duty-cycle values applied so far, for inspection.
    pub fn applied(&self) -> (duties: &Vec<u32>)
        ensures
            duties@ == self.duty_history(),
    {
        &self.duties
    }

    /// The period values applied so far, for inspection.
    pub fn periods_applied(&self) -> (periods: &Vec<u32>)
        ensures
            periods@ == self.period_history(),
    {
        &self.periods
    }
}

impl CarrierControl for SimCarrier {
    open spec fn duty_history(&self) -> Seq<u32> {
        self.duties@
    }

    open spec fn period_history(&self) -> Seq<u32> {
        self.periods@
    }

    fn set_duty_cycle(&mut self, duty: u32) {
        self.duties.push(duty);
    }

    fn set_period_and_duty_cycle(&mut self, period: u32, duty: u32) {
        self.periods.push(period);
        self.duties.push(duty);
    }
}

/// A sink that collects bytes and asks for more until it holds `N` of
/// them.
pub struct CountedSink<const N: usize> {
    /// The bytes delivered so far.
    pub bytes: Vec<u8>,
}

impl<const N: usize> CountedSink<N> {
    /// An empty sink.
    pub fn new() -> (sink: Self)
        ensures
            sink.received() == Seq::<u8>::empty(),
    {
        CountedSink { bytes: Vec::new() }
    }

    /// The bytes delivered so far, for inspection.
    pub fn collected(&self) -> (bytes: &Vec<u8>)
        ensures
            bytes@ == self.received(),
    {
        &self.bytes
    }
}

impl<const N: usize> ByteSink for CountedSink<N> {
    open spec fn received(&self) -> Seq<u8> {
        self.bytes@
    }

    open spec fn wants_more(bytes: Seq<u8>) -> bool {
        bytes.len() < N
    }

    fn accept(&mut self, byte: u8) -> (more: bool) {
        self.bytes.push(byte);
        self.bytes.len() < N
    }
}

} // verus!
