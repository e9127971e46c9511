//! A two-wire (I2C) bus controller: byte-oriented send and receive over an
//! injected hardware port, with a typed error for every handshake fault.
//!
//! The port trait below is the seam between the protocol logic and a
//! concrete register block: it records which bus operations were issued and
//! yields one hardware status per completed byte.  The driver decides from
//! each status whether the transfer goes on, and tags every fault with the
//! phase that was active when it was detected.

use vstd::prelude::*;
use vstd::seq_lib::lemma_concat_associative;

verus! {

/// The target bus speed in bits per second.
pub const I2C_SPEED_HZ: u32 = 100_000;

/// The worst-case bus rise time in nanoseconds that the clock divisor
/// accounts for.
pub const RISE_TIME_NS: u32 = 13;

/// The type of error that may occur during an I2C operation.
#[derive(Clone, Copy, Debug, Eq, Hash, PartialEq, Structural)]
pub enum I2cErrorKind {
    /// The controller has been preempted by another device becoming
    /// controller.
    ArbitrationLost,
    /// An error happened on the bus itself.
    BusError,
    /// A byte was not acknowledged by the other device.
    NotAcknowledged,
    /// The given address is not a valid 7-bit address.
    InvalidAddress,
}

/// The byte of an I2C transmission at which an error was detected.
#[derive(Clone, Copy, Debug, Eq, Hash, PartialEq, Structural)]
pub enum I2cErrorByteInfo {
    /// The address byte (without the read/write flag).
    Address(u8),
    /// The data byte at the given index.
    Data { index: usize, byte: u8 },
    /// The stop condition at the end of the transmission.
    StopBit,
}

/// An error that may occur during an I2C operation: what went wrong, and
/// during which byte of the transfer.
#[derive(Clone, Copy, Debug, Eq, Hash, PartialEq, Structural)]
pub struct I2cError {
    /// The kind of error that occurred.
    pub kind: I2cErrorKind,
    /// The byte being transferred when the error occurred.
    pub byte_info: I2cErrorByteInfo,
}

impl I2cErrorKind {
    /// Pairs this kind with the location of the fault.
    pub fn to_error(&self, byte_info: I2cErrorByteInfo) -> (e: I2cError)
        ensures
            e == (I2cError { kind: *self, byte_info }),
    {
        I2cError { kind: *self, byte_info }
    }

    /// An error of this kind detected during the address byte.
    pub fn at_address(&self, address: u8) -> (e: I2cError)
        ensures
            e == (I2cError { kind: *self, byte_info: I2cErrorByteInfo::Address(address) }),
    {
        self.to_error(I2cErrorByteInfo::Address(address))
    }

    /// An error of this kind detected during the data byte at `index`.
    pub fn at_data_index(&self, data: u8, index: usize) -> (e: I2cError)
        ensures
            e == (I2cError {
                kind: *self,
                byte_info: I2cErrorByteInfo::Data { index, byte: data },
            }),
    {
        self.to_error(I2cErrorByteInfo::Data { index, byte: data })
    }

    /// An error of this kind detected during the stop condition.
    pub fn at_stop_bit(&self) -> (e: I2cError)
        ensures
            e == (I2cError { kind: *self, byte_info: I2cErrorByteInfo::StopBit }),
    {
        self.to_error(I2cErrorByteInfo::StopBit)
    }
}

impl I2cErrorByteInfo {
    /// Whether the byte position is the address.
    pub fn is_address(&self) -> (b: bool)
        ensures
            b == (self is Address),
    {
        match self {
            Self::Address(_) => true,
            _ => false,
        }
    }
}

/// The hardware status observed after one byte of a transfer completed.
#[derive(Clone, Copy, Debug, Eq, PartialEq, Structural)]
pub struct BusStatus {
    /// A fault was seen on the bus.
    pub bus_error: bool,
    /// Another controller won the bus.
    pub arbitration_lost: bool,
    /// The other device acknowledged the byte.
    pub acknowledged: bool,
}

impl BusStatus {
    /// The status of an undisturbed, acknowledged byte.
    pub open spec fn spec_all_clear() -> Self {
        BusStatus { bus_error: false, arbitration_lost: false, acknowledged: true }
    }

    /// The status of an undisturbed, acknowledged byte.
    pub fn all_clear() -> (s: Self)
        ensures
            s == Self::spec_all_clear(),
    {
        BusStatus { bus_error: false, arbitration_lost: false, acknowledged: true }
    }
}

/// One operation issued to the bus hardware.
#[derive(Clone, Copy, Debug, Eq, PartialEq, Structural)]
pub enum BusOp {
    /// The one-time controller setup, programming the given clock divisor
    /// into the baud register and taking ownership of the bus.
    Configure(u8),
    /// An address-and-direction byte written to the address register,
    /// starting a transfer.
    Start(u8),
    /// A data byte written to the data register.
    Write(u8),
    /// A data byte read from the data register.
    Read,
    /// The acknowledge-and-read-another-byte command.
    AckRead,
    /// The do-not-acknowledge-and-stop command.
    NackStop,
    /// The stop command.
    Stop,
}

/// The status the hardware reports next: the head of the pending statuses,
/// or an undisturbed one once the recorded statuses run out.
pub open spec fn next_status(resp: Seq<BusStatus>) -> BusStatus {
    if resp.len() > 0 {
        resp[0]
    } else {
        BusStatus::spec_all_clear()
    }
}

/// The sequence with its head consumed, if it has one.
pub open spec fn after_head<A>(s: Seq<A>) -> Seq<A> {
    if s.len() > 0 {
        s.skip(1)
    } else {
        s
    }
}

/// A hardware block able to act as an I2C controller: the register-level
/// seam the protocol logic drives.  An implementation owns the register
/// writes, the synchronization waits and the clearing of sticky status
/// flags; the model it must maintain is the sequence of operations issued
/// (`ops`), the statuses still to be observed (`responses`), and the data
/// bytes the bus will yield (`rx_data`).
pub trait I2cBusHardware: Sized {
    /// Every bus operation issued so far, in order.
    spec fn ops(&self) -> Seq<BusOp>;

    /// The per-byte statuses the hardware has yet to report.
    spec fn responses(&self) -> Seq<BusStatus>;

    /// The data bytes the bus has yet to yield to reads.
    spec fn rx_data(&self) -> Seq<u8>;

    /// Performs the one-time controller setup: resets the block, programs
    /// bus timing from the given clock divisor, enables the controller
    /// and forces bus ownership.
    fn configure(&mut self, baud_divisor: u8)
        ensures
            final(self).ops() == old(self).ops().push(BusOp::Configure(baud_divisor)),
            final(self).responses() == old(self).responses(),
            final(self).rx_data() == old(self).rx_data(),
    ;

    /// Writes an address-and-direction byte to the address register,
    /// starting a transfer.
    fn start_transfer(&mut self, address_byte: u8)
        ensures
            final(self).ops() == old(self).ops().push(BusOp::Start(address_byte)),
            final(self).responses() == old(self).responses(),
            final(self).rx_data() == old(self).rx_data(),
    ;

    /// Writes one data byte to the data register.
    fn write_byte(&mut self, byte: u8)
        ensures
            final(self).ops() == old(self).ops().push(BusOp::Write(byte)),
            final(self).responses() == old(self).responses(),
            final(self).rx_data() == old(self).rx_data(),
    ;

    /// Reads one data byte from the data register; zero once the recorded
    /// bytes run out.
    fn read_byte(&mut self) -> (byte: u8)
        ensures
            final(self).ops() == old(self).ops().push(BusOp::Read),
            final(self).responses() == old(self).responses(),
            byte == (if old(self).rx_data().len() > 0 {
                old(self).rx_data()[0]
            } else {
                0u8
            }),
            final(self).rx_data() == after_head(old(self).rx_data()),
    ;

    /// Commands an acknowledge followed by the read of another byte.
    fn command_read_next(&mut self)
        ensures
            final(self).ops() == old(self).ops().push(BusOp::AckRead),
            final(self).responses() == old(self).responses(),
            final(self).rx_data() == old(self).rx_data(),
    ;

    /// Commands a do-not-acknowledge followed by a stop condition.
    fn command_nack_stop(&mut self)
        ensures
            final(self).ops() == old(self).ops().push(BusOp::NackStop),
            final(self).responses() == old(self).responses(),
            final(self).rx_data() == old(self).rx_data(),
    ;

    /// Commands a stop condition.
    fn command_stop(&mut self)
        ensures
            final(self).ops() == old(self).ops().push(BusOp::Stop),
            final(self).responses() == old(self).responses(),
            final(self).rx_data() == old(self).rx_data(),
    ;

    /// Waits until the current byte is complete, then reads and clears the
    /// status flags for it.
    fn wait_byte_done(&mut self) -> (status: BusStatus)
        ensures
            final(self).ops() == old(self).ops(),
            status == next_status(old(self).responses()),
            final(self).responses() == after_head(old(self).responses()),
            final(self).rx_data() == old(self).rx_data(),
    ;

    /// Waits at least the given number of nanoseconds, leaving the bus
    /// alone: devices behind the bus need settling time between transfers.
    fn pause_nanos(&mut self, nanos: u32)
        ensures
            final(self).ops() == old(self).ops(),
            final(self).responses() == old(self).responses(),
            final(self).rx_data() == old(self).rx_data(),
    ;
}

/// What one observed status means for the transfer: a bus fault outranks a
/// lost arbitration, which outranks a missing acknowledgement; an
/// undisturbed, acknowledged byte lets the transfer go on.
pub open spec fn status_outcome(status: BusStatus, byte_info: I2cErrorByteInfo) -> Result<
    (),
    I2cError,
> {
    if status.bus_error {
        Err(I2cError { kind: I2cErrorKind::BusError, byte_info })
    } else if status.arbitration_lost {
        Err(I2cError { kind: I2cErrorKind::ArbitrationLost, byte_info })
    } else if !status.acknowledged {
        Err(I2cError { kind: I2cErrorKind::NotAcknowledged, byte_info })
    } else {
        Ok(())
    }
}

/// Waits for the next byte to complete and turns its status into the
/// transfer outcome, tagged with the given byte position.
pub fn check_transfer_status<B: I2cBusHardware>(bus: &mut B, byte_info: I2cErrorByteInfo) -> (r:
    Result<(), I2cError>)
    ensures
        final(bus).ops() == old(bus).ops(),
        final(bus).responses() == after_head(old(bus).responses()),
        final(bus).rx_data() == old(bus).rx_data(),
        r == status_outcome(next_status(old(bus).responses()), byte_info),
{
    let status = bus.wait_byte_done();
    if status.bus_error {
        return Err(I2cErrorKind::BusError.to_error(byte_info));
    }
    if status.arbitration_lost {
        return Err(I2cErrorKind::ArbitrationLost.to_error(byte_info));
    }
    if !status.acknowledged {
        return Err(I2cErrorKind::NotAcknowledged.to_error(byte_info));
    }
    Ok(())
}

/// The stop attempt a faulted phase makes before the transfer reports its
/// error: the controller still tries to release the bus, unless
/// arbitration was lost -- it then no longer owns the bus, and a bus
/// fault outranks a lost arbitration.  Meaningful only for a faulted
/// status.
pub open spec fn stop_attempt(status: BusStatus) -> Seq<BusOp> {
    if status.bus_error {
        seq![BusOp::Stop]
    } else if status.arbitration_lost {
        Seq::empty()
    } else {
        seq![BusOp::Stop]
    }
}

/// The outcome of the data and stop phases of a send, starting at data
/// byte `i` with the statuses `resp` still pending: the first fault with
/// its location, or success once every byte and the stop went through.
pub open spec fn send_data_outcome(data: Seq<u8>, resp: Seq<BusStatus>, i: int) -> Result<
    (),
    I2cError,
>
    decreases data.len() - i,
{
    if i < 0 || i >= data.len() {
        status_outcome(next_status(resp), I2cErrorByteInfo::StopBit)
    } else {
        let here = status_outcome(
            next_status(resp),
            I2cErrorByteInfo::Data { index: i as usize, byte: data[i] },
        );
        if here is Err {
            here
        } else {
            send_data_outcome(data, after_head(resp), i + 1)
        }
    }
}

/// The bus operations the data and stop phases of a send issue, starting
/// at data byte `i`: one write per byte until the first fault, the stop
/// command once every byte was acknowledged, and the failure path's own
/// stop attempt after any fault.
pub open spec fn send_data_ops(data: Seq<u8>, resp: Seq<BusStatus>, i: int) -> Seq<BusOp>
    decreases data.len() - i,
{
    if i < 0 || i >= data.len() {
        if status_faulted(next_status(resp)) {
            seq![BusOp::Stop] + stop_attempt(next_status(resp))
        } else {
            seq![BusOp::Stop]
        }
    } else {
        let here = status_outcome(
            next_status(resp),
            I2cErrorByteInfo::Data { index: i as usize, byte: data[i] },
        );
        if here is Err {
            seq![BusOp::Write(data[i])] + stop_attempt(next_status(resp))
        } else {
            seq![BusOp::Write(data[i])] + send_data_ops(data, after_head(resp), i + 1)
        }
    }
}

/// The statuses still pending after the data and stop phases of a send,
/// starting at data byte `i`.
pub open spec fn send_data_remaining(data: Seq<u8>, resp: Seq<BusStatus>, i: int) -> Seq<BusStatus>
    decreases data.len() - i,
{
    if i < 0 || i >= data.len() {
        after_head(resp)
    } else {
        let here = status_outcome(
            next_status(resp),
            I2cErrorByteInfo::Data { index: i as usize, byte: data[i] },
        );
        if here is Err {
            after_head(resp)
        } else {
            send_data_remaining(data, after_head(resp), i + 1)
        }
    }
}

/// The outcome of sending `data` to `address` while the hardware reports
/// the statuses `resp`: an invalid address is refused outright; otherwise
/// the first faulted phase decides, and success needs every byte and the
/// stop acknowledged.
pub open spec fn send_outcome(address: u8, data: Seq<u8>, resp: Seq<BusStatus>) -> Result<
    (),
    I2cError,
> {
    if address >= 0x80 {
        Err(I2cError { kind: I2cErrorKind::InvalidAddress, byte_info: I2cErrorByteInfo::Address(address) })
    } else {
        let first = status_outcome(next_status(resp), I2cErrorByteInfo::Address(address));
        if first is Err {
            first
        } else {
            send_data_outcome(data, after_head(resp), 0)
        }
    }
}

/// The bus operations a send issues: none for an invalid address; the
/// start with its failure stop attempt when the address byte faults; and
/// otherwise the start followed by the data and stop phases.
pub open spec fn send_ops(address: u8, data: Seq<u8>, resp: Seq<BusStatus>) -> Seq<BusOp> {
    if address >= 0x80 {
        Seq::empty()
    } else {
        let start = seq![BusOp::Start((address << 1) as u8)];
        let first = status_outcome(next_status(resp), I2cErrorByteInfo::Address(address));
        if first is Err {
            start + stop_attempt(next_status(resp))
        } else {
            start + send_data_ops(data, after_head(resp), 0)
        }
    }
}

/// The statuses still pending after a send.
pub open spec fn send_remaining(address: u8, data: Seq<u8>, resp: Seq<BusStatus>) -> Seq<
    BusStatus,
> {
    if address >= 0x80 {
        resp
    } else {
        let first = status_outcome(next_status(resp), I2cErrorByteInfo::Address(address));
        if first is Err {
            after_head(resp)
        } else {
            send_data_remaining(data, after_head(resp), 0)
        }
    }
}

/// Pushing one element is the same as appending the one-element sequence.
proof fn lemma_push_is_add_one<A>(s: Seq<A>, x: A)
    ensures
        s.push(x) == s + seq![x],
{
    assert(s.push(x) =~= s + seq![x]);
}

/// Sends `data` to the peripheral at `address` (write direction): refuses
/// an address of more than 7 bits without touching the bus, then drives
/// the address byte, each data byte in order and the stop condition,
/// returning at the first fault with the phase that faulted.  A failed
/// phase still attempts a stop to release the bus, unless arbitration was
/// lost.
#[verifier::loop_isolation(false)]
pub fn send<B: I2cBusHardware>(bus: &mut B, address: u8, data: &Vec<u8>) -> (r: Result<
    (),
    I2cError,
>)
    ensures
        r == send_outcome(address, data@, old(bus).responses()),
        final(bus).ops() == old(bus).ops() + send_ops(address, data@, old(bus).responses()),
        final(bus).responses() == send_remaining(address, data@, old(bus).responses()),
        final(bus).rx_data() == old(bus).rx_data(),
{
    if address >= 0x80 {
        proof {
            assert(old(bus).ops() + send_ops(address, data@, old(bus).responses()) =~= old(
                bus,
            ).ops());
        }
        return Err(I2cErrorKind::InvalidAddress.at_address(address));
    }
    let ghost resp0: Seq<BusStatus> = bus.responses();

    // address phase, write direction
    let address_and_write: u8 = address << 1;
    bus.start_transfer(address_and_write);
    proof {
        lemma_push_is_add_one(old(bus).ops(), BusOp::Start(address_and_write));
    }
    match check_transfer_status(bus, I2cErrorByteInfo::Address(address)) {
        Err(e) => {
            let ghost ops_a: Seq<BusOp> = bus.ops();
            if e.kind != I2cErrorKind::ArbitrationLost {
                // the failed transfer still tries to release the bus
                bus.command_stop();
                proof {
                    lemma_push_is_add_one(ops_a, BusOp::Stop);
                    assert(stop_attempt(next_status(resp0)) == seq![BusOp::Stop]);
                }
            } else {
                proof {
                    assert(stop_attempt(next_status(resp0)) =~= Seq::<BusOp>::empty());
                    assert(ops_a + Seq::<BusOp>::empty() =~= ops_a);
                }
            }
            proof {
                lemma_concat_associative(
                    old(bus).ops(),
                    seq![BusOp::Start(address_and_write)],
                    stop_attempt(next_status(resp0)),
                );
            }
            return Err(e);
        },
        Ok(()) => {},
    }
    let ghost ops1: Seq<BusOp> = bus.ops();
    let ghost resp1: Seq<BusStatus> = bus.responses();

    // data phase, one byte at a time
    let mut i: usize = 0;
    while i < data.len()
        invariant
            i <= data.len(),
            bus.rx_data() == old(bus).rx_data(),
            send_data_outcome(data@, resp1, 0) == send_data_outcome(
                data@,
                bus.responses(),
                i as int,
            ),
            ops1 + send_data_ops(data@, resp1, 0) == bus.ops() + send_data_ops(
                data@,
                bus.responses(),
                i as int,
            ),
            send_data_remaining(data@, resp1, 0) == send_data_remaining(
                data@,
                bus.responses(),
                i as int,
            ),
        decreases data.len() - i,
    {
        let ghost ops_here: Seq<BusOp> = bus.ops();
        let ghost resp_here: Seq<BusStatus> = bus.responses();
        let byte = data[i];
        bus.write_byte(byte);
        proof {
            lemma_push_is_add_one(ops_here, BusOp::Write(byte));
        }
        match check_transfer_status(bus, I2cErrorByteInfo::Data { index: i, byte }) {
            Err(e) => {
                let ghost ops_w: Seq<BusOp> = bus.ops();
                if e.kind != I2cErrorKind::ArbitrationLost {
                    // the failed transfer still tries to release the bus
                    bus.command_stop();
                    proof {
                        lemma_push_is_add_one(ops_w, BusOp::Stop);
                        assert(stop_attempt(next_status(resp_here)) == seq![BusOp::Stop]);
                        lemma_concat_associative(
                            ops_here,
                            seq![BusOp::Write(byte)],
                            seq![BusOp::Stop],
                        );
                    }
                } else {
                    proof {
                        assert(stop_attempt(next_status(resp_here)) =~= Seq::<BusOp>::empty());
                        assert(seq![BusOp::Write(byte)] + Seq::<BusOp>::empty() =~= seq![
                            BusOp::Write(byte),
                        ]);
                    }
                }
                proof {
                    // the faulted byte ends the data phase after its write
                    // and the failure path's stop attempt
                    assert(send_data_ops(data@, resp_here, i as int) == seq![BusOp::Write(byte)]
                        + stop_attempt(next_status(resp_here)));
                    assert(bus.ops() == ops_here + send_data_ops(data@, resp_here, i as int));
                    lemma_concat_associative(
                        old(bus).ops(),
                        seq![BusOp::Start(address_and_write)],
                        send_data_ops(data@, resp1, 0),
                    );
                }
                return Err(e);
            },
            Ok(()) => {},
        }
        proof {
            assert(send_data_ops(data@, resp_here, i as int) == seq![BusOp::Write(byte)]
                + send_data_ops(data@, bus.responses(), i as int + 1));
            lemma_concat_associative(
                ops_here,
                seq![BusOp::Write(byte)],
                send_data_ops(data@, bus.responses(), i as int + 1),
            );
        }
        i += 1;
    }

    // stop condition
    let ghost ops_end: Seq<BusOp> = bus.ops();
    let ghost resp_end: Seq<BusStatus> = bus.responses();
    bus.command_stop();
    proof {
        lemma_push_is_add_one(ops_end, BusOp::Stop);
    }
    match check_transfer_status(bus, I2cErrorByteInfo::StopBit) {
        Err(e) => {
            let ghost ops_s: Seq<BusOp> = bus.ops();
            if e.kind != I2cErrorKind::ArbitrationLost {
                // the failed transfer still tries to release the bus
                bus.command_stop();
                proof {
                    lemma_push_is_add_one(ops_s, BusOp::Stop);
                    assert(stop_attempt(next_status(resp_end)) == seq![BusOp::Stop]);
                    lemma_concat_associative(ops_end, seq![BusOp::Stop], seq![BusOp::Stop]);
                }
            } else {
                proof {
                    assert(stop_attempt(next_status(resp_end)) =~= Seq::<BusOp>::empty());
                    assert(seq![BusOp::Stop] + Seq::<BusOp>::empty() =~= seq![BusOp::Stop]);
                }
            }
            proof {
                assert(send_data_ops(data@, resp_end, data@.len() as int) == seq![BusOp::Stop]
                    + stop_attempt(next_status(resp_end)));
                assert(bus.ops() == ops_end + send_data_ops(data@, resp_end, data@.len() as int));
                lemma_concat_associative(
                    old(bus).ops(),
                    seq![BusOp::Start(address_and_write)],
                    send_data_ops(data@, resp1, 0),
                );
            }
            Err(e)
        },
        Ok(()) => {
            proof {
                assert(send_data_ops(data@, resp_end, data@.len() as int) == seq![BusOp::Stop]);
                lemma_concat_associative(
                    old(bus).ops(),
                    seq![BusOp::Start(address_and_write)],
                    send_data_ops(data@, resp1, 0),
                );
            }
            Ok(())
        },
    }
}

/// A consumer of received bytes that also decides, after each byte,
/// whether another one should be requested.  The decision is a function of
/// the bytes seen so far, so that a whole reception is determined by the
/// data on the bus.
pub trait ByteSink: Sized {
    /// The bytes delivered to the sink so far, in order.
    spec fn received(&self) -> Seq<u8>;

    /// Whether, having seen exactly `bytes`, the sink asks for another
    /// byte.
    spec fn wants_more(bytes: Seq<u8>) -> bool;

    /// Hands the sink one received byte; the sink answers whether the
    /// transfer should go on.
    fn accept(&mut self, byte: u8) -> (more: bool)
        ensures
            final(self).received() == old(self).received().push(byte),
            more == Self::wants_more(final(self).received()),
    ;
}

/// Whether a status ends the transfer.
pub open spec fn status_faulted(status: BusStatus) -> bool {
    status.bus_error || status.arbitration_lost || !status.acknowledged
}

/// Whether a sink that has seen `got` declines a further byte somewhere
/// within the feed `rx`: the bound that keeps a reception finite.
pub open spec fn sink_stops_within<S: ByteSink>(got: Seq<u8>, rx: Seq<u8>) -> bool
    decreases rx.len(),
{
    if rx.len() == 0 {
        false
    } else if !S::wants_more(got.push(rx[0])) {
        true
    } else {
        sink_stops_within::<S>(got.push(rx[0]), rx.skip(1))
    }
}

/// The outcome of the data and stop phases of a reception, for a sink
/// that has seen `got`, with the feed `rx` and the statuses `resp`
/// pending, counting data bytes from `i`.
pub open spec fn recv_data_outcome<S: ByteSink>(
    got: Seq<u8>,
    rx: Seq<u8>,
    resp: Seq<BusStatus>,
    i: int,
) -> Result<(), I2cError>
    decreases rx.len(),
{
    let byte = if rx.len() > 0 {
        rx[0]
    } else {
        0u8
    };
    if status_faulted(next_status(resp)) {
        status_outcome(next_status(resp), I2cErrorByteInfo::Data { index: i as usize, byte })
    } else if !S::wants_more(got.push(byte)) || rx.len() == 0 {
        status_outcome(next_status(after_head(resp)), I2cErrorByteInfo::StopBit)
    } else {
        recv_data_outcome::<S>(got.push(byte), rx.skip(1), after_head(resp), i + 1)
    }
}

/// The bus operations the data and stop phases of a reception issue: a
/// read per byte, an acknowledge-read between accepted bytes, the closing
/// do-not-acknowledge-stop once the sink declines, and the failure path's
/// own stop attempt after any fault.
pub open spec fn recv_data_ops<S: ByteSink>(got: Seq<u8>, rx: Seq<u8>, resp: Seq<BusStatus>) -> Seq<
    BusOp,
>
    decreases rx.len(),
{
    let byte = if rx.len() > 0 {
        rx[0]
    } else {
        0u8
    };
    if status_faulted(next_status(resp)) {
        seq![BusOp::Read] + stop_attempt(next_status(resp))
    } else if !S::wants_more(got.push(byte)) || rx.len() == 0 {
        let stop_status = next_status(after_head(resp));
        if status_faulted(stop_status) {
            seq![BusOp::Read, BusOp::NackStop] + stop_attempt(stop_status)
        } else {
            seq![BusOp::Read, BusOp::NackStop]
        }
    } else {
        seq![BusOp::Read, BusOp::AckRead] + recv_data_ops::<S>(
            got.push(byte),
            rx.skip(1),
            after_head(resp),
        )
    }
}

/// The statuses still pending after the data and stop phases of a
/// reception.
pub open spec fn recv_data_remaining<S: ByteSink>(
    got: Seq<u8>,
    rx: Seq<u8>,
    resp: Seq<BusStatus>,
) -> Seq<BusStatus>
    decreases rx.len(),
{
    let byte = if rx.len() > 0 {
        rx[0]
    } else {
        0u8
    };
    if status_faulted(next_status(resp)) {
        after_head(resp)
    } else if !S::wants_more(got.push(byte)) || rx.len() == 0 {
        after_head(after_head(resp))
    } else {
        recv_data_remaining::<S>(got.push(byte), rx.skip(1), after_head(resp))
    }
}

/// The part of the feed the bus has not yielded after the data phase of a
/// reception.
pub open spec fn recv_data_rx_left<S: ByteSink>(
    got: Seq<u8>,
    rx: Seq<u8>,
    resp: Seq<BusStatus>,
) -> Seq<u8>
    decreases rx.len(),
{
    let byte = if rx.len() > 0 {
        rx[0]
    } else {
        0u8
    };
    if status_faulted(next_status(resp)) {
        after_head(rx)
    } else if !S::wants_more(got.push(byte)) || rx.len() == 0 {
        after_head(rx)
    } else {
        recv_data_rx_left::<S>(got.push(byte), rx.skip(1), after_head(resp))
    }
}

/// The bytes the data phase of a reception delivers to the sink: every
/// byte whose status was clean, in bus order.
pub open spec fn recv_data_delivered<S: ByteSink>(
    got: Seq<u8>,
    rx: Seq<u8>,
    resp: Seq<BusStatus>,
) -> Seq<u8>
    decreases rx.len(),
{
    let byte = if rx.len() > 0 {
        rx[0]
    } else {
        0u8
    };
    if status_faulted(next_status(resp)) {
        Seq::empty()
    } else if !S::wants_more(got.push(byte)) || rx.len() == 0 {
        seq![byte]
    } else {
        seq![byte] + recv_data_delivered::<S>(got.push(byte), rx.skip(1), after_head(resp))
    }
}

/// The outcome of receiving from `address` into a sink that has seen
/// `got`, while the bus yields `rx` and the hardware reports `resp`.
pub open spec fn recv_outcome<S: ByteSink>(
    address: u8,
    got: Seq<u8>,
    rx: Seq<u8>,
    resp: Seq<BusStatus>,
) -> Result<(), I2cError> {
    if address >= 0x80 {
        Err(I2cError { kind: I2cErrorKind::InvalidAddress, byte_info: I2cErrorByteInfo::Address(address) })
    } else {
        let first = status_outcome(next_status(resp), I2cErrorByteInfo::Address(address));
        if first is Err {
            first
        } else {
            recv_data_outcome::<S>(got, rx, after_head(resp), 0)
        }
    }
}

/// The bus operations a reception issues.
pub open spec fn recv_ops<S: ByteSink>(
    address: u8,
    got: Seq<u8>,
    rx: Seq<u8>,
    resp: Seq<BusStatus>,
) -> Seq<BusOp> {
    if address >= 0x80 {
        Seq::empty()
    } else {
        let start = seq![BusOp::Start(((address << 1) | 1) as u8)];
        let first = status_outcome(next_status(resp), I2cErrorByteInfo::Address(address));
        if first is Err {
            start + stop_attempt(next_status(resp))
        } else {
            start + recv_data_ops::<S>(got, rx, after_head(resp))
        }
    }
}

/// The statuses still pending after a reception.
pub open spec fn recv_remaining<S: ByteSink>(
    address: u8,
    got: Seq<u8>,
    rx: Seq<u8>,
    resp: Seq<BusStatus>,
) -> Seq<BusStatus> {
    if address >= 0x80 {
        resp
    } else {
        let first = status_outcome(next_status(resp), I2cErrorByteInfo::Address(address));
        if first is Err {
            after_head(resp)
        } else {
            recv_data_remaining::<S>(got, rx, after_head(resp))
        }
    }
}

/// The part of the feed the bus has not yielded after a reception.
pub open spec fn recv_rx_left<S: ByteSink>(
    address: u8,
    got: Seq<u8>,
    rx: Seq<u8>,
    resp: Seq<BusStatus>,
) -> Seq<u8> {
    if address >= 0x80 {
        rx
    } else {
        let first = status_outcome(next_status(resp), I2cErrorByteInfo::Address(address));
        if first is Err {
            rx
        } else {
            recv_data_rx_left::<S>(got, rx, after_head(resp))
        }
    }
}

/// The bytes a reception delivers to the sink.
pub open spec fn recv_delivered<S: ByteSink>(
    address: u8,
    got: Seq<u8>,
    rx: Seq<u8>,
    resp: Seq<BusStatus>,
) -> Seq<u8> {
    if address >= 0x80 {
        Seq::empty()
    } else {
        let first = status_outcome(next_status(resp), I2cErrorByteInfo::Address(address));
        if first is Err {
            Seq::empty()
        } else {
            recv_data_delivered::<S>(got, rx, after_head(resp))
        }
    }
}

/// Receives bytes from the peripheral at `address` (read direction) into
/// `sink`: after each cleanly received byte the sink decides whether to
/// acknowledge and read on; declining sends the do-not-acknowledge and
/// the stop condition.  Every fault is returned with the phase it hit,
/// after a stop attempt to release the bus unless arbitration was lost.
/// The sink must decline somewhere within the data the bus will yield,
/// which keeps the reception finite.
#[verifier::loop_isolation(false)]
pub fn receive<B: I2cBusHardware, S: ByteSink>(bus: &mut B, address: u8, sink: &mut S) -> (r:
    Result<(), I2cError>)
    requires
        address < 0x80 ==> sink_stops_within::<S>(old(sink).received(), old(bus).rx_data()),
        old(bus).rx_data().len() <= usize::MAX,
    ensures
        r == recv_outcome::<S>(
            address,
            old(sink).received(),
            old(bus).rx_data(),
            old(bus).responses(),
        ),
        final(bus).ops() == old(bus).ops() + recv_ops::<S>(
            address,
            old(sink).received(),
            old(bus).rx_data(),
            old(bus).responses(),
        ),
        final(bus).responses() == recv_remaining::<S>(
            address,
            old(sink).received(),
            old(bus).rx_data(),
            old(bus).responses(),
        ),
        final(bus).rx_data() == recv_rx_left::<S>(
            address,
            old(sink).received(),
            old(bus).rx_data(),
            old(bus).responses(),
        ),
        final(sink).received() == old(sink).received() + recv_delivered::<S>(
            address,
            old(sink).received(),
            old(bus).rx_data(),
            old(bus).responses(),
        ),
{
    let ghost got0: Seq<u8> = sink.received();
    let ghost rx0: Seq<u8> = bus.rx_data();
    let ghost resp0: Seq<BusStatus> = bus.responses();
    if address >= 0x80 {
        proof {
            assert(old(bus).ops() + recv_ops::<S>(address, got0, rx0, resp0) =~= old(bus).ops());
            assert(got0 + recv_delivered::<S>(address, got0, rx0, resp0) =~= got0);
        }
        return Err(I2cErrorKind::InvalidAddress.at_address(address));
    }

    // address phase, read direction
    let address_and_read: u8 = (address << 1) | 1;
    bus.start_transfer(address_and_read);
    proof {
        lemma_push_is_add_one(old(bus).ops(), BusOp::Start(address_and_read));
    }
    match check_transfer_status(bus, I2cErrorByteInfo::Address(address)) {
        Err(e) => {
            let ghost ops_a: Seq<BusOp> = bus.ops();
            if e.kind != I2cErrorKind::ArbitrationLost {
                // the failed transfer still tries to release the bus
                bus.command_stop();
                proof {
                    lemma_push_is_add_one(ops_a, BusOp::Stop);
                    assert(stop_attempt(next_status(resp0)) == seq![BusOp::Stop]);
                }
            } else {
                proof {
                    assert(stop_attempt(next_status(resp0)) =~= Seq::<BusOp>::empty());
                    assert(ops_a + Seq::<BusOp>::empty() =~= ops_a);
                }
            }
            proof {
                lemma_concat_associative(
                    old(bus).ops(),
                    seq![BusOp::Start(address_and_read)],
                    stop_attempt(next_status(resp0)),
                );
                assert(got0 + recv_delivered::<S>(address, got0, rx0, resp0) =~= got0);
            }
            return Err(e);
        },
        Ok(()) => {},
    }
    let ghost ops1: Seq<BusOp> = bus.ops();
    let ghost resp1: Seq<BusStatus> = bus.responses();

    // data phase: read, check, deliver, and either acknowledge for more or
    // close the transfer
    let mut index: usize = 0;
    let mut more: bool = true;
    while more
        invariant
            more ==> sink_stops_within::<S>(sink.received(), bus.rx_data()),
            more ==> recv_data_outcome::<S>(got0, rx0, resp1, 0) == recv_data_outcome::<S>(
                sink.received(),
                bus.rx_data(),
                bus.responses(),
                index as int,
            ),
            more ==> ops1 + recv_data_ops::<S>(got0, rx0, resp1) == bus.ops()
                + recv_data_ops::<S>(sink.received(), bus.rx_data(), bus.responses()),
            more ==> recv_data_remaining::<S>(got0, rx0, resp1) == recv_data_remaining::<S>(
                sink.received(),
                bus.rx_data(),
                bus.responses(),
            ),
            more ==> recv_data_rx_left::<S>(got0, rx0, resp1) == recv_data_rx_left::<S>(
                sink.received(),
                bus.rx_data(),
                bus.responses(),
            ),
            more ==> got0 + recv_data_delivered::<S>(got0, rx0, resp1) == sink.received()
                + recv_data_delivered::<S>(sink.received(), bus.rx_data(), bus.responses()),
            !more ==> recv_data_outcome::<S>(got0, rx0, resp1, 0) == Ok::<(), I2cError>(()),
            !more ==> ops1 + recv_data_ops::<S>(got0, rx0, resp1) == bus.ops(),
            !more ==> recv_data_remaining::<S>(got0, rx0, resp1) == bus.responses(),
            !more ==> recv_data_rx_left::<S>(got0, rx0, resp1) == bus.rx_data(),
            !more ==> got0 + recv_data_delivered::<S>(got0, rx0, resp1) == sink.received(),
            more ==> index as int + bus.rx_data().len() <= rx0.len(),
            rx0.len() <= usize::MAX,
        decreases bus.rx_data().len(),
    {
        let ghost got_here: Seq<u8> = sink.received();
        let ghost rx_here: Seq<u8> = bus.rx_data();
        let ghost resp_here: Seq<BusStatus> = bus.responses();
        let ghost ops_here: Seq<BusOp> = bus.ops();

        let byte = bus.read_byte();
        proof {
            lemma_push_is_add_one(ops_here, BusOp::Read);
        }
        match check_transfer_status(bus, I2cErrorByteInfo::Data { index, byte }) {
            Err(e) => {
                let ghost ops_r: Seq<BusOp> = bus.ops();
                if e.kind != I2cErrorKind::ArbitrationLost {
                    // the failed transfer still tries to release the bus
                    bus.command_stop();
                    proof {
                        lemma_push_is_add_one(ops_r, BusOp::Stop);
                        assert(stop_attempt(next_status(resp_here)) == seq![BusOp::Stop]);
                        lemma_concat_associative(
                            ops_here,
                            seq![BusOp::Read],
                            seq![BusOp::Stop],
                        );
                    }
                } else {
                    proof {
                        assert(stop_attempt(next_status(resp_here)) =~= Seq::<BusOp>::empty());
                        assert(seq![BusOp::Read] + Seq::<BusOp>::empty() =~= seq![BusOp::Read]);
                    }
                }
                proof {
                    assert(recv_data_ops::<S>(got_here, rx_here, resp_here) == seq![BusOp::Read]
                        + stop_attempt(next_status(resp_here)));
                    assert(bus.ops() == ops_here + recv_data_ops::<S>(
                        got_here,
                        rx_here,
                        resp_here,
                    ));
                    lemma_concat_associative(
                        old(bus).ops(),
                        seq![BusOp::Start(address_and_read)],
                        recv_data_ops::<S>(got0, rx0, resp1),
                    );
                    assert(recv_data_delivered::<S>(got_here, rx_here, resp_here)
                        =~= Seq::<u8>::empty());
                    assert(sink.received() + Seq::<u8>::empty() =~= sink.received());
                }
                return Err(e);
            },
            Ok(()) => {},
        }
        more = sink.accept(byte);
        proof {
            lemma_push_is_add_one(got_here, byte);
        }
        if more {
            bus.command_read_next();
            proof {
                lemma_push_is_add_one(ops_here + seq![BusOp::Read], BusOp::AckRead);
                assert(seq![BusOp::Read, BusOp::AckRead] =~= seq![BusOp::Read] + seq![
                    BusOp::AckRead,
                ]);
                lemma_concat_associative(ops_here, seq![BusOp::Read], seq![BusOp::AckRead]);
                assert(bus.ops() == ops_here + seq![BusOp::Read, BusOp::AckRead]);
                assert(recv_data_ops::<S>(got_here, rx_here, resp_here) == seq![
                    BusOp::Read,
                    BusOp::AckRead,
                ] + recv_data_ops::<S>(sink.received(), bus.rx_data(), bus.responses()));
                lemma_concat_associative(
                    ops_here,
                    seq![BusOp::Read, BusOp::AckRead],
                    recv_data_ops::<S>(sink.received(), bus.rx_data(), bus.responses()),
                );
                assert(recv_data_delivered::<S>(got_here, rx_here, resp_here) == seq![byte]
                    + recv_data_delivered::<S>(sink.received(), bus.rx_data(), bus.responses()));
                lemma_concat_associative(
                    got_here,
                    seq![byte],
                    recv_data_delivered::<S>(sink.received(), bus.rx_data(), bus.responses()),
                );
            }
            index += 1;
        } else {
            bus.command_nack_stop();
            proof {
                lemma_push_is_add_one(ops_here + seq![BusOp::Read], BusOp::NackStop);
                assert(seq![BusOp::Read, BusOp::NackStop] =~= seq![BusOp::Read] + seq![
                    BusOp::NackStop,
                ]);
                lemma_concat_associative(ops_here, seq![BusOp::Read], seq![BusOp::NackStop]);
                assert(bus.ops() == ops_here + seq![BusOp::Read, BusOp::NackStop]);
                assert(recv_data_delivered::<S>(got_here, rx_here, resp_here) == seq![byte]);
            }
            let ghost resp_n: Seq<BusStatus> = bus.responses();

            // the closing stop condition's own status
            match check_transfer_status(bus, I2cErrorByteInfo::StopBit) {
                Err(e) => {
                    let ghost ops_s: Seq<BusOp> = bus.ops();
                    if e.kind != I2cErrorKind::ArbitrationLost {
                        // the failed transfer still tries to release the bus
                        bus.command_stop();
                        proof {
                            lemma_push_is_add_one(ops_s, BusOp::Stop);
                            assert(stop_attempt(next_status(resp_n)) == seq![BusOp::Stop]);
                            lemma_concat_associative(
                                ops_here,
                                seq![BusOp::Read, BusOp::NackStop],
                                seq![BusOp::Stop],
                            );
                        }
                    } else {
                        proof {
                            assert(stop_attempt(next_status(resp_n)) =~= Seq::<BusOp>::empty());
                            assert(seq![BusOp::Read, BusOp::NackStop] + Seq::<BusOp>::empty()
                                =~= seq![BusOp::Read, BusOp::NackStop]);
                        }
                    }
                    proof {
                        assert(recv_data_ops::<S>(got_here, rx_here, resp_here) == seq![
                            BusOp::Read,
                            BusOp::NackStop,
                        ] + stop_attempt(next_status(resp_n)));
                        assert(bus.ops() == ops_here + recv_data_ops::<S>(
                            got_here,
                            rx_here,
                            resp_here,
                        ));
                        lemma_concat_associative(
                            old(bus).ops(),
                            seq![BusOp::Start(address_and_read)],
                            recv_data_ops::<S>(got0, rx0, resp1),
                        );
                    }
                    return Err(e);
                },
                Ok(()) => {
                    proof {
                        assert(recv_data_ops::<S>(got_here, rx_here, resp_here) == seq![
                            BusOp::Read,
                            BusOp::NackStop,
                        ]);
                    }
                },
            }
        }
    }
    proof {
        lemma_concat_associative(
            old(bus).ops(),
            seq![BusOp::Start(address_and_read)],
            recv_data_ops::<S>(got0, rx0, resp1),
        );
    }
    Ok(())
}

/// An address of more than 7 bits is refused outright: a send to it ends
/// in the invalid-address error at the address position, with no bus
/// operation issued and no status consumed.
pub proof fn lemma_send_invalid_address(address: u8, data: Seq<u8>, resp: Seq<BusStatus>)
    requires
        address >= 0x80,
    ensures
        send_outcome(address, data, resp) == Err::<(), I2cError>(
            I2cError {
                kind: I2cErrorKind::InvalidAddress,
                byte_info: I2cErrorByteInfo::Address(address),
            },
        ),
        send_ops(address, data, resp) == Seq::<BusOp>::empty(),
        send_remaining(address, data, resp) == resp,
{
}

/// A send whose address byte is never acknowledged ends in the
/// not-acknowledged error at the address position, after exactly one
/// transaction attempt -- the start, followed only by the stop that
/// releases the bus -- and with no retry.
pub proof fn lemma_send_address_not_acknowledged(address: u8, data: Seq<u8>, resp: Seq<BusStatus>)
    requires
        address < 0x80,
        !next_status(resp).bus_error,
        !next_status(resp).arbitration_lost,
        !next_status(resp).acknowledged,
    ensures
        send_outcome(address, data, resp) == Err::<(), I2cError>(
            I2cError {
                kind: I2cErrorKind::NotAcknowledged,
                byte_info: I2cErrorByteInfo::Address(address),
            },
        ),
        send_ops(address, data, resp) == seq![BusOp::Start((address << 1) as u8), BusOp::Stop],
        send_remaining(address, data, resp) == after_head(resp),
{
    assert(seq![BusOp::Start((address << 1) as u8)] + seq![BusOp::Stop] =~= seq![
        BusOp::Start((address << 1) as u8),
        BusOp::Stop,
    ]);
}

/// Sets up the hardware as a bus controller running at `bus_speed_hz`
/// from a core clock of `core_clock_hz`: the clock divisor is computed
/// here and handed to the hardware's one-time setup.
pub fn setup_controller<B: I2cBusHardware>(bus: &mut B, core_clock_hz: u32, bus_speed_hz: u32)
    requires
        bus_speed_hz > 0,
        core_clock_hz * RISE_TIME_NS <= u32::MAX,
        core_clock_hz / bus_speed_hz >= core_clock_hz * RISE_TIME_NS / 1_000_000_000 + 10,
    ensures
        final(bus).ops() == old(bus).ops().push(
            BusOp::Configure(
                ((core_clock_hz / bus_speed_hz - core_clock_hz * RISE_TIME_NS / 1_000_000_000
                    - 10) / 2) as u8,
            ),
        ),
        final(bus).responses() == old(bus).responses(),
        final(bus).rx_data() == old(bus).rx_data(),
{
    let baud = calculate_baud_divisor(core_clock_hz, bus_speed_hz);
    bus.configure(baud);
}

/// Computes the clock divisor programmed into the baud register so that a
/// core clock of `core_clock_hz` drives the bus at `bus_speed_hz`,
/// correcting for the documented worst-case rise time.
pub fn calculate_baud_divisor(core_clock_hz: u32, bus_speed_hz: u32) -> (baud: u8)
    requires
        bus_speed_hz > 0,
        core_clock_hz * RISE_TIME_NS <= u32::MAX,
        core_clock_hz / bus_speed_hz >= core_clock_hz * RISE_TIME_NS / 1_000_000_000 + 10,
    ensures
        baud == ((core_clock_hz / bus_speed_hz - core_clock_hz * RISE_TIME_NS / 1_000_000_000
            - 10) / 2) as u8,
{
    // f_SCL = f_GCLK / (10 + 2*BAUD + f_GCLK * T_RISE), solved for BAUD
    #[verifier::truncate]
    (((core_clock_hz / bus_speed_hz - core_clock_hz * RISE_TIME_NS / 1_000_000_000 - 10) / 2)
        as u8)
}

} // verus!
