//! A character display behind the I2C bus: a GPIO-expander chip driving a
//! classic character-LCD controller in 4-bit mode.
//!
//! The expander's pins map to the LCD's upper data lines plus backlight,
//! enable, read/write and register-select.  Each nibble reaches the LCD as
//! three one-byte bus writes (enable low, high, low again); a byte is its
//! upper then its lower nibble, both halves always transmitted.

use crate::i2c_controller::{
    send, send_outcome, send_ops, send_remaining, BusOp, BusStatus, I2cBusHardware, I2cError,
};
use vstd::prelude::*;
use vstd::seq_lib::lemma_concat_associative;

verus! {

/// Nanoseconds the enable line is held between the three writes of a
/// nibble.
pub const ENABLE_PULSE_NS: u32 = 500;

/// The short command delay in nanoseconds.
pub const SHORT_DELAY_NS: u32 = 52_600;

/// The long command delay in nanoseconds, for clear and reset commands.
pub const LONG_DELAY_NS: u32 = 2_160_000;

/// One step of traffic towards the display.
#[derive(Clone, Copy, Debug, Eq, PartialEq, Structural)]
pub enum DisplayStep {
    /// A bare nibble in command mode, used while switching bus width.
    Nibble(u8),
    /// A full command byte.
    Command(u8),
    /// A full data byte.
    Data(u8),
}

/// The three one-byte frames that carry one nibble: the pin image with
/// enable low, the same with enable high, and enable low again.
pub open spec fn nibble_frames(nibble: u8, backlight: bool, rs: bool) -> Seq<Seq<u8>> {
    let low = ((nibble << 4) | (if backlight {
        8u8
    } else {
        0u8
    }) | (if rs {
        1u8
    } else {
        0u8
    })) as u8;
    let high = (low | 4u8) as u8;
    let low_again = (high & 0xFBu8) as u8;
    seq![seq![low], seq![high], seq![low_again]]
}

/// The outcome of sending each of `frames` to `address` in its own
/// transfer, stopping at the first fault.
pub open spec fn batch_outcome(address: u8, frames: Seq<Seq<u8>>, resp: Seq<BusStatus>) -> Result<
    (),
    I2cError,
>
    decreases frames.len(),
{
    if frames.len() == 0 {
        Ok(())
    } else {
        let here = send_outcome(address, frames[0], resp);
        if here is Err {
            here
        } else {
            batch_outcome(address, frames.skip(1), send_remaining(address, frames[0], resp))
        }
    }
}

/// The bus operations such a run of transfers issues.
pub open spec fn batch_ops(address: u8, frames: Seq<Seq<u8>>, resp: Seq<BusStatus>) -> Seq<BusOp>
    decreases frames.len(),
{
    if frames.len() == 0 {
        Seq::empty()
    } else {
        let here = send_ops(address, frames[0], resp);
        if send_outcome(address, frames[0], resp) is Err {
            here
        } else {
            here + batch_ops(address, frames.skip(1), send_remaining(address, frames[0], resp))
        }
    }
}

/// The statuses still pending after such a run of transfers.
pub open spec fn batch_remaining(address: u8, frames: Seq<Seq<u8>>, resp: Seq<BusStatus>) -> Seq<
    BusStatus,
>
    decreases frames.len(),
{
    if frames.len() == 0 {
        resp
    } else {
        if send_outcome(address, frames[0], resp) is Err {
            send_remaining(address, frames[0], resp)
        } else {
            batch_remaining(address, frames.skip(1), send_remaining(address, frames[0], resp))
        }
    }
}

/// The outcome of one display step.  A nibble stops at its first fault.
/// A byte transmits both halves regardless, and reports the first fault:
/// the upper half's if it faulted, else the lower half's result.
pub open spec fn step_outcome(
    address: u8,
    backlight: bool,
    step: DisplayStep,
    resp: Seq<BusStatus>,
) -> Result<(), I2cError> {
    match step {
        DisplayStep::Nibble(n) => batch_outcome(address, nibble_frames(n, backlight, false), resp),
        DisplayStep::Command(b) => byte_outcome(address, b, backlight, false, resp),
        DisplayStep::Data(b) => byte_outcome(address, b, backlight, true, resp),
    }
}

/// The outcome of one full byte: upper nibble, then lower nibble on the
/// statuses the upper one left over; the byte succeeds exactly when both
/// halves went through, and the first fault is the one reported.
pub open spec fn byte_outcome(
    address: u8,
    byte: u8,
    backlight: bool,
    rs: bool,
    resp: Seq<BusStatus>,
) -> Result<(), I2cError> {
    let hi = nibble_frames((byte >> 4) as u8, backlight, rs);
    let lo = nibble_frames((byte & 0xF) as u8, backlight, rs);
    let upper = batch_outcome(address, hi, resp);
    let lower = batch_outcome(address, lo, batch_remaining(address, hi, resp));
    if upper is Err {
        upper
    } else {
        lower
    }
}

/// The bus operations one display step issues.
pub open spec fn step_ops(
    address: u8,
    backlight: bool,
    step: DisplayStep,
    resp: Seq<BusStatus>,
) -> Seq<BusOp> {
    match step {
        DisplayStep::Nibble(n) => batch_ops(address, nibble_frames(n, backlight, false), resp),
        DisplayStep::Command(b) => byte_ops(address, b, backlight, false, resp),
        DisplayStep::Data(b) => byte_ops(address, b, backlight, true, resp),
    }
}

/// The bus operations one full byte issues: both halves, always.
pub open spec fn byte_ops(
    address: u8,
    byte: u8,
    backlight: bool,
    rs: bool,
    resp: Seq<BusStatus>,
) -> Seq<BusOp> {
    let hi = nibble_frames((byte >> 4) as u8, backlight, rs);
    let lo = nibble_frames((byte & 0xF) as u8, backlight, rs);
    batch_ops(address, hi, resp) + batch_ops(address, lo, batch_remaining(address, hi, resp))
}

/// The statuses still pending after one display step.
pub open spec fn step_remaining(
    address: u8,
    backlight: bool,
    step: DisplayStep,
    resp: Seq<BusStatus>,
) -> Seq<BusStatus> {
    match step {
        DisplayStep::Nibble(n) => batch_remaining(
            address,
            nibble_frames(n, backlight, false),
            resp,
        ),
        DisplayStep::Command(b) => byte_remaining(address, b, backlight, false, resp),
        DisplayStep::Data(b) => byte_remaining(address, b, backlight, true, resp),
    }
}

/// The statuses still pending after one full byte.
pub open spec fn byte_remaining(
    address: u8,
    byte: u8,
    backlight: bool,
    rs: bool,
    resp: Seq<BusStatus>,
) -> Seq<BusStatus> {
    let hi = nibble_frames((byte >> 4) as u8, backlight, rs);
    let lo = nibble_frames((byte & 0xF) as u8, backlight, rs);
    batch_remaining(address, lo, batch_remaining(address, hi, resp))
}

/// The outcome of a run of display steps, stopping after the first step
/// that reports a fault.
pub open spec fn run_outcome(
    address: u8,
    backlight: bool,
    steps: Seq<DisplayStep>,
    resp: Seq<BusStatus>,
) -> Result<(), I2cError>
    decreases steps.len(),
{
    if steps.len() == 0 {
        Ok(())
    } else {
        let here = step_outcome(address, backlight, steps[0], resp);
        if here is Err {
            here
        } else {
            run_outcome(
                address,
                backlight,
                steps.skip(1),
                step_remaining(address, backlight, steps[0], resp),
            )
        }
    }
}

/// The bus operations a run of display steps issues.
pub open spec fn run_ops(
    address: u8,
    backlight: bool,
    steps: Seq<DisplayStep>,
    resp: Seq<BusStatus>,
) -> Seq<BusOp>
    decreases steps.len(),
{
    if steps.len() == 0 {
        Seq::empty()
    } else {
        let here = step_ops(address, backlight, steps[0], resp);
        if step_outcome(address, backlight, steps[0], resp) is Err {
            here
        } else {
            here + run_ops(
                address,
                backlight,
                steps.skip(1),
                step_remaining(address, backlight, steps[0], resp),
            )
        }
    }
}

/// The statuses still pending after a run of display steps.
pub open spec fn run_remaining(
    address: u8,
    backlight: bool,
    steps: Seq<DisplayStep>,
    resp: Seq<BusStatus>,
) -> Seq<BusStatus>
    decreases steps.len(),
{
    if steps.len() == 0 {
        resp
    } else {
        if step_outcome(address, backlight, steps[0], resp) is Err {
            step_remaining(address, backlight, steps[0], resp)
        } else {
            run_remaining(
                address,
                backlight,
                steps.skip(1),
                step_remaining(address, backlight, steps[0], resp),
            )
        }
    }
}

/// The fixed setup sequence: three times the switch-to-8-bit nibble so
/// every power-on state converges, the switch-to-4-bit nibble, then the
/// function-set, display-off, clear, entry-mode and display-on commands.
pub open spec fn setup_steps() -> Seq<DisplayStep> {
    seq![
        DisplayStep::Nibble(0b0011u8),
        DisplayStep::Nibble(0b0011u8),
        DisplayStep::Nibble(0b0011u8),
        DisplayStep::Nibble(0b0010u8),
        DisplayStep::Command(0b0010_1000u8),
        DisplayStep::Command(0b0000_1000u8),
        DisplayStep::Command(0b0000_0001u8),
        DisplayStep::Command(0b0000_0110u8),
        DisplayStep::Command(0b0000_1100u8),
    ]
}

/// A transfer result that is not an error is exactly the unit success.
proof fn lemma_ok_is_unit(x: Result<(), I2cError>)
    ensures
        x is Ok ==> x == Ok::<(), I2cError>(()),
{
    match x {
        Ok(v) => {
            assert(v == ());
            assert(x == Ok::<(), I2cError>(v));
        },
        Err(_) => {},
    }
}

/// A one-byte transfer payload.
fn one_byte_frame(byte: u8) -> (frame: Vec<u8>)
    ensures
        frame@ == seq![byte],
{
    let mut frame: Vec<u8> = Vec::new();
    frame.push(byte);
    proof {
        assert(frame@ =~= seq![byte]);
    }
    frame
}

/// The character display on the first two-wire interface.
pub struct I2cDisplaySercom0 {
    /// The display's 7-bit bus address.
    pub display_address: u8,
    /// Whether the user wants the backlight on.
    pub wants_backlight: bool,
}

impl I2cDisplaySercom0 {
    /// A handle for the display at `display_address`.
    pub fn new(display_address: u8, wants_backlight: bool) -> (display: Self)
        ensures
            display.display_address == display_address,
            display.wants_backlight == wants_backlight,
    {
        Self { display_address, wants_backlight }
    }

    /// The address of the display on the bus.
    pub fn display_address(&self) -> (address: u8)
        ensures
            address == self.display_address,
    {
        self.display_address
    }

    /// Whether the user wants the backlight of the display turned on.
    pub fn wants_backlight(&self) -> (wanted: bool)
        ensures
            wanted == self.wants_backlight,
    {
        self.wants_backlight
    }

    /// Changes whether the user wants the backlight turned on.
    pub fn set_wants_backlight(&mut self, wants_backlight: bool)
        ensures
            *final(self) == (I2cDisplaySercom0 { wants_backlight, ..*old(self) }),
    {
        self.wants_backlight = wants_backlight;
    }

    /// Transmits a nibble to the display: the pin image with enable low,
    /// high, and low again, pausing between the writes.
    pub fn transmit_nibble<B: I2cBusHardware>(
        &self,
        bus: &mut B,
        nibble: u8,
        rs: bool,
    ) -> (r: Result<(), I2cError>)
        ensures
            r == batch_outcome(
                self.display_address,
                nibble_frames(nibble, self.wants_backlight, rs),
                old(bus).responses(),
            ),
            final(bus).ops() == old(bus).ops() + batch_ops(
                self.display_address,
                nibble_frames(nibble, self.wants_backlight, rs),
                old(bus).responses(),
            ),
            final(bus).responses() == batch_remaining(
                self.display_address,
                nibble_frames(nibble, self.wants_backlight, rs),
                old(bus).responses(),
            ),
            final(bus).rx_data() == old(bus).rx_data(),
    {
        let ghost frames: Seq<Seq<u8>> = nibble_frames(nibble, self.wants_backlight, rs);
        let ghost resp0: Seq<BusStatus> = bus.responses();

        // pin mapping, bits 7 to 0: D7 D6 D5 D4, backlight, enable,
        // read/write (always write), register select
        let backlight_flag: u8 = if self.wants_backlight {
            8
        } else {
            0
        };
        let rs_flag: u8 = if rs {
            1
        } else {
            0
        };
        let mut transmit_me: u8 = (nibble << 4) | backlight_flag | rs_flag;

        // send with enable low
        let frame = one_byte_frame(transmit_me);
        proof {
            assert(frames[0] =~= frame@);
            assert(frames.skip(1) =~= seq![frames[1], frames[2]]);
        }
        match send(bus, self.display_address, &frame) {
            Err(e) => {
                proof {
                    assert(bus.ops() =~= old(bus).ops() + batch_ops(
                        self.display_address,
                        frames,
                        resp0,
                    ));
                }
                return Err(e);
            },
            Ok(()) => {},
        }
        bus.pause_nanos(ENABLE_PULSE_NS);
        let ghost ops1: Seq<BusOp> = bus.ops();
        let ghost resp1: Seq<BusStatus> = bus.responses();

        // pull enable high and send again
        transmit_me |= 4;
        let frame = one_byte_frame(transmit_me);
        proof {
            assert(frames[1] =~= frame@);
            assert(frames.skip(1).skip(1) =~= seq![frames[2]]);
        }
        match send(bus, self.display_address, &frame) {
            Err(e) => {
                proof {
                    reveal_with_fuel(batch_outcome, 3);
                    reveal_with_fuel(batch_ops, 3);
                    reveal_with_fuel(batch_remaining, 3);
                    lemma_concat_associative(
                        old(bus).ops(),
                        send_ops(self.display_address, frames[0], resp0),
                        send_ops(self.display_address, frames[1], resp1),
                    );
                    assert(bus.ops() =~= old(bus).ops() + batch_ops(
                        self.display_address,
                        frames,
                        resp0,
                    ));
                }
                return Err(e);
            },
            Ok(()) => {},
        }
        bus.pause_nanos(ENABLE_PULSE_NS);
        let ghost ops2: Seq<BusOp> = bus.ops();
        let ghost resp2: Seq<BusStatus> = bus.responses();

        // pull enable low again and send once more
        transmit_me &= 0xFB;
        let frame = one_byte_frame(transmit_me);
        proof {
            assert(frames[2] =~= frame@);
            assert(frames.skip(1).skip(1).skip(1) =~= Seq::<Seq<u8>>::empty());
        }
        let r = send(bus, self.display_address, &frame);
        bus.pause_nanos(ENABLE_PULSE_NS);
        proof {
            reveal_with_fuel(batch_outcome, 4);
            reveal_with_fuel(batch_ops, 4);
            reveal_with_fuel(batch_remaining, 4);
            assert(batch_ops(self.display_address, frames.skip(1).skip(1), resp2)
                == send_ops(self.display_address, frames[2], resp2) + batch_ops(
                self.display_address,
                frames.skip(1).skip(1).skip(1),
                send_remaining(self.display_address, frames[2], resp2),
            ) || batch_ops(self.display_address, frames.skip(1).skip(1), resp2) == send_ops(
                self.display_address,
                frames[2],
                resp2,
            ));
            assert(send_ops(self.display_address, frames[2], resp2) + Seq::<BusOp>::empty()
                =~= send_ops(self.display_address, frames[2], resp2));
            lemma_concat_associative(
                ops2,
                send_ops(self.display_address, frames[2], resp2),
                Seq::<BusOp>::empty(),
            );
            lemma_concat_associative(
                old(bus).ops(),
                send_ops(self.display_address, frames[0], resp0),
                batch_ops(self.display_address, frames.skip(1), resp1),
            );
            lemma_concat_associative(
                ops1,
                send_ops(self.display_address, frames[1], resp1),
                batch_ops(self.display_address, frames.skip(1).skip(1), resp2),
            );
            assert(bus.ops() =~= old(bus).ops() + batch_ops(
                self.display_address,
                frames,
                resp0,
            ));
            assert(frames.skip(1).skip(1)[0] == frames[2]);
            lemma_ok_is_unit(send_outcome(self.display_address, frames[2], resp2));
            assert(batch_outcome(self.display_address, frames.skip(1).skip(1), resp2) == r);
            assert(batch_outcome(self.display_address, frames.skip(1), resp1) == r);
            assert(r == batch_outcome(self.display_address, frames, resp0));
            assert(bus.responses() == batch_remaining(self.display_address, frames, resp0));
        }
        r
    }

    /// Transmits a byte as its upper then its lower nibble.  Both halves
    /// are always transmitted; the upper half's fault is reported if there
    /// was one, otherwise the lower half's result stands.
    pub fn transmit_byte<B: I2cBusHardware>(&self, bus: &mut B, byte: u8, rs: bool) -> (r: Result<
        (),
        I2cError,
    >)
        ensures
            r == byte_outcome(
                self.display_address,
                byte,
                self.wants_backlight,
                rs,
                old(bus).responses(),
            ),
            final(bus).ops() == old(bus).ops() + byte_ops(
                self.display_address,
                byte,
                self.wants_backlight,
                rs,
                old(bus).responses(),
            ),
            final(bus).responses() == byte_remaining(
                self.display_address,
                byte,
                self.wants_backlight,
                rs,
                old(bus).responses(),
            ),
            final(bus).rx_data() == old(bus).rx_data(),
    {
        // in 4-bit mode, the upper nibble is transmitted first
        let upper_error = self.transmit_nibble(bus, byte >> 4, rs);
        let lower_error = self.transmit_nibble(bus, byte & 0xF, rs);
        proof {
            lemma_concat_associative(
                old(bus).ops(),
                batch_ops(
                    self.display_address,
                    nibble_frames((byte >> 4) as u8, self.wants_backlight, rs),
                    old(bus).responses(),
                ),
                batch_ops(
                    self.display_address,
                    nibble_frames((byte & 0xF) as u8, self.wants_backlight, rs),
                    batch_remaining(
                        self.display_address,
                        nibble_frames((byte >> 4) as u8, self.wants_backlight, rs),
                        old(bus).responses(),
                    ),
                ),
            );
        }
        match upper_error {
            Err(e) => Err(e),
            Ok(()) => lower_error,
        }
    }

    /// Updates the backlight line alone: with enable low the display
    /// controller ignores the write, so only the backlight pin matters.
    pub fn update_backlight<B: I2cBusHardware>(&self, bus: &mut B) -> (r: Result<(), I2cError>)
        ensures
            r == send_outcome(
                self.display_address,
                seq![
                    (if self.wants_backlight {
                        8u8
                    } else {
                        0u8
                    }),
                ],
                old(bus).responses(),
            ),
            final(bus).ops() == old(bus).ops() + send_ops(
                self.display_address,
                seq![
                    (if self.wants_backlight {
                        8u8
                    } else {
                        0u8
                    }),
                ],
                old(bus).responses(),
            ),
            final(bus).responses() == send_remaining(
                self.display_address,
                seq![
                    (if self.wants_backlight {
                        8u8
                    } else {
                        0u8
                    }),
                ],
                old(bus).responses(),
            ),
            final(bus).rx_data() == old(bus).rx_data(),
    {
        let backlight_byte: u8 = if self.wants_backlight {
            8
        } else {
            0
        };
        let frame = one_byte_frame(backlight_byte);
        send(bus, self.display_address, &frame)
    }

    /// Moves the cursor to a location on the display.
    pub fn set_location<B: I2cBusHardware>(&self, bus: &mut B, location: u8) -> (r: Result<
        (),
        I2cError,
    >)
        ensures
            r == byte_outcome(
                self.display_address,
                (0x80u8 | location) as u8,
                self.wants_backlight,
                false,
                old(bus).responses(),
            ),
            final(bus).ops() == old(bus).ops() + byte_ops(
                self.display_address,
                (0x80u8 | location) as u8,
                self.wants_backlight,
                false,
                old(bus).responses(),
            ),
            final(bus).responses() == byte_remaining(
                self.display_address,
                (0x80u8 | location) as u8,
                self.wants_backlight,
                false,
                old(bus).responses(),
            ),
            final(bus).rx_data() == old(bus).rx_data(),
    {
        self.transmit_byte(bus, 0x80 | location, false)
    }

    /// Writes text at the current location, one data byte at a time,
    /// stopping at the first byte whose transmission reports a fault.
    #[verifier::loop_isolation(false)]
    pub fn write_text<B: I2cBusHardware>(&self, bus: &mut B, text: &Vec<u8>) -> (r: Result<
        (),
        I2cError,
    >)
        ensures
            r == run_outcome(
                self.display_address,
                self.wants_backlight,
                text@.map_values(|b: u8| DisplayStep::Data(b)),
                old(bus).responses(),
            ),
            final(bus).ops() == old(bus).ops() + run_ops(
                self.display_address,
                self.wants_backlight,
                text@.map_values(|b: u8| DisplayStep::Data(b)),
                old(bus).responses(),
            ),
            final(bus).responses() == run_remaining(
                self.display_address,
                self.wants_backlight,
                text@.map_values(|b: u8| DisplayStep::Data(b)),
                old(bus).responses(),
            ),
            final(bus).rx_data() == old(bus).rx_data(),
    {
        let ghost steps: Seq<DisplayStep> = text@.map_values(|b: u8| DisplayStep::Data(b));
        let ghost resp0: Seq<BusStatus> = bus.responses();
        proof {
            assert(steps.skip(0) =~= steps);
        }
        let mut i: usize = 0;
        while i < text.len()
            invariant
                i <= text.len(),
                bus.rx_data() == old(bus).rx_data(),
                run_outcome(self.display_address, self.wants_backlight, steps, resp0)
                    == run_outcome(
                    self.display_address,
                    self.wants_backlight,
                    steps.skip(i as int),
                    bus.responses(),
                ),
                old(bus).ops() + run_ops(self.display_address, self.wants_backlight, steps, resp0)
                    == bus.ops() + run_ops(
                    self.display_address,
                    self.wants_backlight,
                    steps.skip(i as int),
                    bus.responses(),
                ),
                run_remaining(self.display_address, self.wants_backlight, steps, resp0)
                    == run_remaining(
                    self.display_address,
                    self.wants_backlight,
                    steps.skip(i as int),
                    bus.responses(),
                ),
            decreases text.len() - i,
        {
            let ghost ops_here: Seq<BusOp> = bus.ops();
            let ghost resp_here: Seq<BusStatus> = bus.responses();
            proof {
                assert(steps.skip(i as int)[0] == DisplayStep::Data(text@[i as int]));
                assert(steps.skip(i as int).skip(1) =~= steps.skip(i as int + 1));
            }
            match self.transmit_byte(bus, text[i], true) {
                Err(e) => {
                    proof {
                        lemma_concat_associative(
                            ops_here,
                            byte_ops(
                                self.display_address,
                                text@[i as int],
                                self.wants_backlight,
                                true,
                                resp_here,
                            ),
                            Seq::<BusOp>::empty(),
                        );
                        assert(byte_ops(
                            self.display_address,
                            text@[i as int],
                            self.wants_backlight,
                            true,
                            resp_here,
                        ) + Seq::<BusOp>::empty() =~= byte_ops(
                            self.display_address,
                            text@[i as int],
                            self.wants_backlight,
                            true,
                            resp_here,
                        ));
                    }
                    return Err(e);
                },
                Ok(()) => {},
            }
            bus.pause_nanos(SHORT_DELAY_NS);
            proof {
                lemma_concat_associative(
                    ops_here,
                    byte_ops(
                        self.display_address,
                        text@[i as int],
                        self.wants_backlight,
                        true,
                        resp_here,
                    ),
                    run_ops(
                        self.display_address,
                        self.wants_backlight,
                        steps.skip(i as int + 1),
                        bus.responses(),
                    ),
                );
            }
            i += 1;
        }
        proof {
            assert(steps.skip(text@.len() as int) =~= Seq::<DisplayStep>::empty());
            assert(bus.ops() + Seq::<BusOp>::empty() =~= bus.ops());
        }
        Ok(())
    }

    /// Performs the display's power-on setup: converges the controller to
    /// 8-bit mode, switches it to 4-bit mode, and programs function set,
    /// display off, clear, entry mode and display on, with the documented
    /// delay after each command.
    #[verifier::rlimit(100)]
    #[verifier::spinoff_prover]
    pub fn basic_setup<B: I2cBusHardware>(&self, bus: &mut B) -> (r: Result<(), I2cError>)
        ensures
            r == run_outcome(
                self.display_address,
                self.wants_backlight,
                setup_steps(),
                old(bus).responses(),
            ),
            final(bus).ops() == old(bus).ops() + run_ops(
                self.display_address,
                self.wants_backlight,
                setup_steps(),
                old(bus).responses(),
            ),
            final(bus).responses() == run_remaining(
                self.display_address,
                self.wants_backlight,
                setup_steps(),
                old(bus).responses(),
            ),
            final(bus).rx_data() == old(bus).rx_data(),
    {
        let ghost steps: Seq<DisplayStep> = setup_steps();
        let ghost resp0: Seq<BusStatus> = bus.responses();
        proof {
            assert(steps.skip(0) =~= steps);
        }
        // set the display to 8-bit mode; the same nibble three times covers every power-on state
        let ghost ops_here: Seq<BusOp> = bus.ops();
        let ghost resp_here: Seq<BusStatus> = bus.responses();
        proof {
            assert(steps.skip(0)[0] == DisplayStep::Nibble(0b0011u8));
            assert(steps.skip(0).skip(1) =~= steps.skip(1));
        }
        match self.transmit_nibble(bus, 0b0011, false) {
            Err(e) => {
                proof {
                    assert(run_outcome(self.display_address, self.wants_backlight, steps, resp0)
                        == run_outcome(self.display_address, self.wants_backlight, steps.skip(0), resp_here));
                    assert(old(bus).ops() + run_ops(self.display_address, self.wants_backlight, steps, resp0)
                        == ops_here + run_ops(self.display_address, self.wants_backlight, steps.skip(0), resp_here));
                    assert(run_remaining(self.display_address, self.wants_backlight, steps, resp0)
                        == run_remaining(self.display_address, self.wants_backlight, steps.skip(0), resp_here));
                }
                return Err(e);
            },
            Ok(()) => {},
        }
        bus.pause_nanos(LONG_DELAY_NS);
        proof {
            lemma_concat_associative(
                ops_here,
                batch_ops(
                    self.display_address,
                    nibble_frames(0b0011u8, self.wants_backlight, false),
                    resp_here,
                ),
                run_ops(
                    self.display_address,
                    self.wants_backlight,
                    steps.skip(1),
                    bus.responses(),
                ),
            );
            assert(run_outcome(self.display_address, self.wants_backlight, steps, resp0)
                == run_outcome(self.display_address, self.wants_backlight, steps.skip(1), bus.responses()));
            assert(old(bus).ops() + run_ops(self.display_address, self.wants_backlight, steps, resp0)
                == bus.ops() + run_ops(self.display_address, self.wants_backlight, steps.skip(1), bus.responses()));
            assert(run_remaining(self.display_address, self.wants_backlight, steps, resp0)
                == run_remaining(self.display_address, self.wants_backlight, steps.skip(1), bus.responses()));
        }
        let ghost ops_here: Seq<BusOp> = bus.ops();
        let ghost resp_here: Seq<BusStatus> = bus.responses();
        proof {
            assert(steps.skip(1)[0] == DisplayStep::Nibble(0b0011u8));
            assert(steps.skip(1).skip(1) =~= steps.skip(2));
        }
        match self.transmit_nibble(bus, 0b0011, false) {
            Err(e) => {
                proof {
                    assert(run_outcome(self.display_address, self.wants_backlight, steps, resp0)
                        == run_outcome(self.display_address, self.wants_backlight, steps.skip(1), resp_here));
                    assert(old(bus).ops() + run_ops(self.display_address, self.wants_backlight, steps, resp0)
                        == ops_here + run_ops(self.display_address, self.wants_backlight, steps.skip(1), resp_here));
                    assert(run_remaining(self.display_address, self.wants_backlight, steps, resp0)
                        == run_remaining(self.display_address, self.wants_backlight, steps.skip(1), resp_here));
                }
                return Err(e);
            },
            Ok(()) => {},
        }
        bus.pause_nanos(SHORT_DELAY_NS);
        proof {
            lemma_concat_associative(
                ops_here,
                batch_ops(
                    self.display_address,
                    nibble_frames(0b0011u8, self.wants_backlight, false),
                    resp_here,
                ),
                run_ops(
                    self.display_address,
                    self.wants_backlight,
                    steps.skip(2),
                    bus.responses(),
                ),
            );
            assert(run_outcome(self.display_address, self.wants_backlight, steps, resp0)
                == run_outcome(self.display_address, self.wants_backlight, steps.skip(2), bus.responses()));
            assert(old(bus).ops() + run_ops(self.display_address, self.wants_backlight, steps, resp0)
                == bus.ops() + run_ops(self.display_address, self.wants_backlight, steps.skip(2), bus.responses()));
            assert(run_remaining(self.display_address, self.wants_backlight, steps, resp0)
                == run_remaining(self.display_address, self.wants_backlight, steps.skip(2), bus.responses()));
        }
        let ghost ops_here: Seq<BusOp> = bus.ops();
        let ghost resp_here: Seq<BusStatus> = bus.responses();
        proof {
            assert(steps.skip(2)[0] == DisplayStep::Nibble(0b0011u8));
            assert(steps.skip(2).skip(1) =~= steps.skip(3));
        }
        match self.transmit_nibble(bus, 0b0011, false) {
            Err(e) => {
                proof {
                    assert(run_outcome(self.display_address, self.wants_backlight, steps, resp0)
                        == run_outcome(self.display_address, self.wants_backlight, steps.skip(2), resp_here));
                    assert(old(bus).ops() + run_ops(self.display_address, self.wants_backlight, steps, resp0)
                        == ops_here + run_ops(self.display_address, self.wants_backlight, steps.skip(2), resp_here));
                    assert(run_remaining(self.display_address, self.wants_backlight, steps, resp0)
                        == run_remaining(self.display_address, self.wants_backlight, steps.skip(2), resp_here));
                }
                return Err(e);
            },
            Ok(()) => {},
        }
        bus.pause_nanos(SHORT_DELAY_NS);
        proof {
            lemma_concat_associative(
                ops_here,
                batch_ops(
                    self.display_address,
                    nibble_frames(0b0011u8, self.wants_backlight, false),
                    resp_here,
                ),
                run_ops(
                    self.display_address,
                    self.wants_backlight,
                    steps.skip(3),
                    bus.responses(),
                ),
            );
            assert(run_outcome(self.display_address, self.wants_backlight, steps, resp0)
                == run_outcome(self.display_address, self.wants_backlight, steps.skip(3), bus.responses()));
            assert(old(bus).ops() + run_ops(self.display_address, self.wants_backlight, steps, resp0)
                == bus.ops() + run_ops(self.display_address, self.wants_backlight, steps.skip(3), bus.responses()));
            assert(run_remaining(self.display_address, self.wants_backlight, steps, resp0)
                == run_remaining(self.display_address, self.wants_backlight, steps.skip(3), bus.responses()));
        }
        // switch to 4-bit mode
        let ghost ops_here: Seq<BusOp> = bus.ops();
        let ghost resp_here: Seq<BusStatus> = bus.responses();
        proof {
            assert(steps.skip(3)[0] == DisplayStep::Nibble(0b0010u8));
            assert(steps.skip(3).skip(1) =~= steps.skip(4));
        }
        match self.transmit_nibble(bus, 0b0010, false) {
            Err(e) => {
                proof {
                    assert(run_outcome(self.display_address, self.wants_backlight, steps, resp0)
                        == run_outcome(self.display_address, self.wants_backlight, steps.skip(3), resp_here));
                    assert(old(bus).ops() + run_ops(self.display_address, self.wants_backlight, steps, resp0)
                        == ops_here + run_ops(self.display_address, self.wants_backlight, steps.skip(3), resp_here));
                    assert(run_remaining(self.display_address, self.wants_backlight, steps, resp0)
                        == run_remaining(self.display_address, self.wants_backlight, steps.skip(3), resp_here));
                }
                return Err(e);
            },
            Ok(()) => {},
        }
        bus.pause_nanos(SHORT_DELAY_NS);
        proof {
            lemma_concat_associative(
                ops_here,
                batch_ops(
                    self.display_address,
                    nibble_frames(0b0010u8, self.wants_backlight, false),
                    resp_here,
                ),
                run_ops(
                    self.display_address,
                    self.wants_backlight,
                    steps.skip(4),
                    bus.responses(),
                ),
            );
            assert(run_outcome(self.display_address, self.wants_backlight, steps, resp0)
                == run_outcome(self.display_address, self.wants_backlight, steps.skip(4), bus.responses()));
            assert(old(bus).ops() + run_ops(self.display_address, self.wants_backlight, steps, resp0)
                == bus.ops() + run_ops(self.display_address, self.wants_backlight, steps.skip(4), bus.responses()));
            assert(run_remaining(self.display_address, self.wants_backlight, steps, resp0)
                == run_remaining(self.display_address, self.wants_backlight, steps.skip(4), bus.responses()));
        }
        // function set: 4-bit bus, two lines
        let ghost ops_here: Seq<BusOp> = bus.ops();
        let ghost resp_here: Seq<BusStatus> = bus.responses();
        proof {
            assert(steps.skip(4)[0] == DisplayStep::Command(0b0010_1000u8));
            assert(steps.skip(4).skip(1) =~= steps.skip(5));
        }
        match self.transmit_byte(bus, 0b0010_1000, false) {
            Err(e) => {
                proof {
                    assert(run_outcome(self.display_address, self.wants_backlight, steps, resp0)
                        == run_outcome(self.display_address, self.wants_backlight, steps.skip(4), resp_here));
                    assert(old(bus).ops() + run_ops(self.display_address, self.wants_backlight, steps, resp0)
                        == ops_here + run_ops(self.display_address, self.wants_backlight, steps.skip(4), resp_here));
                    assert(run_remaining(self.display_address, self.wants_backlight, steps, resp0)
                        == run_remaining(self.display_address, self.wants_backlight, steps.skip(4), resp_here));
                }
                return Err(e);
            },
            Ok(()) => {},
        }
        bus.pause_nanos(SHORT_DELAY_NS);
        proof {
            lemma_concat_associative(
                ops_here,
                byte_ops(
                    self.display_address,
                    0b0010_1000u8,
                    self.wants_backlight,
                    false,
                    resp_here,
                ),
                run_ops(
                    self.display_address,
                    self.wants_backlight,
                    steps.skip(5),
                    bus.responses(),
                ),
            );
            assert(run_outcome(self.display_address, self.wants_backlight, steps, resp0)
                == run_outcome(self.display_address, self.wants_backlight, steps.skip(5), bus.responses()));
            assert(old(bus).ops() + run_ops(self.display_address, self.wants_backlight, steps, resp0)
                == bus.ops() + run_ops(self.display_address, self.wants_backlight, steps.skip(5), bus.responses()));
            assert(run_remaining(self.display_address, self.wants_backlight, steps, resp0)
                == run_remaining(self.display_address, self.wants_backlight, steps.skip(5), bus.responses()));
        }
        // display off
        let ghost ops_here: Seq<BusOp> = bus.ops();
        let ghost resp_here: Seq<BusStatus> = bus.responses();
        proof {
            assert(steps.skip(5)[0] == DisplayStep::Command(0b0000_1000u8));
            assert(steps.skip(5).skip(1) =~= steps.skip(6));
        }
        match self.transmit_byte(bus, 0b0000_1000, false) {
            Err(e) => {
                proof {
                    assert(run_outcome(self.display_address, self.wants_backlight, steps, resp0)
                        == run_outcome(self.display_address, self.wants_backlight, steps.skip(5), resp_here));
                    assert(old(bus).ops() + run_ops(self.display_address, self.wants_backlight, steps, resp0)
                        == ops_here + run_ops(self.display_address, self.wants_backlight, steps.skip(5), resp_here));
                    assert(run_remaining(self.display_address, self.wants_backlight, steps, resp0)
                        == run_remaining(self.display_address, self.wants_backlight, steps.skip(5), resp_here));
                }
                return Err(e);
            },
            Ok(()) => {},
        }
        bus.pause_nanos(SHORT_DELAY_NS);
        proof {
            lemma_concat_associative(
                ops_here,
                byte_ops(
                    self.display_address,
                    0b0000_1000u8,
                    self.wants_backlight,
                    false,
                    resp_here,
                ),
                run_ops(
                    self.display_address,
                    self.wants_backlight,
                    steps.skip(6),
                    bus.responses(),
                ),
            );
            assert(run_outcome(self.display_address, self.wants_backlight, steps, resp0)
                == run_outcome(self.display_address, self.wants_backlight, steps.skip(6), bus.responses()));
            assert(old(bus).ops() + run_ops(self.display_address, self.wants_backlight, steps, resp0)
                == bus.ops() + run_ops(self.display_address, self.wants_backlight, steps.skip(6), bus.responses()));
            assert(run_remaining(self.display_address, self.wants_backlight, steps, resp0)
                == run_remaining(self.display_address, self.wants_backlight, steps.skip(6), bus.responses()));
        }
        // clear display and go home
        let ghost ops_here: Seq<BusOp> = bus.ops();
        let ghost resp_here: Seq<BusStatus> = bus.responses();
        proof {
            assert(steps.skip(6)[0] == DisplayStep::Command(0b0000_0001u8));
            assert(steps.skip(6).skip(1) =~= steps.skip(7));
        }
        match self.transmit_byte(bus, 0b0000_0001, false) {
            Err(e) => {
                proof {
                    assert(run_outcome(self.display_address, self.wants_backlight, steps, resp0)
                        == run_outcome(self.display_address, self.wants_backlight, steps.skip(6), resp_here));
                    assert(old(bus).ops() + run_ops(self.display_address, self.wants_backlight, steps, resp0)
                        == ops_here + run_ops(self.display_address, self.wants_backlight, steps.skip(6), resp_here));
                    assert(run_remaining(self.display_address, self.wants_backlight, steps, resp0)
                        == run_remaining(self.display_address, self.wants_backlight, steps.skip(6), resp_here));
                }
                return Err(e);
            },
            Ok(()) => {},
        }
        bus.pause_nanos(LONG_DELAY_NS);
        proof {
            lemma_concat_associative(
                ops_here,
                byte_ops(
                    self.display_address,
                    0b0000_0001u8,
                    self.wants_backlight,
                    false,
                    resp_here,
                ),
                run_ops(
                    self.display_address,
                    self.wants_backlight,
                    steps.skip(7),
                    bus.responses(),
                ),
            );
            assert(run_outcome(self.display_address, self.wants_backlight, steps, resp0)
                == run_outcome(self.display_address, self.wants_backlight, steps.skip(7), bus.responses()));
            assert(old(bus).ops() + run_ops(self.display_address, self.wants_backlight, steps, resp0)
                == bus.ops() + run_ops(self.display_address, self.wants_backlight, steps.skip(7), bus.responses()));
            assert(run_remaining(self.display_address, self.wants_backlight, steps, resp0)
                == run_remaining(self.display_address, self.wants_backlight, steps.skip(7), bus.responses()));
        }
        // increment on write, no display shift
        let ghost ops_here: Seq<BusOp> = bus.ops();
        let ghost resp_here: Seq<BusStatus> = bus.responses();
        proof {
            assert(steps.skip(7)[0] == DisplayStep::Command(0b0000_0110u8));
            assert(steps.skip(7).skip(1) =~= steps.skip(8));
        }
        match self.transmit_byte(bus, 0b0000_0110, false) {
            Err(e) => {
                proof {
                    assert(run_outcome(self.display_address, self.wants_backlight, steps, resp0)
                        == run_outcome(self.display_address, self.wants_backlight, steps.skip(7), resp_here));
                    assert(old(bus).ops() + run_ops(self.display_address, self.wants_backlight, steps, resp0)
                        == ops_here + run_ops(self.display_address, self.wants_backlight, steps.skip(7), resp_here));
                    assert(run_remaining(self.display_address, self.wants_backlight, steps, resp0)
                        == run_remaining(self.display_address, self.wants_backlight, steps.skip(7), resp_here));
                }
                return Err(e);
            },
            Ok(()) => {},
        }
        bus.pause_nanos(SHORT_DELAY_NS);
        proof {
            lemma_concat_associative(
                ops_here,
                byte_ops(
                    self.display_address,
                    0b0000_0110u8,
                    self.wants_backlight,
                    false,
                    resp_here,
                ),
                run_ops(
                    self.display_address,
                    self.wants_backlight,
                    steps.skip(8),
                    bus.responses(),
                ),
            );
            assert(run_outcome(self.display_address, self.wants_backlight, steps, resp0)
                == run_outcome(self.display_address, self.wants_backlight, steps.skip(8), bus.responses()));
            assert(old(bus).ops() + run_ops(self.display_address, self.wants_backlight, steps, resp0)
                == bus.ops() + run_ops(self.display_address, self.wants_backlight, steps.skip(8), bus.responses()));
            assert(run_remaining(self.display_address, self.wants_backlight, steps, resp0)
                == run_remaining(self.display_address, self.wants_backlight, steps.skip(8), bus.responses()));
        }
        // display on
        let ghost ops_here: Seq<BusOp> = bus.ops();
        let ghost resp_here: Seq<BusStatus> = bus.responses();
        proof {
            assert(steps.skip(8)[0] == DisplayStep::Command(0b0000_1100u8));
            assert(steps.skip(8).skip(1) =~= steps.skip(9));
        }
        match self.transmit_byte(bus, 0b0000_1100, false) {
            Err(e) => {
                proof {
                    assert(run_outcome(self.display_address, self.wants_backlight, steps, resp0)
                        == run_outcome(self.display_address, self.wants_backlight, steps.skip(8), resp_here));
                    assert(old(bus).ops() + run_ops(self.display_address, self.wants_backlight, steps, resp0)
                        == ops_here + run_ops(self.display_address, self.wants_backlight, steps.skip(8), resp_here));
                    assert(run_remaining(self.display_address, self.wants_backlight, steps, resp0)
                        == run_remaining(self.display_address, self.wants_backlight, steps.skip(8), resp_here));
                }
                return Err(e);
            },
            Ok(()) => {},
        }
        bus.pause_nanos(SHORT_DELAY_NS);
        proof {
            lemma_concat_associative(
                ops_here,
                byte_ops(
                    self.display_address,
                    0b0000_1100u8,
                    self.wants_backlight,
                    false,
                    resp_here,
                ),
                run_ops(
                    self.display_address,
                    self.wants_backlight,
                    steps.skip(9),
                    bus.responses(),
                ),
            );
            assert(run_outcome(self.display_address, self.wants_backlight, steps, resp0)
                == run_outcome(self.display_address, self.wants_backlight, steps.skip(9), bus.responses()));
            assert(old(bus).ops() + run_ops(self.display_address, self.wants_backlight, steps, resp0)
                == bus.ops() + run_ops(self.display_address, self.wants_backlight, steps.skip(9), bus.responses()));
            assert(run_remaining(self.display_address, self.wants_backlight, steps, resp0)
                == run_remaining(self.display_address, self.wants_backlight, steps.skip(9), bus.responses()));
        }
        proof {
            assert(steps.skip(9) =~= Seq::<DisplayStep>::empty());
            assert(bus.ops() + Seq::<BusOp>::empty() =~= bus.ops());
        }
        Ok(())
    }
}

} // verus!
