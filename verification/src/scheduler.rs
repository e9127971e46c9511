//! The modulation scheduler: an interrupt-context state machine driven by
//! a fixed-cadence hardware tick, 32 ticks per second.
//!
//! When the sub-tick counter wraps, a second has passed: the wall-clock
//! second advances, and either the next bit of the stored frame is shifted
//! into the carrier's duty cycle, or -- on the last second of the minute --
//! the carrier is silenced while the time code advances and the next
//! minute's frame is encoded.  Every second advance raises a coalesced
//! "time changed" flag for the foreground to observe.

use crate::dcf77::{frame_of, lemma_increment_step, Dcf77Data};
use crate::pwm::{CarrierControl, FULL_DUTY, REDUCED_DUTY};
use vstd::arithmetic::div_mod::{
    lemma_add_mod_noop_right, lemma_fundamental_div_mod_converse, lemma_mod_self_0,
    lemma_small_mod,
};
use vstd::prelude::*;

verus! {

/// The number of hardware ticks per second.
pub const TICKS_PER_SECOND: u8 = 32;

/// The ASCII digit zero.
pub const ASCII_ZERO: u8 = 48;

/// The ASCII digit one.
pub const ASCII_ONE: u8 = 49;

/// The ASCII full stop.
pub const ASCII_DOT: u8 = 46;

/// The ASCII space.
pub const ASCII_SPACE: u8 = 32;

/// The ASCII colon.
pub const ASCII_COLON: u8 = 58;

/// The scheduler's state.  It exclusively owns the current time code and
/// the frame being shifted out; the foreground only ever reads snapshots.
#[derive(Clone, Copy, Debug, Eq, PartialEq, Structural)]
pub struct Scheduler {
    /// The sub-second tick counter, 0 to 31.
    pub counter: u8,
    /// The wall-clock second, 0 to 59.
    pub second: u8,
    /// The time code of the minute being transmitted next.
    pub data: Dcf77Data,
    /// The bits of the frame not yet shifted out, least significant first.
    pub frame: u64,
    /// The coalesced "time changed" notification for the foreground.
    pub update_time: bool,
}

impl Scheduler {
    /// Counter and second within their ranges, and a well-formed stamp.
    pub open spec fn wf(self) -> bool {
        &&& self.counter < 32
        &&& self.second < 60
        &&& self.data.wf()
    }

    /// The boot state: one tick before the first second advance, one
    /// second before the first minute boundary, holding the fixed initial
    /// stamp and no frame yet.
    pub fn new() -> (s: Self)
        ensures
            s == (Scheduler {
                counter: 31u8,
                second: 59u8,
                data: Dcf77Data::initial(),
                frame: 0u64,
                update_time: false,
            }),
            s.wf(),
    {
        Scheduler {
            counter: 31,
            second: 59,
            data: Dcf77Data::new(),
            frame: 0,
            update_time: false,
        }
    }

    /// The state one hardware tick later.
    pub open spec fn spec_tick(self) -> Self {
        if self.counter != 31 {
            Self { counter: (self.counter + 1) as u8, ..self }
        } else {
            let s = if self.second == 59 {
                0u8
            } else {
                (self.second + 1) as u8
            };
            if s == 59 {
                let d = self.data.spec_increment();
                Self {
                    counter: 0,
                    second: s,
                    data: d,
                    frame: frame_of(d),
                    update_time: true,
                }
            } else {
                Self { counter: 0, second: s, frame: self.frame >> 1, update_time: true, ..self }
            }
        }
    }

    /// The duty-cycle value one tick applies to the carrier, if any: zero
    /// to silence the last second of the minute, otherwise the preset for
    /// the frame bit of the second just completed.
    pub open spec fn spec_tick_duty(self) -> Option<u32> {
        if self.counter != 31 {
            None
        } else {
            let s = if self.second == 59 {
                0u8
            } else {
                (self.second + 1) as u8
            };
            if s == 59 {
                Some(0u32)
            } else {
                Some(
                    if self.frame & 1 == 1 {
                        FULL_DUTY
                    } else {
                        REDUCED_DUTY
                    },
                )
            }
        }
    }

    /// Handles one hardware tick: advances the sub-tick counter and, when
    /// it wraps, advances the second, modulates the carrier for the new
    /// second, and raises the notification flag.
    pub fn tick<C: CarrierControl>(&mut self, carrier: &mut C)
        requires
            old(self).wf(),
        ensures
            *final(self) == old(self).spec_tick(),
            final(self).wf(),
            final(carrier).duty_history() == (match old(self).spec_tick_duty() {
                Some(duty) => old(carrier).duty_history().push(duty),
                None => old(carrier).duty_history(),
            }),
            final(carrier).period_history() == old(carrier).period_history(),
    {
        proof {
            if old(self).counter != 31 {
                lemma_small_mod((old(self).counter + 1) as nat, 32);
            } else {
                lemma_mod_self_0(32);
            }
        }
        self.counter = (self.counter + 1) % 32;
        if self.counter != 0 {
            return ;
        }
        // a second has passed
        let mut second = self.second + 1;
        if second == 60 {
            second = 0;
        }
        self.second = second;
        if second == 59 {
            // last second of the minute: silence the carrier and prepare
            // the next minute's frame
            carrier.set_duty_cycle(0);
            self.data.increment_minute();
            self.frame = self.data.to_bits();
        } else {
            // shift out the bit for the second just completed
            let long_duty_cycle = (self.frame & 1) == 1;
            self.frame = self.frame >> 1;
            if long_duty_cycle {
                carrier.set_duty_cycle(FULL_DUTY);
            } else {
                carrier.set_duty_cycle(REDUCED_DUTY);
            }
        }
        self.update_time = true;
    }

    /// Reads and clears the coalesced notification flag: whether any
    /// second advance happened since the last call.
    pub fn take_update(&mut self) -> (was: bool)
        ensures
            was == old(self).update_time,
            *final(self) == (Scheduler { update_time: false, ..*old(self) }),
    {
        let was = self.update_time;
        self.update_time = false;
        was
    }
}

/// The scheduler after `n` hardware ticks.
pub open spec fn nth_tick(s: Scheduler, n: nat) -> Scheduler
    decreases n,
{
    if n == 0 {
        s
    } else {
        nth_tick(s, (n - 1) as nat).spec_tick()
    }
}

/// How many of the first `n` ticks advance the second.
pub open spec fn count_seconds(s: Scheduler, n: nat) -> nat
    decreases n,
{
    if n == 0 {
        0
    } else {
        count_seconds(s, (n - 1) as nat) + (if nth_tick(s, (n - 1) as nat).counter == 31 {
            1nat
        } else {
            0nat
        })
    }
}

/// How many of the first `n` ticks cross the minute boundary: they land
/// on second 59, silence the carrier and re-encode the frame.
pub open spec fn count_reencodes(s: Scheduler, n: nat) -> nat
    decreases n,
{
    if n == 0 {
        0
    } else {
        count_reencodes(s, (n - 1) as nat) + (if nth_tick(s, (n - 1) as nat).counter == 31
            && nth_tick(s, (n - 1) as nat).second == 58 {
            1nat
        } else {
            0nat
        })
    }
}

/// How many of the first `n` ticks shift a frame bit into the carrier's
/// duty cycle: the second advances onto anything but 59.
pub open spec fn count_shifts(s: Scheduler, n: nat) -> nat
    decreases n,
{
    if n == 0 {
        0
    } else {
        count_shifts(s, (n - 1) as nat) + (if nth_tick(s, (n - 1) as nat).counter == 31
            && nth_tick(s, (n - 1) as nat).second != 58 {
            1nat
        } else {
            0nat
        })
    }
}

/// One tick keeps the scheduler well formed.
proof fn lemma_spec_tick_wf(s: Scheduler)
    requires
        s.wf(),
    ensures
        s.spec_tick().wf(),
{
    if s.counter == 31 {
        let sec = if s.second == 59 {
            0u8
        } else {
            (s.second + 1) as u8
        };
        if sec == 59 {
            lemma_increment_step(s.data);
        }
    }
}

/// Ticks compose: running `a + b` ticks is running `a`, then `b` more,
/// and every event count adds up accordingly.
proof fn lemma_tick_additive(s: Scheduler, a: nat, b: nat)
    ensures
        nth_tick(s, a + b) == nth_tick(nth_tick(s, a), b),
        count_seconds(s, a + b) == count_seconds(s, a) + count_seconds(nth_tick(s, a), b),
        count_reencodes(s, a + b) == count_reencodes(s, a) + count_reencodes(nth_tick(s, a), b),
        count_shifts(s, a + b) == count_shifts(s, a) + count_shifts(nth_tick(s, a), b),
    decreases b,
{
    if b > 0 {
        lemma_tick_additive(s, a, (b - 1) as nat);
    }
}

/// A tick is a second advance exactly when it is a shift or a re-encode,
/// never both, so the counts split.
proof fn lemma_counts_split(s: Scheduler, n: nat)
    ensures
        count_seconds(s, n) == count_shifts(s, n) + count_reencodes(s, n),
    decreases n,
{
    if n > 0 {
        lemma_counts_split(s, (n - 1) as nat);
    }
}

/// While the sub-tick counter has not reached its wrap, ticks only count
/// it up: no second advances, nothing else changes.
proof fn lemma_quiet_run(s: Scheduler, m: nat)
    requires
        s.wf(),
        m + s.counter <= 31,
    ensures
        nth_tick(s, m) == (Scheduler { counter: (s.counter + m) as u8, ..s }),
        count_seconds(s, m) == 0,
        count_reencodes(s, m) == 0,
        count_shifts(s, m) == 0,
    decreases m,
{
    if m == 0 {
        assert(nth_tick(s, 0) == s);
        assert((s.counter + 0) as u8 == s.counter);
    } else {
        lemma_quiet_run(s, (m - 1) as nat);
    }
}

/// One second of ticks from any state: the sub-tick counter comes back
/// around, the second advances once, and the one modulation event is a
/// re-encode exactly when the new second is 59.
proof fn lemma_one_second(s: Scheduler)
    requires
        s.wf(),
    ensures
        nth_tick(s, 32).wf(),
        nth_tick(s, 32).counter == s.counter,
        nth_tick(s, 32).second == (if s.second == 59 {
            0u8
        } else {
            (s.second + 1) as u8
        }),
        count_seconds(s, 32) == 1,
        count_reencodes(s, 32) == (if s.second == 58 {
            1nat
        } else {
            0nat
        }),
        count_shifts(s, 32) == (if s.second == 58 {
            0nat
        } else {
            1nat
        }),
        s.second != 58 ==> nth_tick(s, 32).frame == s.frame >> 1 && nth_tick(s, 32).data
            == s.data,
        s.second == 58 ==> nth_tick(s, 32).data == s.data.spec_increment() && nth_tick(s, 32).frame
            == frame_of(s.data.spec_increment()),
{
    let m1: nat = (31 - s.counter) as nat;
    lemma_quiet_run(s, m1);
    let t0 = nth_tick(s, m1);
    let t1 = t0.spec_tick();
    lemma_spec_tick_wf(t0);
    lemma_tick_additive(s, m1, 1);
    assert(nth_tick(t0, 1) == t1);
    lemma_quiet_run(t1, s.counter as nat);
    lemma_tick_additive(s, m1 + 1, s.counter as nat);
    assert(count_seconds(t0, 1) == 1);
    assert(m1 + 1 + s.counter == 32);
    if s.second == 58 {
        lemma_increment_step(s.data);
    }
}

/// How many of the first `j` whole seconds, starting with the wall clock
/// at `sec`, land on second 59.
pub open spec fn hits_minute_boundary(sec: int, j: nat) -> nat
    decreases j,
{
    if j == 0 {
        0
    } else {
        hits_minute_boundary(sec, (j - 1) as nat) + (if (sec + j - 1) % 60 == 58 {
            1nat
        } else {
            0nat
        })
    }
}

/// Within one minute of seconds, exactly one lands on the boundary.
proof fn lemma_hits_once(sec: int, j: nat)
    requires
        0 <= sec < 60,
        j <= 60,
    ensures
        hits_minute_boundary(sec, j) == (if j > (if sec <= 58 {
            58 - sec
        } else {
            59
        }) {
            1nat
        } else {
            0nat
        }),
    decreases j,
{
    let k0: int = if sec <= 58 {
        58 - sec
    } else {
        59
    };
    if j > 0 {
        lemma_hits_once(sec, (j - 1) as nat);
        let y: int = sec + j - 1;
        if y < 60 {
            lemma_small_mod(y as nat, 60);
        } else {
            lemma_fundamental_div_mod_converse(y, 60, 1, y - 60);
        }
        assert((y % 60 == 58) == (j - 1 == k0));
    }
}

/// Whole seconds compose out of 32-tick blocks: after `j` of them the
/// counter is back where it started, the wall clock has advanced by `j`
/// seconds, and the minute boundary was crossed once per second 59.
proof fn lemma_minute_blocks(s: Scheduler, j: nat)
    requires
        s.wf(),
    ensures
        nth_tick(s, 32 * j).wf(),
        nth_tick(s, 32 * j).counter == s.counter,
        nth_tick(s, 32 * j).second as int == (s.second + j) % 60,
        count_seconds(s, 32 * j) == j,
        count_reencodes(s, 32 * j) == hits_minute_boundary(s.second as int, j),
    decreases j,
{
    if j == 0 {
        lemma_small_mod(s.second as nat, 60);
    } else {
        lemma_minute_blocks(s, (j - 1) as nat);
        let t = nth_tick(s, 32 * ((j - 1) as nat));
        lemma_one_second(t);
        lemma_tick_additive(s, 32 * ((j - 1) as nat), 32);
        assert(32 * j == 32 * (j - 1) + 32);
        let x: int = (s.second + j - 1) % 60;
        lemma_add_mod_noop_right(1, s.second + j - 1, 60);
        assert((1 + x) % 60 == (s.second + j) % 60);
        if x == 59 {
            lemma_mod_self_0(60);
        } else {
            lemma_small_mod((1 + x) as nat, 60);
        }
    }
}

/// Simulating one second's worth of ticks from any reachable state
/// produces exactly one second advance, and -- unless that second is the
/// last of the minute -- exactly one bit shift, whose duty-cycle preset
/// matches the lowest bit of the stored frame.
pub proof fn lemma_second_cadence(s: Scheduler)
    requires
        s.wf(),
    ensures
        count_seconds(s, 32) == 1,
        count_reencodes(s, 32) == (if s.second == 58 {
            1nat
        } else {
            0nat
        }),
        count_shifts(s, 32) == (if s.second == 58 {
            0nat
        } else {
            1nat
        }),
        s.second != 58 ==> nth_tick(s, (31 - s.counter) as nat).spec_tick_duty() == Some(
            if s.frame & 1 == 1 {
                FULL_DUTY
            } else {
                REDUCED_DUTY
            },
        ),
        s.second == 58 ==> nth_tick(s, (31 - s.counter) as nat).spec_tick_duty() == Some(0u32),
{
    lemma_one_second(s);
    lemma_quiet_run(s, (31 - s.counter) as nat);
}

/// Simulating one minute's worth of ticks from any reachable state
/// produces exactly 60 second advances: one minute-boundary re-encode and
/// 59 regular bit shifts.
pub proof fn lemma_minute_cadence(s: Scheduler)
    requires
        s.wf(),
    ensures
        count_seconds(s, 1920) == 60,
        count_reencodes(s, 1920) == 1,
        count_shifts(s, 1920) == 59,
{
    lemma_minute_blocks(s, 60);
    lemma_hits_once(s.second as int, 60);
    lemma_counts_split(s, 1920);
    assert(32 * 60 == 1920);
}

/// The budget for a bounded busy-wait: the requested whole milliseconds,
/// saturating at the widest value a hardware tick counter can hold.
pub fn delay_millis(millis: u128) -> (ms: u32)
    ensures
        ms == (if millis > u32::MAX {
            u32::MAX
        } else {
            millis as u32
        }),
{
    if millis > u32::MAX as u128 {
        u32::MAX
    } else {
        millis as u32
    }
}

/// Renders a stamp and a second as display text in the form
/// `DD.MM.YY HH:MM:SS`.
pub fn render_time(data: &Dcf77Data, second: u8) -> (text: Vec<u8>)
    requires
        data.wf(),
        second < 60,
    ensures
        text@.len() == 17,
        text@[0] == ASCII_ZERO + data.day_of_month_tens,
        text@[1] == ASCII_ZERO + data.day_of_month_ones,
        text@[2] == ASCII_DOT,
        text@[3] == (if data.month_ten {
            ASCII_ONE
        } else {
            ASCII_ZERO
        }),
        text@[4] == ASCII_ZERO + data.month_ones,
        text@[5] == ASCII_DOT,
        text@[6] == ASCII_ZERO + data.year_in_century_tens,
        text@[7] == ASCII_ZERO + data.year_in_century_ones,
        text@[8] == ASCII_SPACE,
        text@[9] == ASCII_ZERO + data.hour_tens,
        text@[10] == ASCII_ZERO + data.hour_ones,
        text@[11] == ASCII_COLON,
        text@[12] == ASCII_ZERO + data.minute_tens,
        text@[13] == ASCII_ZERO + data.minute_ones,
        text@[14] == ASCII_COLON,
        text@[15] == ASCII_ZERO + second / 10,
        text@[16] == ASCII_ZERO + second % 10,
{
    let mut text: Vec<u8> = Vec::new();
    text.push(ASCII_ZERO + data.day_of_month_tens);
    text.push(ASCII_ZERO + data.day_of_month_ones);
    text.push(ASCII_DOT);
    text.push(if data.month_ten { ASCII_ONE } else { ASCII_ZERO });
    text.push(ASCII_ZERO + data.month_ones);
    text.push(ASCII_DOT);
    text.push(ASCII_ZERO + data.year_in_century_tens);
    text.push(ASCII_ZERO + data.year_in_century_ones);
    text.push(ASCII_SPACE);
    text.push(ASCII_ZERO + data.hour_tens);
    text.push(ASCII_ZERO + data.hour_ones);
    text.push(ASCII_COLON);
    text.push(ASCII_ZERO + data.minute_tens);
    text.push(ASCII_ZERO + data.minute_ones);
    text.push(ASCII_COLON);
    text.push(ASCII_ZERO + second / 10);
    text.push(ASCII_ZERO + second % 10);
    text
}

} // verus!
