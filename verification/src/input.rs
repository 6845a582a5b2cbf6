//! Input decoding: the rotary encoder's quadrature signals and its two push
//! buttons become interface events.

use vstd::prelude::*;

verus! {

/// An input event produced by the rotary encoder and its two push buttons.
#[derive(Debug, Clone, Copy, PartialEq, Eq, Structural)]
pub enum EncoderEvent {
    /// One detent clockwise.
    Clockwise,
    /// One detent counter-clockwise.
    CounterClockwise,
    /// The confirm button (the encoder's push switch) went down.
    ConfirmPressed,
    /// The confirm button came back up.
    ConfirmReleased,
    /// The back button went down.
    BackPressed,
    /// The back button came back up.
    BackReleased,
}

// =============================================================================
// Quadrature decoding
// =============================================================================

/// The two encoder pins as a 2-bit state: bit 0 is pin A, bit 1 is pin B
/// (a pin reads 1 when high).
pub open spec fn pin_state(a_high: bool, b_high: bool) -> u8 {
    ((if a_high {
        1int
    } else {
        0int
    }) + (if b_high {
        2int
    } else {
        0int
    })) as u8
}

/// The quarter-step that a transition between pin states makes, by index
/// `new | old << 2`: +1 and -1 for the two directions, 0 for no move or an
/// invalid jump.
pub open spec fn knob_dir(index: int) -> i8 {
    seq![0i8, -1i8, 1i8, 0i8, 1i8, 0i8, 0i8, -1i8, -1i8, 0i8, 0i8, 1i8, 0i8, 1i8, -1i8, 0i8][index]
}

/// The decoder's registers as mathematical values.
pub struct EncoderView {
    /// Quarter-steps counted so far (wrapping at the bounds of `i32`).
    pub position: i32,
    /// Detents at the last time both pins were high.
    pub position_ext: i32,
    /// Detents at the last reported event.
    pub position_ext_prev: i32,
    /// The last pin state seen.
    pub old_state: u8,
}

/// The decoder's invariant: the last pin state is a 2-bit state.
pub open spec fn encoder_wf(s: EncoderView) -> bool {
    s.old_state < 4
}

/// The decoder after the pins read `a_high` and `b_high`, and the event it
/// reports. A change of pin state adds its quarter-step; when both pins are
/// high, the detent count (quarter-steps divided by four, rounded down) is
/// compared with the one last reported and a rotation reported if it moved.
pub open spec fn rotation_step(s: EncoderView, a_high: bool, b_high: bool) -> (
    EncoderView,
    Option<EncoderEvent>,
) {
    let this = pin_state(a_high, b_high);
    if s.old_state == this {
        (s, None)
    } else {
        let pos = vstd::wrapping::i32_specs::wrapping_add(
            s.position,
            knob_dir(this + 4 * s.old_state) as i32,
        );
        if this == 3 {
            let ext = pos >> 2u32;
            if ext > s.position_ext_prev {
                (
                    EncoderView {
                        position: pos,
                        position_ext: ext,
                        position_ext_prev: ext,
                        old_state: this,
                    },
                    Some(EncoderEvent::Clockwise),
                )
            } else if ext < s.position_ext_prev {
                (
                    EncoderView {
                        position: pos,
                        position_ext: ext,
                        position_ext_prev: ext,
                        old_state: this,
                    },
                    Some(EncoderEvent::CounterClockwise),
                )
            } else {
                (EncoderView { position: pos, position_ext: ext, old_state: this, ..s }, None)
            }
        } else {
            (EncoderView { position: pos, old_state: this, ..s }, None)
        }
    }
}

/// The quarter-step of a transition, by its index `new | old << 2`.
fn knob_delta(index: u8) -> (r: i8)
    requires
        index < 16,
    ensures
        r == knob_dir(index as int),
{
    let table: [i8; 16] = [0, -1, 1, 0, 1, 0, 0, -1, -1, 0, 0, 1, 0, 1, -1, 0];
    assert(table@ =~= seq![0i8, -1i8, 1i8, 0i8, 1i8, 0i8, 0i8, -1i8, -1i8, 0i8, 0i8, 1i8, 0i8, 1i8, -1i8, 0i8]);
    table[index as usize]
}

/// The quadrature decoder of the rotary encoder.
pub struct EncoderState {
    position: i32,
    position_ext: i32,
    position_ext_prev: i32,
    old_state: u8,
}

impl View for EncoderState {
    type V = EncoderView;

    closed spec fn view(&self) -> EncoderView {
        EncoderView {
            position: self.position,
            position_ext: self.position_ext,
            position_ext_prev: self.position_ext_prev,
            old_state: self.old_state,
        }
    }
}

impl EncoderState {
    /// A decoder with nothing counted and both pins last seen low.
    pub fn new() -> (r: Self)
        ensures
            r@ == (EncoderView { position: 0, position_ext: 0, position_ext_prev: 0, old_state: 0 }),
    {
        EncoderState { position: 0, position_ext: 0, position_ext_prev: 0, old_state: 0 }
    }

    /// Takes in a new reading of the pins (after an edge on either); returns
    /// the rotation it completes, if any.
    pub fn on_pins(&mut self, a_high: bool, b_high: bool) -> (r: Option<EncoderEvent>)
        requires
            encoder_wf(old(self)@),
        ensures
            encoder_wf(final(self)@),
            (final(self)@, r) == rotation_step(old(self)@, a_high, b_high),
    {
        let sig1: u8 = if a_high {
            1
        } else {
            0
        };
        let sig2: u8 = if b_high {
            1
        } else {
            0
        };
        let this_state: u8 = sig1 | (sig2 << 1);
        assert(this_state == pin_state(a_high, b_high)) by (bit_vector)
            requires
                sig1 == (if a_high {
                    1u8
                } else {
                    0u8
                }),
                sig2 == (if b_high {
                    1u8
                } else {
                    0u8
                }),
                this_state == sig1 | (sig2 << 1),
        ;
        if self.old_state != this_state {
            let old: u8 = self.old_state;
            let index: u8 = this_state | (old << 2);
            assert(index == this_state + 4 * old && index < 16) by (bit_vector)
                requires
                    this_state < 4,
                    old < 4,
                    index == this_state | (old << 2),
            ;
            let delta = knob_delta(index);
            self.position = self.position.wrapping_add(delta as i32);
            self.old_state = this_state;
            if this_state == 3 {
                self.position_ext = self.position >> 2;
                if self.position_ext > self.position_ext_prev {
                    self.position_ext_prev = self.position_ext;
                    return Some(EncoderEvent::Clockwise);
                } else if self.position_ext < self.position_ext_prev {
                    self.position_ext_prev = self.position_ext;
                    return Some(EncoderEvent::CounterClockwise);
                }
            }
        }
        None
    }
}

/// Law: one detent clockwise (pin states 3, 1, 0, 2, 3 from rest, both pins
/// high, on a whole detent) reports exactly one `Clockwise`, at its end, and
/// rests on the next detent; likewise one detent counter-clockwise (3, 2, 0,
/// 1, 3) reports exactly one `CounterClockwise`. The count is kept away from
/// the bounds of `i32`, where it wraps.
pub proof fn law_one_event_per_detent(s: EncoderView)
    requires
        s.old_state == 3,
        s.position as int == 4 * (s.position_ext_prev as int),
        i32::MIN + 4 <= s.position <= i32::MAX - 4,
    ensures
        ({
            let (s1, e1) = rotation_step(s, true, false);
            let (s2, e2) = rotation_step(s1, false, false);
            let (s3, e3) = rotation_step(s2, false, true);
            let (s4, e4) = rotation_step(s3, true, true);
            &&& e1 is None && e2 is None && e3 is None
            &&& e4 == Some(EncoderEvent::Clockwise)
            &&& s4.old_state == 3
            &&& s4.position == s.position + 4
            &&& s4.position_ext_prev == s.position_ext_prev + 1
        }),
        ({
            let (s1, e1) = rotation_step(s, false, true);
            let (s2, e2) = rotation_step(s1, false, false);
            let (s3, e3) = rotation_step(s2, true, false);
            let (s4, e4) = rotation_step(s3, true, true);
            &&& e1 is None && e2 is None && e3 is None
            &&& e4 == Some(EncoderEvent::CounterClockwise)
            &&& s4.old_state == 3
            &&& s4.position == s.position - 4
            &&& s4.position_ext_prev == s.position_ext_prev - 1
        }),
{
    let p = s.position;
    let q = s.position_ext_prev;
    assert((p + 4) as i32 >> 2u32 == q + 1) by (bit_vector)
        requires
            p as int == 4 * (q as int),
            p <= i32::MAX - 4,
            p >= i32::MIN + 4,
    ;
    assert((p - 4) as i32 >> 2u32 == q - 1) by (bit_vector)
        requires
            p as int == 4 * (q as int),
            p <= i32::MAX - 4,
            p >= i32::MIN + 4,
    ;
}

// =============================================================================
// Push buttons
// =============================================================================

/// Debouncing state of a push button: whether a press has been reported
/// and its release not yet.
pub struct ButtonState {
    pressed: bool,
}

impl View for ButtonState {
    /// Whether the button is reported down.
    type V = bool;

    closed spec fn view(&self) -> bool {
        self.pressed
    }
}

impl ButtonState {
    /// A button reported up.
    pub fn new() -> (r: Self)
        ensures
            !r@,
    {
        ButtonState { pressed: false }
    }

    /// A falling edge on the button's pin: reports a press, unless one is
    /// reported already.
    pub fn on_falling_edge(&mut self) -> (r: bool)
        ensures
            r == !old(self)@,
            final(self)@,
    {
        if !self.pressed {
            self.pressed = true;
            true
        } else {
            false
        }
    }

    /// Polls the pin after each wake-up: reports a release when the button
    /// is reported down and its pin reads high again.
    pub fn poll_release(&mut self, pin_high: bool) -> (r: bool)
        ensures
            r == (old(self)@ && pin_high),
            final(self)@ == (old(self)@ && !pin_high),
    {
        if self.pressed && pin_high {
            self.pressed = false;
            true
        } else {
            false
        }
    }
}

// =============================================================================
// The whole input device
// =============================================================================

/// Which of the awaited pin edges woke the input task.
#[derive(Debug, Clone, Copy, PartialEq, Eq, Structural)]
pub enum Wake {
    /// An edge on encoder pin A.
    PinA,
    /// An edge on encoder pin B.
    PinB,
    /// A falling edge on the confirm button.
    Confirm,
    /// A falling edge on the back button.
    Back,
}

/// The decoder state of the encoder and its two buttons.
pub struct InputDecoder {
    encoder: EncoderState,
    confirm: ButtonState,
    back: ButtonState,
}

/// The input decoder as mathematical values.
pub struct InputView {
    /// The quadrature decoder.
    pub encoder: EncoderView,
    /// Whether the confirm button is reported down.
    pub confirm_down: bool,
    /// Whether the back button is reported down.
    pub back_down: bool,
}

impl View for InputDecoder {
    type V = InputView;

    closed spec fn view(&self) -> InputView {
        InputView { encoder: self.encoder@, confirm_down: self.confirm@, back_down: self.back@ }
    }
}

/// The decoder after `wake` with the encoder pins reading `a_high` and
/// `b_high`, and the event it reports: a pin edge decodes the rotation, a
/// button edge reports a press of a button that is up.
pub open spec fn wake_step(v: InputView, wake: Wake, a_high: bool, b_high: bool) -> (
    InputView,
    Option<EncoderEvent>,
) {
    match wake {
        Wake::PinA | Wake::PinB => {
            let (e, r) = rotation_step(v.encoder, a_high, b_high);
            (InputView { encoder: e, ..v }, r)
        },
        Wake::Confirm => (
            InputView { confirm_down: true, ..v },
            if v.confirm_down {
                None
            } else {
                Some(EncoderEvent::ConfirmPressed)
            },
        ),
        Wake::Back => (
            InputView { back_down: true, ..v },
            if v.back_down {
                None
            } else {
                Some(EncoderEvent::BackPressed)
            },
        ),
    }
}

/// The releases that the button pins reading `confirm_high` and `back_high`
/// report: the confirm button first, then the back button.
pub open spec fn release_events(v: InputView, confirm_high: bool, back_high: bool) -> Seq<
    EncoderEvent,
> {
    (if v.confirm_down && confirm_high {
        seq![EncoderEvent::ConfirmReleased]
    } else {
        Seq::empty()
    }) + (if v.back_down && back_high {
        seq![EncoderEvent::BackReleased]
    } else {
        Seq::empty()
    })
}

impl InputDecoder {
    /// Both buttons up, nothing counted.
    pub fn new() -> (r: Self)
        ensures
            r@ == (InputView {
                encoder: EncoderView {
                    position: 0,
                    position_ext: 0,
                    position_ext_prev: 0,
                    old_state: 0,
                },
                confirm_down: false,
                back_down: false,
            }),
    {
        InputDecoder { encoder: EncoderState::new(), confirm: ButtonState::new(), back: ButtonState::new() }
    }

    /// The decoder's invariant.
    pub open spec fn wf(&self) -> bool {
        encoder_wf(self@.encoder)
    }

    /// Handles the edge that woke the input task; `a_high` and `b_high` are
    /// the encoder pins read right after it.
    pub fn on_wake(&mut self, wake: Wake, a_high: bool, b_high: bool) -> (r: Option<EncoderEvent>)
        requires
            old(self).wf(),
        ensures
            final(self).wf(),
            (final(self)@, r) == wake_step(old(self)@, wake, a_high, b_high),
    {
        match wake {
            Wake::PinA | Wake::PinB => self.encoder.on_pins(a_high, b_high),
            Wake::Confirm => {
                if self.confirm.on_falling_edge() {
                    Some(EncoderEvent::ConfirmPressed)
                } else {
                    None
                }
            },
            Wake::Back => {
                if self.back.on_falling_edge() {
                    Some(EncoderEvent::BackPressed)
                } else {
                    None
                }
            },
        }
    }

    /// Polls the button pins after each wake-up; returns the releases, the
    /// confirm button's first.
    pub fn poll_releases(&mut self, confirm_high: bool, back_high: bool) -> (r: Vec<EncoderEvent>)
        requires
            old(self).wf(),
        ensures
            final(self).wf(),
            r@ == release_events(old(self)@, confirm_high, back_high),
            final(self)@ == (InputView {
                confirm_down: old(self)@.confirm_down && !confirm_high,
                back_down: old(self)@.back_down && !back_high,
                ..old(self)@
            }),
    {
        let mut events: Vec<EncoderEvent> = Vec::new();
        if self.confirm.poll_release(confirm_high) {
            events.push(EncoderEvent::ConfirmReleased);
        }
        if self.back.poll_release(back_high) {
            events.push(EncoderEvent::BackReleased);
        }
        assert(events@ =~= release_events(old(self)@, confirm_high, back_high));
        events
    }
}

/// Law: each button's events alternate. A press is reported only while the
/// button is up and leaves it down; a release only while it is down, and
/// leaves it up; nothing else changes a button's state.
pub proof fn law_press_release_alternate(
    v: InputView,
    wake: Wake,
    a_high: bool,
    b_high: bool,
    confirm_high: bool,
    back_high: bool,
)
    ensures
        ({
            let (w, e) = wake_step(v, wake, a_high, b_high);
            &&& e == Some(EncoderEvent::ConfirmPressed) ==> !v.confirm_down && w.confirm_down
            &&& e == Some(EncoderEvent::BackPressed) ==> !v.back_down && w.back_down
            &&& w.confirm_down != v.confirm_down ==> e == Some(EncoderEvent::ConfirmPressed)
            &&& w.back_down != v.back_down ==> e == Some(EncoderEvent::BackPressed)
        }),
        release_events(v, confirm_high, back_high).contains(EncoderEvent::ConfirmReleased)
            <==> v.confirm_down && confirm_high,
        release_events(v, confirm_high, back_high).contains(EncoderEvent::BackReleased)
            <==> v.back_down && back_high,
{
    let r = release_events(v, confirm_high, back_high);
    if v.confirm_down && confirm_high {
        assert(r[0] == EncoderEvent::ConfirmReleased);
    }
    if v.back_down && back_high {
        assert(r[r.len() - 1] == EncoderEvent::BackReleased);
    }
    match wake {
        Wake::PinA | Wake::PinB => {
            let (e, ev) = rotation_step(v.encoder, a_high, b_high);
            assert(ev is None || ev == Some(EncoderEvent::Clockwise) || ev == Some(
                EncoderEvent::CounterClockwise,
            ));
        },
        _ => {},
    }
}

} // verus!
