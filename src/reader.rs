use vstd::prelude::*;

use crate::info::Kind;
use crate::input::{AjazzInput, DeviceStateUpdate, InputView};

verus! {

/// Events for a new button snapshot against the previous one, over the
/// first `n` indices: a key pressed now and not before goes down; a key
/// pressed now and before is reported up.
pub open spec fn button_events(now: Seq<bool>, before: Seq<bool>, n: nat) -> Seq<DeviceStateUpdate>
    decreases n,
{
    if n == 0 {
        Seq::empty()
    } else {
        let i = (n - 1) as nat;
        let prev = button_events(now, before, i);
        if now[i as int] && !before[i as int] {
            prev.push(DeviceStateUpdate::ButtonDown(i as u8))
        } else if now[i as int] && before[i as int] {
            prev.push(DeviceStateUpdate::ButtonUp(i as u8))
        } else {
            prev
        }
    }
}

/// Events for an encoder snapshot over the first `n` indices: every
/// encoder pressed now goes down and up at once.
pub open spec fn encoder_events(now: Seq<bool>, n: nat) -> Seq<DeviceStateUpdate>
    decreases n,
{
    if n == 0 {
        Seq::empty()
    } else {
        let i = (n - 1) as nat;
        let prev = encoder_events(now, i);
        if now[i as int] {
            prev.push(DeviceStateUpdate::EncoderDown(i as u8)).push(
                DeviceStateUpdate::EncoderUp(i as u8),
            )
        } else {
            prev
        }
    }
}

/// Events for encoder twists over the first `n` indices: one per nonzero
/// tick count.
pub open spec fn twist_events(ticks: Seq<i8>, n: nat) -> Seq<DeviceStateUpdate>
    decreases n,
{
    if n == 0 {
        Seq::empty()
    } else {
        let i = (n - 1) as nat;
        let prev = twist_events(ticks, i);
        if ticks[i as int] != 0 {
            prev.push(DeviceStateUpdate::EncoderTwist(i as u8, ticks[i as int]))
        } else {
            prev
        }
    }
}

pub open spec fn min_len(a: nat, b: nat) -> nat {
    if a < b {
        a
    } else {
        b
    }
}

/// The last observed snapshot of a device's buttons and encoders.
pub struct DeviceState {
    /// Button states, one per key
    pub buttons: Vec<bool>,
    /// Encoder press states, one per encoder
    pub encoders: Vec<bool>,
}

impl DeviceState {
    /// The events that an input gives against this state.
    pub open spec fn spec_events(&self, input: InputView) -> Seq<DeviceStateUpdate> {
        match input {
            InputView::NoData => Seq::empty(),
            InputView::Buttons(b) => button_events(b, self.buttons@, min_len(b.len(), self.buttons@.len())),
            InputView::Encoders(e) => encoder_events(e, min_len(e.len(), self.encoders@.len())),
            InputView::Twist(t) => twist_events(t, t.len()),
        }
    }

    /// A state with nothing pressed, sized for the kind.
    pub fn new(kind: &Kind) -> (r: DeviceState)
        ensures
            r.buttons@ == Seq::new(kind.key_count() as nat, |i: int| false),
            r.encoders@ == Seq::new(kind.encoder_count() as nat, |i: int| false),
    {
        let buttons = vec![false; kind.key_count() as usize];
        let encoders = vec![false; kind.encoder_count() as usize];
        assert(buttons@ =~= Seq::new(kind.key_count() as nat, |i: int| false));
        assert(encoders@ =~= Seq::new(kind.encoder_count() as nat, |i: int| false));
        DeviceState { buttons, encoders }
    }

    /// Compares an input with the stored snapshot and returns the events.
    /// A button or encoder snapshot replaces the stored one; twists and
    /// empty inputs leave it as it is.
    pub fn update(&mut self, input: AjazzInput) -> (r: Vec<DeviceStateUpdate>)
        ensures
            r@ == old(self).spec_events(input@),
            final(self).buttons@ == (match input@ {
                InputView::Buttons(b) => b,
                _ => old(self).buttons@,
            }),
            final(self).encoders@ == (match input@ {
                InputView::Encoders(e) => e,
                _ => old(self).encoders@,
            }),
    {
        let mut updates: Vec<DeviceStateUpdate> = Vec::new();
        match input {
            AjazzInput::ButtonStateChange(buttons) => {
                let n = if buttons.len() < self.buttons.len() {
                    buttons.len()
                } else {
                    self.buttons.len()
                };
                let mut i: usize = 0;
                while i < n
                    invariant
                        n <= buttons@.len(),
                        n <= self.buttons@.len(),
                        i <= n,
                        updates@ == button_events(buttons@, self.buttons@, i as nat),
                    decreases n - i,
                {
                    let their = buttons[i];
                    let mine = self.buttons[i];
                    if their && !mine {
                        updates.push(DeviceStateUpdate::ButtonDown(i as u8));
                    } else if their && mine {
                        updates.push(DeviceStateUpdate::ButtonUp(i as u8));
                    }
                    i = i + 1;
                }
                self.buttons = buttons;
            },
            AjazzInput::EncoderStateChange(encoders) => {
                let n = if encoders.len() < self.encoders.len() {
                    encoders.len()
                } else {
                    self.encoders.len()
                };
                let mut i: usize = 0;
                while i < n
                    invariant
                        n <= encoders@.len(),
                        i <= n,
                        updates@ == encoder_events(encoders@, i as nat),
                    decreases n - i,
                {
                    if encoders[i] {
                        updates.push(DeviceStateUpdate::EncoderDown(i as u8));
                        updates.push(DeviceStateUpdate::EncoderUp(i as u8));
                    }
                    i = i + 1;
                }
                self.encoders = encoders;
            },
            AjazzInput::EncoderTwist(twist) => {
                let n = twist.len();
                let mut i: usize = 0;
                while i < n
                    invariant
                        n == twist@.len(),
                        i <= n,
                        updates@ == twist_events(twist@, i as nat),
                    decreases n - i,
                {
                    if twist[i] != 0 {
                        updates.push(DeviceStateUpdate::EncoderTwist(i as u8, twist[i]));
                    }
                    i = i + 1;
                }
            },
            AjazzInput::NoData => {},
        }
        updates
    }
}

} // verus!
