//! Events of the button pad: which button, and what happened to it.

use vstd::prelude::*;

pub mod helpers;

verus! {

/// How a button is wired: the pin it is read from, the code that its events
/// carry, and a readable name for it.
pub struct ButtonInitializer {
    pub pin: u8,
    pub code: u8,
    pub key: &'static str,
}

/// What happened to a button.
#[derive(Clone, Copy, Debug, PartialEq, Eq, Structural)]
pub enum IOState {
    Pressed,
    Released,
    Repeated,
}

/// An event of the button with the code `code`.
#[derive(Clone, Copy, Debug, PartialEq, Eq, Structural)]
pub struct HIDEvent {
    pub io_state: IOState,
    pub code: u8,
}

/// The level that a button's pin is read at. A pressed button reads low.
#[derive(Clone, Copy, Debug, PartialEq, Eq, Structural)]
pub enum Level {
    Low,
    High,
}

/// The debounced state of one button.
///
/// A button holds the level that it is taken to be at, the level that it was
/// last read at, and a count of the polls for which it has been held down.
#[derive(Clone, Copy, Debug, PartialEq, Eq, Structural)]
pub struct Button {
    pub state: Level,
    pub possible_state: Level,
    pub code: u8,
    pub repeat: u8,
}

/// Past this many polls a button that is held down repeats.
pub const REPEAT_AFTER: u8 = 20;

/// A held button repeats once in this many polls.
pub const REPEAT_EVERY: u8 = 5;

impl Button {
    /// The count of polls stays below the point where it is next cut back.
    pub open spec fn wf(self) -> bool {
        self.repeat < REPEAT_AFTER + REPEAT_EVERY
    }

    /// The button after a poll, and the event of that poll if there is one.
    ///
    /// A level that differs from the button's is taken over once `reading`,
    /// read now, confirms it; the button is then pressed or released. A
    /// level that is not confirmed is forgotten. A button that rests low
    /// counts the poll, and repeats each time the count comes to 25, from
    /// where it goes back to 20.
    pub open spec fn polled(self, reading: Level) -> (Button, Option<IOState>) {
        if self.possible_state != self.state {
            if reading == self.possible_state {
                (
                    Button { state: self.possible_state, repeat: 0, ..self },
                    Some(
                        if self.possible_state == Level::Low {
                            IOState::Pressed
                        } else {
                            IOState::Released
                        },
                    ),
                )
            } else {
                (Button { possible_state: self.state, ..self }, None)
            }
        } else if self.state == Level::Low {
            let count = self.repeat + 1;
            if count > REPEAT_AFTER && count % (REPEAT_EVERY as int) == 0 {
                (Button { repeat: (count - REPEAT_EVERY) as u8, ..self }, Some(IOState::Repeated))
            } else {
                (Button { repeat: count as u8, ..self }, None)
            }
        } else {
            (self, None)
        }
    }

    /// A button at rest at the level `level`.
    pub fn new(level: Level, code: u8) -> (b: Button)
        ensures
            b == (Button { state: level, possible_state: level, code, repeat: 0 }),
            b.wf(),
    {
        Button { state: level, possible_state: level, code, repeat: 0 }
    }
}

/// A poll never changes which button it is, and keeps the count in range.
pub proof fn lemma_polled_keeps_button(b: Button, reading: Level)
    requires
        b.wf(),
    ensures
        b.polled(reading).0.wf(),
        b.polled(reading).0.code == b.code,
{
}

/// A button changes its level only to a level that was read twice in a row,
/// and says so: it is pressed when it goes low, released when it goes high.
pub proof fn lemma_level_changes_are_confirmed(b: Button, reading: Level)
    ensures
        b.polled(reading).0.state != b.state ==> {
            &&& reading == b.possible_state
            &&& b.polled(reading).0.state == reading
            &&& b.polled(reading).1 == Some(
                if reading == Level::Low {
                    IOState::Pressed
                } else {
                    IOState::Released
                },
            )
        },
        b.polled(reading).1 == Some(IOState::Repeated) ==> b.state == Level::Low && b.polled(
            reading,
        ).0.state == Level::Low,
{
}

/// The buttons after a poll of all of them: each button is polled with its
/// reading from `confirm`, and then remembers its reading from `next`.
pub open spec fn pad_polled(buttons: Seq<Button>, confirm: Seq<Level>, next: Seq<Level>) -> Seq<
    Button,
> {
    Seq::new(
        buttons.len(),
        |i: int| Button { possible_state: next[i], ..buttons[i].polled(confirm[i]).0 },
    )
}

/// The events of the first `n` buttons in a poll of all of them, in the
/// order of the buttons.
pub open spec fn pad_events(buttons: Seq<Button>, confirm: Seq<Level>, n: nat) -> Seq<HIDEvent>
    decreases n,
{
    if n == 0 {
        Seq::<HIDEvent>::empty()
    } else {
        let before = pad_events(buttons, confirm, (n - 1) as nat);
        match buttons[n - 1].polled(confirm[n - 1]).1 {
            Some(io_state) => before.push(HIDEvent { io_state, code: buttons[n - 1].code }),
            None => before,
        }
    }
}

/// Whether all buttons of a pad are well-formed.
pub open spec fn pad_wf(buttons: Seq<Button>) -> bool {
    forall|i: int| 0 <= i < buttons.len() ==> (#[trigger] buttons[i]).wf()
}

/// The buttons of a pad, debounced.
pub struct ButtonPad {
    pub buttons: Vec<Button>,
}

impl ButtonPad {
    /// A pad of one button for each entry of `pins`, at rest at the level
    /// that `levels` gives for it.
    pub fn new(pins: &Vec<ButtonInitializer>, levels: &Vec<Level>) -> (pad: ButtonPad)
        requires
            levels@.len() == pins@.len(),
        ensures
            pad.buttons@ == Seq::new(
                pins@.len(),
                |i: int|
                    Button {
                        state: levels@[i],
                        possible_state: levels@[i],
                        code: pins@[i].code,
                        repeat: 0,
                    },
            ),
            pad_wf(pad.buttons@),
    {
        let mut buttons: Vec<Button> = Vec::with_capacity(pins.len());
        let mut i: usize = 0;
        while i < pins.len()
            invariant
                i <= pins.len(),
                levels@.len() == pins@.len(),
                buttons@.len() == i,
                forall|j: int|
                    0 <= j < i ==> #[trigger] buttons@[j] == (Button {
                        state: levels@[j],
                        possible_state: levels@[j],
                        code: pins@[j].code,
                        repeat: 0,
                    }),
            decreases pins.len() - i,
        {
            buttons.push(Button::new(levels[i], pins[i].code));
            i = i + 1;
        }
        ButtonPad { buttons }
    }

    /// Whether all buttons of the pad are well-formed.
    pub fn is_wf(&self) -> (r: bool)
        ensures
            r == pad_wf(self.buttons@),
    {
        let mut i: usize = 0;
        while i < self.buttons.len()
            invariant
                i <= self.buttons.len(),
                forall|j: int| 0 <= j < i ==> (#[trigger] self.buttons@[j]).wf(),
            decreases self.buttons.len() - i,
        {
            if self.buttons[i].repeat >= REPEAT_AFTER + REPEAT_EVERY {
                return false;
            }
            i = i + 1;
        }
        true
    }

    /// Polls all buttons. `confirm` holds a reading of each pin, taken now;
    /// `next` holds a second reading of each pin, taken after the first
    /// ones, which the buttons remember for the next poll. Returns the
    /// events of this poll, in the order of the buttons.
    pub fn detect_changes(&mut self, confirm: &Vec<Level>, next: &Vec<Level>) -> (hid_events: Vec<
        HIDEvent,
    >)
        requires
            pad_wf(old(self).buttons@),
            confirm@.len() == old(self).buttons@.len(),
            next@.len() == old(self).buttons@.len(),
        ensures
            final(self).buttons@ == pad_polled(old(self).buttons@, confirm@, next@),
            hid_events@ == pad_events(old(self).buttons@, confirm@, old(self).buttons@.len()),
            pad_wf(final(self).buttons@),
    {
        let ghost before = self.buttons@;
        let mut hid_events: Vec<HIDEvent> = Vec::with_capacity(self.buttons.len());
        let mut i: usize = 0;
        while i < self.buttons.len()
            invariant
                i <= self.buttons.len(),
                pad_wf(before),
                self.buttons@.len() == before.len(),
                confirm@.len() == before.len(),
                hid_events@ == pad_events(before, confirm@, i as nat),
                forall|j: int| 0 <= j < i ==> #[trigger] self.buttons@[j] == before[j].polled(confirm@[j]).0,
                forall|j: int| i <= j < before.len() ==> #[trigger] self.buttons@[j] == before[j],
            decreases self.buttons.len() - i,
        {
            let mut button: Button = self.buttons[i];
            let option_io_state: Option<IOState> = ButtonPad::detect_button_changes(
                &mut button,
                confirm[i],
            );
            self.buttons[i] = button;
            match option_io_state {
                Some(io_state) => { hid_events.push(HIDEvent { io_state, code: button.code }); },
                None => (),
            }
            i = i + 1;
        }
        self.detect_possible_changes(next);
        proof {
            assert forall|j: int| 0 <= j < before.len() implies (#[trigger] self.buttons@[j]).wf() by {
                lemma_polled_keeps_button(before[j], confirm@[j]);
            }
        }
        hid_events
    }

    fn detect_possible_changes(&mut self, next: &Vec<Level>)
        requires
            next@.len() == old(self).buttons@.len(),
        ensures
            final(self).buttons@ == Seq::new(
                old(self).buttons@.len(),
                |i: int| Button { possible_state: next@[i], ..old(self).buttons@[i] },
            ),
    {
        let ghost before = self.buttons@;
        let mut i: usize = 0;
        while i < self.buttons.len()
            invariant
                i <= self.buttons.len(),
                self.buttons@.len() == before.len(),
                next@.len() == before.len(),
                forall|j: int|
                    0 <= j < i ==> #[trigger] self.buttons@[j] == (Button {
                        possible_state: next@[j],
                        ..before[j]
                    }),
                forall|j: int| i <= j < before.len() ==> #[trigger] self.buttons@[j] == before[j],
            decreases self.buttons.len() - i,
        {
            let mut button: Button = self.buttons[i];
            button.possible_state = next[i];
            self.buttons[i] = button;
            i = i + 1;
        }
    }

    /// Polls one button with the reading `reading` of its pin, taken now.
    pub fn detect_button_changes(button: &mut Button, reading: Level) -> (r: Option<IOState>)
        requires
            old(button).wf(),
        ensures
            (*final(button), r) == old(button).polled(reading),
            final(button).wf(),
    {
        if button.possible_state != button.state {
            if reading == button.possible_state {
                button.state = button.possible_state;
                button.repeat = 0;
                if button.state == Level::Low {
                    Some(IOState::Pressed)
                } else {
                    Some(IOState::Released)
                }
            } else {
                button.possible_state = button.state;
                None
            }
        } else {
            if button.state == Level::Low {
                button.repeat += 1;
                if button.repeat > REPEAT_AFTER && button.repeat % REPEAT_EVERY == 0 {
                    button.repeat -= REPEAT_EVERY;
                    Some(IOState::Repeated)
                } else {
                    None
                }
            } else {
                None
            }
        }
    }
}

} // verus!
