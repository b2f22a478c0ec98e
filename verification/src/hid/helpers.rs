//! Button events as lines of text, for a console.

use vstd::prelude::*;
use vstd::string::*;
use crate::hid::{ButtonInitializer, HIDEvent, IOState};

verus! {

/// The decimal digit `d` as a character.
pub open spec fn digit_char(d: int) -> char {
    if d == 0 {
        '0'
    } else if d == 1 {
        '1'
    } else if d == 2 {
        '2'
    } else if d == 3 {
        '3'
    } else if d == 4 {
        '4'
    } else if d == 5 {
        '5'
    } else if d == 6 {
        '6'
    } else if d == 7 {
        '7'
    } else if d == 8 {
        '8'
    } else {
        '9'
    }
}

/// A number in decimal, without leading zeros.
pub open spec fn decimal(n: nat) -> Seq<char>
    decreases n,
{
    if n < 10 {
        seq![digit_char(n as int)]
    } else {
        decimal(n / 10).push(digit_char((n % 10) as int))
    }
}

/// The name of the first button that is wired to `code`, among the first
/// `n` buttons; empty if there is none.
pub open spec fn key_of(code: u8, buttons: Seq<ButtonInitializer>, n: int) -> Seq<char>
    decreases buttons.len() - n,
{
    if n >= buttons.len() || n < 0 {
        Seq::<char>::empty()
    } else if buttons[n].code == code {
        buttons[n].key@
    } else {
        key_of(code, buttons, n + 1)
    }
}

/// What is said of each kind of event, between the button's name and its
/// code.
pub open spec fn verb(io_state: IOState) -> Seq<char> {
    match io_state {
        IOState::Pressed => " was pressed code: "@,
        IOState::Released => " was released: code "@,
        IOState::Repeated => " was repeated: code "@,
    }
}

/// The console line for an event: the button's name, what happened, and the
/// button's code.
pub open spec fn console_line(event: HIDEvent, buttons: Seq<ButtonInitializer>) -> Seq<char> {
    key_of(event.code, buttons, 0) + verb(event.io_state) + decimal(event.code as nat)
}

fn digit_str(d: u8) -> (r: &'static str)
    requires
        d < 10,
    ensures
        r@ == seq![digit_char(d as int)],
{
    proof {
        reveal_strlit("0");
        reveal_strlit("1");
        reveal_strlit("2");
        reveal_strlit("3");
        reveal_strlit("4");
        reveal_strlit("5");
        reveal_strlit("6");
        reveal_strlit("7");
        reveal_strlit("8");
        reveal_strlit("9");
    }
    let r: &'static str = match d {
        0 => "0",
        1 => "1",
        2 => "2",
        3 => "3",
        4 => "4",
        5 => "5",
        6 => "6",
        7 => "7",
        8 => "8",
        _ => "9",
    };
    r
}

fn push_decimal(line: &mut String, n: u8)
    ensures
        final(line)@ == old(line)@ + decimal(n as nat),
{
    if n >= 100 {
        line.append(digit_str(n / 100));
    }
    if n >= 10 {
        line.append(digit_str((n / 10) % 10));
    }
    line.append(digit_str(n % 10));
    proof {
        reveal_with_fuel(decimal, 3);
    }
}

fn code_to_key(code: u8, button_initializers: &Vec<ButtonInitializer>) -> (r: &'static str)
    ensures
        r@ == key_of(code, button_initializers@, 0),
{
    let mut i: usize = 0;
    while i < button_initializers.len()
        invariant
            i <= button_initializers.len(),
            key_of(code, button_initializers@, 0) == key_of(code, button_initializers@, i as int),
        decreases button_initializers.len() - i,
    {
        if button_initializers[i].code == code {
            return button_initializers[i].key;
        }
        i = i + 1;
    }
    proof {
        reveal_strlit("");
    }
    let none: &'static str = "";
    none
}

fn line_of(io_state: &IOState, code: u8, key: &str) -> (line: String)
    ensures
        line@ == key@ + verb(*io_state) + decimal(code as nat),
{
    let mut line: String = String::from_str(key);
    match io_state {
        IOState::Pressed => line.append(" was pressed code: "),
        IOState::Released => line.append(" was released: code "),
        IOState::Repeated => line.append(" was repeated: code "),
    }
    push_decimal(&mut line, code);
    line
}

/// The console lines for a batch of events, one for each event in order:
/// the button's name as `button_initializers` gives it for the event's code,
/// what happened, and the code.
pub fn ba_to_console(hid_events: Vec<HIDEvent>, button_initializers: &Vec<ButtonInitializer>) -> (lines:
    Vec<String>)
    ensures
        lines@.len() == hid_events@.len(),
        forall|i: int|
            0 <= i < lines@.len() ==> (#[trigger] lines@[i])@ == console_line(
                hid_events@[i],
                button_initializers@,
            ),
{
    let mut lines: Vec<String> = Vec::new();
    let mut i: usize = 0;
    while i < hid_events.len()
        invariant
            i <= hid_events.len(),
            lines@.len() == i,
            forall|j: int|
                0 <= j < i ==> (#[trigger] lines@[j])@ == console_line(
                    hid_events@[j],
                    button_initializers@,
                ),
        decreases hid_events.len() - i,
    {
        let key: &'static str = code_to_key(hid_events[i].code, button_initializers);
        lines.push(line_of(&hid_events[i].io_state, hid_events[i].code, key));
        i = i + 1;
    }
    lines
}

} // verus!
