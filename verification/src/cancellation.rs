//! The keys that break a request off.
use vstd::prelude::*;

verus! {

/// A key, as far as it matters here.
#[derive(Debug, Clone, Copy, PartialEq, Eq, Structural)]
pub enum Key {
    Escape,
    Char { c: char, control: bool },
    Other,
}

/// Something that happened at the terminal.
#[derive(Debug, Clone, Copy, PartialEq, Eq, Structural)]
pub enum TerminalEvent {
    Pressed(Key),
    Released(Key),
    Mouse,
    Resize,
    /// Nothing happened in time, or reading failed.
    Nothing,
}

/// Whether an event breaks the request off: Escape, or C with the control key.
pub open spec fn cancels(e: TerminalEvent) -> bool {
    e == TerminalEvent::Pressed(Key::Escape) || e == TerminalEvent::Pressed(
        Key::Char { c: 'c', control: true },
    )
}

/// Whether an event breaks the request off.
pub fn is_cancel(e: TerminalEvent) -> (r: bool)
    ensures
        r == cancels(e),
{
    match e {
        TerminalEvent::Pressed(Key::Escape) => true,
        TerminalEvent::Pressed(Key::Char { c, control }) => c == 'c' && control,
        _ => false,
    }
}

/// The two keys that break a request off when they are pressed; no other key does, the same keys do not
/// when they are let go, and neither does anything else.
pub proof fn law_keys_that_cancel(key: Key, c: char, control: bool)
    ensures
        cancels(TerminalEvent::Pressed(Key::Escape)),
        cancels(TerminalEvent::Pressed(Key::Char { c: 'c', control: true })),
        c != 'c' || !control ==> !cancels(TerminalEvent::Pressed(Key::Char { c, control })),
        !cancels(TerminalEvent::Pressed(Key::Other)),
        !cancels(TerminalEvent::Released(key)),
        !cancels(TerminalEvent::Mouse),
        !cancels(TerminalEvent::Resize),
        !cancels(TerminalEvent::Nothing),
{
}

} // verus!
