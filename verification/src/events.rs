//! The plain values that cross the boundary between the terminal
//! collaborators and the core: input events coming in, and the signals going
//! back out to the session loop and the input-capture worker.

use vstd::prelude::*;

verus! {

/// What the input-capture worker sends the session loop: some input, or a
/// tick saying only that time has passed.
pub enum CliEvent<I> {
    /// A real input event.
    Input(I),
    /// The periodic tick.
    Tick,
}

/// Whether the session should end after the current input or keep running.
#[derive(Copy, Clone, Debug, PartialEq, Eq, Structural)]
pub enum InputEvent {
    /// Tear the terminal down and leave.
    Quit,
    /// Keep handling input.
    Continue,
}

/// What the session loop sends the input-capture worker: stop forwarding
/// events while the external editor owns the terminal, or take it up again.
#[derive(Copy, Clone, Debug, PartialEq, Eq, Structural)]
pub enum InputWorkerEvent {
    /// Drop incoming events until resumed.
    Suspend,
    /// Forward events again.
    Resume,
}

/// The identity of a pressed key, as far as the core tells keys apart.
#[derive(Copy, Clone, Debug, PartialEq, Eq, Structural)]
pub enum KeyCode {
    /// A printable character.
    Char(char),
    /// The up arrow.
    Up,
    /// The down arrow.
    Down,
    /// The enter key.
    Enter,
    /// The backspace key.
    Backspace,
    /// Any key the core does not react to.
    Other,
}

/// A key press: its identity and whether control was held.
#[derive(Copy, Clone, Debug, PartialEq, Eq, Structural)]
pub struct KeyEvent {
    /// Which key.
    pub code: KeyCode,
    /// Whether the control modifier was held.
    pub ctrl: bool,
}

/// The scroll direction of a mouse wheel event.
#[derive(Copy, Clone, Debug, PartialEq, Eq, Structural)]
pub enum MouseEventKind {
    /// Wheel up.
    ScrollUp,
    /// Wheel down.
    ScrollDown,
    /// Any mouse event the core does not react to.
    Other,
}

/// A terminal input event, as the core models it.
#[derive(Copy, Clone, Debug, PartialEq, Eq, Structural)]
pub enum TermEvent {
    /// A key press.
    Key(KeyEvent),
    /// A mouse event.
    Mouse(MouseEventKind),
    /// Anything else (a resize, say).
    Other,
}

} // verus!
