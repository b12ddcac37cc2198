//! The terminal driver: what a message of the user interface makes it do.
//!
//! The driver sits between an interactive channel and a terminal emulator.
//! It feeds what the channel sends into the emulator, and turns the
//! messages of the user interface into writes to the channel and changes of
//! the emulator. The emulator, the clipboard and the channel are with the
//! caller; here it is decided what is done with them, and in which order.

pub mod msg;

use vstd::prelude::*;
use crate::errors::{Error, ErrorView};
use crate::terminal::msg::PpTerminalMessage;

verus! {

/// What the emulator says of the selection, and of the point of a message
/// in it.
#[derive(Clone, Copy, Debug, PartialEq, Eq, Structural)]
pub struct SelectionProbe {
    /// There is a selection.
    pub selected: bool,
    /// The selection covers a range of the screen.
    pub ranged: bool,
    /// That range holds the point of the message.
    pub hit: bool,
    /// The selection yields text.
    pub text: bool,
}

/// One thing that the driver does.
#[derive(Debug, PartialEq, Eq)]
pub enum Action {
    /// Feed these bytes of the channel into the emulator.
    Feed(Vec<u8>),
    /// Write these bytes to the channel.
    WritePty(Vec<u8>),
    /// Write the text of the clipboard to the channel.
    PasteClipboard,
    /// Put the text of the selection on the clipboard.
    CopySelection,
    /// Tell the emulator the size of the screen.
    ResizeTerm(usize, usize),
    /// Tell the other side the size of the terminal.
    ResizePty(usize, usize),
    ClearSelection,
    /// Start a selection at this line and column.
    StartSelection(i32, usize),
    /// Move the end of the selection to this line and column.
    UpdateSelection(i32, usize),
    /// Scroll by this many lines.
    Scroll(i32),
    ScrollToBottom,
    /// Draw the screen.
    Draw,
}

/// What the driver does on a press of the copy key, by what the emulator
/// says of the selection.
///
/// A press inside the selection copies it, if it yields text, and clears it
/// then. A press beside the selection clears it. Where no selection is
/// left and nothing was copied, the clipboard is pasted. The screen is
/// drawn in every case.
pub open spec fn copy_actions(probe: SelectionProbe) -> Seq<Action> {
    if !probe.selected {
        seq![Action::PasteClipboard, Action::ClearSelection, Action::ScrollToBottom, Action::Draw]
    } else if !probe.ranged {
        seq![Action::Draw]
    } else if !probe.hit {
        seq![
            Action::ClearSelection,
            Action::PasteClipboard,
            Action::ClearSelection,
            Action::ScrollToBottom,
            Action::Draw,
        ]
    } else if probe.text {
        seq![Action::CopySelection, Action::ClearSelection, Action::Draw]
    } else {
        seq![Action::Draw]
    }
}

/// What the driver does on `message`, in this order; it stops at the first
/// action that fails.
pub open spec fn actions(message: PpTerminalMessage, probe: SelectionProbe) -> Seq<Action> {
    match message {
        PpTerminalMessage::Input(bytes) => seq![
            Action::WritePty(bytes),
            Action::ClearSelection,
            Action::ScrollToBottom,
            Action::Draw,
        ],
        PpTerminalMessage::ReSize(width, height) => seq![
            Action::ResizeTerm(width, height),
            Action::ResizePty(width, height),
        ],
        PpTerminalMessage::Scroll(delta) => seq![Action::Scroll(delta), Action::Draw],
        PpTerminalMessage::SelectionStart(line, column) => seq![
            Action::StartSelection(line, column),
            Action::Draw,
        ],
        PpTerminalMessage::SelectionUpdate(line, column) => if probe.selected {
            seq![Action::UpdateSelection(line, column), Action::Draw]
        } else {
            Seq::empty()
        },
        PpTerminalMessage::Copy(_, _) => copy_actions(probe),
    }
}

/// What the driver does on `message`, where the emulator says `probe` of
/// the selection and the point of the message.
pub fn handle_input(message: PpTerminalMessage, probe: SelectionProbe) -> (r: Vec<Action>)
    ensures
        r@ == actions(message, probe),
{
    let mut out: Vec<Action> = Vec::new();
    match message {
        PpTerminalMessage::Input(bytes) => {
            out.push(Action::WritePty(bytes));
            out.push(Action::ClearSelection);
            out.push(Action::ScrollToBottom);
            out.push(Action::Draw);
        },
        PpTerminalMessage::ReSize(width, height) => {
            out.push(Action::ResizeTerm(width, height));
            out.push(Action::ResizePty(width, height));
        },
        PpTerminalMessage::Scroll(delta) => {
            out.push(Action::Scroll(delta));
            out.push(Action::Draw);
        },
        PpTerminalMessage::SelectionStart(line, column) => {
            out.push(Action::StartSelection(line, column));
            out.push(Action::Draw);
        },
        PpTerminalMessage::SelectionUpdate(line, column) => {
            if probe.selected {
                out.push(Action::UpdateSelection(line, column));
                out.push(Action::Draw);
            }
        },
        PpTerminalMessage::Copy(_, _) => {
            let mut copied = false;
            let mut selected = probe.selected;
            if probe.selected && probe.ranged {
                if probe.hit {
                    if probe.text {
                        out.push(Action::CopySelection);
                        out.push(Action::ClearSelection);
                        copied = true;
                        selected = false;
                    }
                } else {
                    out.push(Action::ClearSelection);
                    selected = false;
                }
            }
            if !copied && !selected {
                out.push(Action::PasteClipboard);
                out.push(Action::ClearSelection);
                out.push(Action::ScrollToBottom);
            }
            out.push(Action::Draw);
        },
    }
    assert(out@ =~= actions(message, probe));
    out
}

/// What the driver meets while it runs.
#[derive(Debug, PartialEq, Eq)]
pub enum Event {
    /// The channel was read: these bytes have come, or the read has failed
    /// with this message.
    Read(Result<Vec<u8>, String>),
    /// The user interface has sent this message, or has gone.
    Message(Option<PpTerminalMessage>),
}

/// What the driver does next.
#[derive(Debug, PartialEq, Eq)]
pub enum Step {
    /// These actions, in this order; then it goes on.
    Go(Vec<Action>),
    /// It shuts the channel down and ends.
    ShutDown,
    /// It ends with this error.
    Fail(Error),
}

/// What the driver does on `event`, where the emulator says `probe` of
/// the selection.
///
/// What the channel sends is fed into the emulator and drawn. A read that
/// fails ends the driver with `ReadPtyError`: the session has ended. A
/// message of the user interface is handled as [`handle_input`] says. When
/// the user interface has gone, the channel is shut down.
pub fn on_event(event: Event, probe: SelectionProbe) -> (r: Step)
    ensures
        match event {
            Event::Read(Ok(bytes)) => r matches Step::Go(a) && a@ == seq![
                Action::Feed(bytes),
                Action::Draw,
            ],
            Event::Read(Err(m)) => r matches Step::Fail(e) && e@ == ErrorView::ReadPtyError(
                "read pty error: "@ + m@,
            ),
            Event::Message(Some(message)) => r matches Step::Go(a) && a@ == actions(message, probe),
            Event::Message(None) => r == Step::ShutDown,
        },
{
    match event {
        Event::Read(Ok(bytes)) => {
            let mut out: Vec<Action> = Vec::new();
            out.push(Action::Feed(bytes));
            out.push(Action::Draw);
            assert(out@ =~= seq![Action::Feed(bytes), Action::Draw]);
            Step::Go(out)
        },
        Event::Read(Err(m)) => {
            let mut text = String::from_str("read pty error: ");
            text.append(m.as_str());
            Step::Fail(Error::ReadPtyError(text))
        },
        Event::Message(Some(message)) => Step::Go(handle_input(message, probe)),
        Event::Message(None) => Step::ShutDown,
    }
}

/// The writes of the driver to the channel.
#[derive(Clone, Copy, Debug, PartialEq, Eq, Structural)]
pub enum PtyWrite {
    /// What was typed.
    Input,
    /// The text of the clipboard.
    Paste,
    /// The new size of the window.
    Resize,
    /// The end of the stream.
    Close,
}

/// The words with which the failure of a write is reported.
pub open spec fn failure_prefix(write: PtyWrite) -> Seq<char> {
    match write {
        PtyWrite::Input => "input to pty error: "@,
        PtyWrite::Paste => "paste to pty error: "@,
        PtyWrite::Resize => "pty resize error: "@,
        PtyWrite::Close => "close channel failed with "@,
    }
}

/// The error that ends the driver after `write` has failed with `message`:
/// `WritePtyError`, with the words for the write before the message.
pub fn write_failed(write: PtyWrite, message: &str) -> (r: Error)
    ensures
        r@ == ErrorView::WritePtyError(failure_prefix(write) + message@),
{
    let mut text = match write {
        PtyWrite::Input => String::from_str("input to pty error: "),
        PtyWrite::Paste => String::from_str("paste to pty error: "),
        PtyWrite::Resize => String::from_str("pty resize error: "),
        PtyWrite::Close => String::from_str("close channel failed with "),
    };
    text.append(message);
    Error::WritePtyError(text)
}

} // verus!
