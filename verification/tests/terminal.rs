use pangpang::errors::Error;
use pangpang::terminal::msg::PpTerminalMessage;
use pangpang::terminal::{
    handle_input, on_event, write_failed, Action, Event, PtyWrite, SelectionProbe, Step,
};

fn probe(selected: bool, ranged: bool, hit: bool, text: bool) -> SelectionProbe {
    SelectionProbe { selected, ranged, hit, text }
}

const NONE: SelectionProbe = SelectionProbe { selected: false, ranged: false, hit: false, text: false };

#[test]
fn input_is_written_and_the_view_follows() {
    assert_eq!(
        handle_input(PpTerminalMessage::Input(b"ls\n".to_vec()), NONE),
        vec![
            Action::WritePty(b"ls\n".to_vec()),
            Action::ClearSelection,
            Action::ScrollToBottom,
            Action::Draw
        ]
    );
}

#[test]
fn resize_goes_to_the_emulator_and_to_the_other_side() {
    assert_eq!(
        handle_input(PpTerminalMessage::ReSize(100, 40), NONE),
        vec![Action::ResizeTerm(100, 40), Action::ResizePty(100, 40)]
    );
}

#[test]
fn scroll_and_selection_are_drawn() {
    assert_eq!(
        handle_input(PpTerminalMessage::Scroll(-3), NONE),
        vec![Action::Scroll(-3), Action::Draw]
    );
    assert_eq!(
        handle_input(PpTerminalMessage::SelectionStart(2, 5), NONE),
        vec![Action::StartSelection(2, 5), Action::Draw]
    );
    assert_eq!(handle_input(PpTerminalMessage::SelectionUpdate(2, 9), NONE), vec![]);
    assert_eq!(
        handle_input(PpTerminalMessage::SelectionUpdate(2, 9), probe(true, true, false, true)),
        vec![Action::UpdateSelection(2, 9), Action::Draw]
    );
}

#[test]
fn copy_key_copies_inside_the_selection_and_pastes_elsewhere() {
    let copy = || PpTerminalMessage::Copy(1, 1);
    let paste = vec![
        Action::PasteClipboard,
        Action::ClearSelection,
        Action::ScrollToBottom,
        Action::Draw,
    ];
    assert_eq!(handle_input(copy(), NONE), paste);
    assert_eq!(handle_input(copy(), probe(false, true, true, true)), paste);
    assert_eq!(
        handle_input(copy(), probe(true, true, true, true)),
        vec![Action::CopySelection, Action::ClearSelection, Action::Draw]
    );
    assert_eq!(handle_input(copy(), probe(true, true, true, false)), vec![Action::Draw]);
    assert_eq!(handle_input(copy(), probe(true, false, true, true)), vec![Action::Draw]);
    assert_eq!(
        handle_input(copy(), probe(true, true, false, true)),
        vec![
            Action::ClearSelection,
            Action::PasteClipboard,
            Action::ClearSelection,
            Action::ScrollToBottom,
            Action::Draw
        ]
    );
}

#[test]
fn channel_data_is_fed_and_drawn() {
    assert_eq!(
        on_event(Event::Read(Ok(b"abc".to_vec())), NONE),
        Step::Go(vec![Action::Feed(b"abc".to_vec()), Action::Draw])
    );
    assert_eq!(
        on_event(Event::Read(Ok(Vec::new())), NONE),
        Step::Go(vec![Action::Feed(Vec::new()), Action::Draw])
    );
}

#[test]
fn failed_read_ends_the_driver() {
    assert_eq!(
        on_event(Event::Read(Err("UnexpectedEof".to_string())), NONE),
        Step::Fail(Error::ReadPtyError("read pty error: UnexpectedEof".to_string()))
    );
}

#[test]
fn messages_are_handled_and_the_end_of_messages_shuts_down() {
    assert_eq!(
        on_event(Event::Message(Some(PpTerminalMessage::Scroll(1))), NONE),
        Step::Go(vec![Action::Scroll(1), Action::Draw])
    );
    assert_eq!(on_event(Event::Message(None), NONE), Step::ShutDown);
}

#[test]
fn failed_writes_are_reported_in_their_own_words() {
    assert_eq!(
        write_failed(PtyWrite::Input, "broken pipe"),
        Error::WritePtyError("input to pty error: broken pipe".to_string())
    );
    assert_eq!(
        write_failed(PtyWrite::Paste, "broken pipe"),
        Error::WritePtyError("paste to pty error: broken pipe".to_string())
    );
    assert_eq!(
        write_failed(PtyWrite::Resize, "closed"),
        Error::WritePtyError("pty resize error: closed".to_string())
    );
    assert_eq!(
        write_failed(PtyWrite::Close, "closed"),
        Error::WritePtyError("close channel failed with closed".to_string())
    );
}
