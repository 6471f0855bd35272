use ebyte_e32_ui::session::{
    is_exit_line_exec, plan_transmissions, send_step, LineEvent, SendAction, StopReason,
};

#[test]
fn ordinary_line_is_transmitted_with_newline() {
    let action = send_step(LineEvent::Line(b"hello".to_vec()));
    assert_eq!(action, SendAction::Transmit(b"hello\n".to_vec()));
}

#[test]
fn empty_line_is_transmitted_as_bare_newline() {
    let action = send_step(LineEvent::Line(Vec::new()));
    assert_eq!(action, SendAction::Transmit(b"\n".to_vec()));
}

#[test]
fn exit_stops_without_transmitting() {
    let action = send_step(LineEvent::Line(b"exit".to_vec()));
    assert_eq!(action, SendAction::Stop(StopReason::Requested));
}

#[test]
fn quit_stops_without_transmitting() {
    let action = send_step(LineEvent::Line(b"quit".to_vec()));
    assert_eq!(action, SendAction::Stop(StopReason::Requested));
}

#[test]
fn exit_commands_are_case_sensitive() {
    let action = send_step(LineEvent::Line(b"Exit".to_vec()));
    assert_eq!(action, SendAction::Transmit(b"Exit\n".to_vec()));
    let action = send_step(LineEvent::Line(b"QUIT".to_vec()));
    assert_eq!(action, SendAction::Transmit(b"QUIT\n".to_vec()));
}

#[test]
fn exit_commands_must_match_exactly() {
    let action = send_step(LineEvent::Line(b"exit ".to_vec()));
    assert_eq!(action, SendAction::Transmit(b"exit \n".to_vec()));
    let action = send_step(LineEvent::Line(b"quitter".to_vec()));
    assert_eq!(action, SendAction::Transmit(b"quitter\n".to_vec()));
}

#[test]
fn interrupt_stops_gracefully() {
    assert_eq!(
        send_step(LineEvent::Interrupted),
        SendAction::Stop(StopReason::Interrupted)
    );
}

#[test]
fn end_of_input_stops_gracefully() {
    assert_eq!(
        send_step(LineEvent::EndOfInput),
        SendAction::Stop(StopReason::EndOfInput)
    );
}

#[test]
fn editor_failure_stops_the_loop() {
    assert_eq!(
        send_step(LineEvent::Failed),
        SendAction::Stop(StopReason::Failed)
    );
}

#[test]
fn is_exit_line_recognizes_both_words_only() {
    assert!(is_exit_line_exec(b"exit"));
    assert!(is_exit_line_exec(b"quit"));
    assert!(!is_exit_line_exec(b""));
    assert!(!is_exit_line_exec(b"exi"));
    assert!(!is_exit_line_exec(b"exits"));
    assert!(!is_exit_line_exec(b"Quit"));
}

#[test]
fn one_transmission_per_accepted_line() {
    let lines = vec![
        b"alpha".to_vec(),
        b"beta".to_vec(),
        b"gamma".to_vec(),
    ];
    let sent = plan_transmissions(&lines);
    assert_eq!(sent.len(), lines.len());
    assert_eq!(sent[0], b"alpha\n".to_vec());
    assert_eq!(sent[1], b"beta\n".to_vec());
    assert_eq!(sent[2], b"gamma\n".to_vec());
}

#[test]
fn exit_in_the_middle_stops_the_session() {
    let lines = vec![
        b"one".to_vec(),
        b"two".to_vec(),
        b"quit".to_vec(),
        b"three".to_vec(),
    ];
    let sent = plan_transmissions(&lines);
    assert_eq!(sent.len(), 2);
    assert_eq!(sent[0], b"one\n".to_vec());
    assert_eq!(sent[1], b"two\n".to_vec());
}

#[test]
fn exit_as_first_line_transmits_nothing() {
    let lines = vec![b"exit".to_vec(), b"payload".to_vec()];
    let sent = plan_transmissions(&lines);
    assert!(sent.is_empty());
}

#[test]
fn no_lines_no_transmissions() {
    let sent = plan_transmissions(&Vec::new());
    assert!(sent.is_empty());
}
