use serial_bridge::escape::{escape_state_machine, EscapeState, NextStep};

fn feed(bytes: &[u8]) -> (EscapeState, Vec<NextStep>) {
    let mut state = EscapeState::WaitForEnter;
    let mut steps = Vec::new();
    for b in bytes {
        let step = escape_state_machine(b, &mut state);
        steps.push(step);
        if step == NextStep::LoopBreak {
            break;
        }
    }
    (state, steps)
}

#[test]
fn wait_for_enter_line_breaks_arm() {
    for b in [b'\r', b'\n'] {
        let mut s = EscapeState::WaitForEnter;
        assert_eq!(escape_state_machine(&b, &mut s), NextStep::Proceed);
        assert_eq!(s, EscapeState::WaitForEscapeChar);
    }
}

#[test]
fn wait_for_enter_other_stays() {
    let mut s = EscapeState::WaitForEnter;
    assert_eq!(escape_state_machine(&b'~', &mut s), NextStep::Proceed);
    assert_eq!(s, EscapeState::WaitForEnter);
}

#[test]
fn wait_for_escape_char_transitions() {
    let mut s = EscapeState::WaitForEscapeChar;
    assert_eq!(escape_state_machine(&b'~', &mut s), NextStep::LoopContinue);
    assert_eq!(s, EscapeState::ReadyForCommand);

    let mut s = EscapeState::WaitForEscapeChar;
    assert_eq!(escape_state_machine(&b'\r', &mut s), NextStep::Proceed);
    assert_eq!(s, EscapeState::WaitForEscapeChar);

    let mut s = EscapeState::WaitForEscapeChar;
    assert_eq!(escape_state_machine(&b'\n', &mut s), NextStep::Proceed);
    assert_eq!(s, EscapeState::WaitForEnter);

    let mut s = EscapeState::WaitForEscapeChar;
    assert_eq!(escape_state_machine(&b'a', &mut s), NextStep::Proceed);
    assert_eq!(s, EscapeState::WaitForEnter);
}

#[test]
fn ready_for_command_transitions() {
    let mut s = EscapeState::ReadyForCommand;
    assert_eq!(escape_state_machine(&b'.', &mut s), NextStep::LoopBreak);

    let mut s = EscapeState::ReadyForCommand;
    assert_eq!(escape_state_machine(&b'\r', &mut s), NextStep::Proceed);
    assert_eq!(s, EscapeState::WaitForEscapeChar);

    let mut s = EscapeState::ReadyForCommand;
    assert_eq!(escape_state_machine(&b'x', &mut s), NextStep::Proceed);
    assert_eq!(s, EscapeState::WaitForEnter);
}

#[test]
fn enter_tilde_dot_terminates() {
    let (_, steps) = feed(b"hello\r~.");
    assert_eq!(steps.last(), Some(&NextStep::LoopBreak));
    let (_, steps) = feed(b"\n~.");
    assert_eq!(steps, vec![NextStep::Proceed, NextStep::LoopContinue, NextStep::LoopBreak]);
}

#[test]
fn tilde_dot_without_line_break_does_not_terminate() {
    let (state, steps) = feed(b"ab~.");
    assert!(!steps.contains(&NextStep::LoopBreak));
    assert_eq!(state, EscapeState::WaitForEnter);
}

#[test]
fn disqualified_line_break_does_not_terminate() {
    // the `\n` after an accepted `\r` resets the machine
    let (_, steps) = feed(b"\r\n~.");
    assert!(!steps.contains(&NextStep::LoopBreak));
}

#[test]
fn double_tilde_forwards_one_tilde() {
    let (state, steps) = feed(b"\r~~");
    assert_eq!(steps, vec![NextStep::Proceed, NextStep::LoopContinue, NextStep::Proceed]);
    assert_eq!(state, EscapeState::WaitForEnter);
    let (_, steps) = feed(b"\r~~.");
    assert!(!steps.contains(&NextStep::LoopBreak));
}

#[test]
fn repeated_ordinary_bytes_stay_waiting() {
    let chunk = b"abc~.xyz";
    let mut state = EscapeState::WaitForEnter;
    for _ in 0..5 {
        for b in chunk.iter() {
            assert_eq!(escape_state_machine(b, &mut state), NextStep::Proceed);
            assert_eq!(state, EscapeState::WaitForEnter);
        }
    }
}
