use vstd::prelude::*;

verus! {

/// Where the console input stands with respect to the escape sequence
/// `<Enter>` `~` `.`.
#[derive(Debug, Clone, Copy, PartialEq, Eq, Structural)]
pub enum EscapeState {
    /// Waiting for a line break that may start an escape sequence.
    WaitForEnter,
    /// A line break was seen; waiting for the escape character `~`.
    WaitForEscapeChar,
    /// `<Enter>` `~` was seen; the next byte is a command.
    ReadyForCommand,
}

/// What the bridge loop does next with the byte or chunk at hand.
#[derive(Debug, Clone, Copy, PartialEq, Eq, Structural)]
pub enum NextStep {
    /// Drop the byte and start the next loop iteration.
    LoopContinue,
    /// End the session.
    LoopBreak,
    /// Nothing special: carry on (forward the byte to the device).
    Proceed,
}

pub const ESCAPE_CHAR: u8 = 0x7e;

pub const EXIT_COMMAND: u8 = 0x2e;

pub const CARRIAGE_RETURN: u8 = 0x0d;

pub const LINE_FEED: u8 = 0x0a;

pub open spec fn is_line_break(b: u8) -> bool {
    b == CARRIAGE_RETURN || b == LINE_FEED
}

/// The transition table of the escape state machine: the state after the
/// byte, and what becomes of the byte.
pub open spec fn escape_step(state: EscapeState, b: u8) -> (EscapeState, NextStep) {
    match state {
        EscapeState::WaitForEnter => if is_line_break(b) {
            (EscapeState::WaitForEscapeChar, NextStep::Proceed)
        } else {
            (EscapeState::WaitForEnter, NextStep::Proceed)
        },
        EscapeState::WaitForEscapeChar => if b == ESCAPE_CHAR {
            (EscapeState::ReadyForCommand, NextStep::LoopContinue)
        } else if b == CARRIAGE_RETURN {
            (EscapeState::WaitForEscapeChar, NextStep::Proceed)
        } else {
            (EscapeState::WaitForEnter, NextStep::Proceed)
        },
        EscapeState::ReadyForCommand => if b == EXIT_COMMAND {
            (EscapeState::ReadyForCommand, NextStep::LoopBreak)
        } else if b == CARRIAGE_RETURN {
            (EscapeState::WaitForEscapeChar, NextStep::Proceed)
        } else {
            (EscapeState::WaitForEnter, NextStep::Proceed)
        },
    }
}

/// The state reached from `state` after the bytes of `s`, one at a time.
pub open spec fn escape_run(state: EscapeState, s: Seq<u8>) -> EscapeState
    decreases s.len(),
{
    if s.len() == 0 {
        state
    } else {
        escape_step(escape_run(state, s.drop_last()), s.last()).0
    }
}

/// Feeding `s` one byte at a time, from the start of a session, ends it.
pub open spec fn escape_terminates(s: Seq<u8>) -> bool {
    exists|i: int|
        0 <= i < s.len() && escape_run(EscapeState::WaitForEnter, s.take(i))
            == EscapeState::ReadyForCommand && s[i] == EXIT_COMMAND
}

/// Classifies one keystroke typed at the console and advances the escape
/// state: `LoopBreak` ends the session, `LoopContinue` swallows the byte,
/// `None` lets it through to the device.
pub fn escape_state_machine(character: &u8, escape_state: &mut EscapeState) -> (r: NextStep)
    ensures
        (*final(escape_state), r) == escape_step(*old(escape_state), *character),
{
    match escape_state {
        EscapeState::WaitForEnter => {
            if *character == CARRIAGE_RETURN || *character == LINE_FEED {
                *escape_state = EscapeState::WaitForEscapeChar;
            }
        },
        EscapeState::WaitForEscapeChar => {
            if *character == ESCAPE_CHAR {
                *escape_state = EscapeState::ReadyForCommand;
                return NextStep::LoopContinue;
            } else if *character == CARRIAGE_RETURN {
                *escape_state = EscapeState::WaitForEscapeChar;
            } else {
                *escape_state = EscapeState::WaitForEnter;
            }
        },
        EscapeState::ReadyForCommand => {
            if *character == EXIT_COMMAND {
                return NextStep::LoopBreak;
            } else if *character == CARRIAGE_RETURN {
                *escape_state = EscapeState::WaitForEscapeChar;
            } else {
                *escape_state = EscapeState::WaitForEnter;
            }
        },
    }
    NextStep::Proceed
}

proof fn lemma_run_take_step(s: Seq<u8>, k: int)
    requires
        0 <= k < s.len(),
    ensures
        escape_run(EscapeState::WaitForEnter, s.take(k + 1)) == escape_step(
            escape_run(EscapeState::WaitForEnter, s.take(k)),
            s[k],
        ).0,
{
    assert(s.take(k + 1).drop_last() =~= s.take(k));
    assert(s.take(k + 1).last() == s[k]);
}

proof fn lemma_ready_origin(s: Seq<u8>, j: int)
    requires
        0 <= j <= s.len(),
        escape_run(EscapeState::WaitForEnter, s.take(j)) == EscapeState::ReadyForCommand,
    ensures
        exists|i: int|
            0 <= i && i + 2 <= j && is_line_break(#[trigger] s[i]) && escape_run(
                EscapeState::WaitForEnter,
                s.take(i + 1),
            ) == EscapeState::WaitForEscapeChar && s[i + 1] == ESCAPE_CHAR && (i + 2 < j ==> s[i
                + 2] == EXIT_COMMAND),
    decreases j,
{
    let start = EscapeState::WaitForEnter;
    assert(s.take(0).len() == 0);
    assert(j >= 1);
    lemma_run_take_step(s, j - 1);
    let prev = escape_run(start, s.take(j - 1));
    if prev == EscapeState::ReadyForCommand {
        lemma_ready_origin(s, j - 1);
        let i = choose|i: int|
            0 <= i && i + 2 <= j - 1 && is_line_break(#[trigger] s[i]) && escape_run(
                start,
                s.take(i + 1),
            ) == EscapeState::WaitForEscapeChar && s[i + 1] == ESCAPE_CHAR && (i + 2 < j - 1
                ==> s[i + 2] == EXIT_COMMAND);
        assert(s[j - 1] == EXIT_COMMAND);
        assert(i + 2 < j ==> s[i + 2] == EXIT_COMMAND);
    } else {
        assert(prev == EscapeState::WaitForEscapeChar && s[j - 1] == ESCAPE_CHAR);
        assert(j >= 2);
        lemma_run_take_step(s, j - 2);
        let i = j - 2;
        let before = escape_run(start, s.take(i));
        assert(is_line_break(s[i])) by {
            match before {
                EscapeState::WaitForEnter => {},
                EscapeState::WaitForEscapeChar => {},
                EscapeState::ReadyForCommand => {},
            }
        }
    }
}

/// A session ends exactly when a line break that the machine accepted
/// (one that moved it to waiting for `~`) is followed by `~` and then `.`.
pub proof fn lemma_terminates_iff_escape_sequence(s: Seq<u8>)
    ensures
        escape_terminates(s) <==> exists|i: int|
            0 <= i && i + 2 < s.len() && is_line_break(#[trigger] s[i]) && escape_run(
                EscapeState::WaitForEnter,
                s.take(i + 1),
            ) == EscapeState::WaitForEscapeChar && s[i + 1] == ESCAPE_CHAR && s[i + 2]
                == EXIT_COMMAND,
{
    let start = EscapeState::WaitForEnter;
    if escape_terminates(s) {
        let j = choose|j: int|
            0 <= j < s.len() && escape_run(start, s.take(j)) == EscapeState::ReadyForCommand
                && s[j] == EXIT_COMMAND;
        lemma_ready_origin(s, j);
        let i = choose|i: int|
            0 <= i && i + 2 <= j && is_line_break(#[trigger] s[i]) && escape_run(
                start,
                s.take(i + 1),
            ) == EscapeState::WaitForEscapeChar && s[i + 1] == ESCAPE_CHAR && (i + 2 < j ==> s[i
                + 2] == EXIT_COMMAND);
        assert(s[i + 1] == ESCAPE_CHAR);
    }
    if exists|i: int|
        0 <= i && i + 2 < s.len() && is_line_break(#[trigger] s[i]) && escape_run(
            start,
            s.take(i + 1),
        ) == EscapeState::WaitForEscapeChar && s[i + 1] == ESCAPE_CHAR && s[i + 2]
            == EXIT_COMMAND {
        let i = choose|i: int|
            0 <= i && i + 2 < s.len() && is_line_break(#[trigger] s[i]) && escape_run(
                start,
                s.take(i + 1),
            ) == EscapeState::WaitForEscapeChar && s[i + 1] == ESCAPE_CHAR && s[i + 2]
                == EXIT_COMMAND;
        lemma_run_take_step(s, i + 1);
        assert(escape_run(start, s.take(i + 2)) == EscapeState::ReadyForCommand);
        assert(escape_terminates(s));
    }
}

/// After an accepted line break, `~` `~` swallows the first `~`, forwards
/// the second and returns to waiting for a line break, without ending the
/// session.
pub proof fn lemma_double_escape_char_forwards(s: Seq<u8>, i: int)
    requires
        0 <= i,
        i + 2 < s.len(),
        is_line_break(s[i]),
        escape_run(EscapeState::WaitForEnter, s.take(i + 1)) == EscapeState::WaitForEscapeChar,
        s[i + 1] == ESCAPE_CHAR,
        s[i + 2] == ESCAPE_CHAR,
    ensures
        escape_step(escape_run(EscapeState::WaitForEnter, s.take(i + 1)), s[i + 1]).1
            == NextStep::LoopContinue,
        escape_step(escape_run(EscapeState::WaitForEnter, s.take(i + 2)), s[i + 2])
            == (EscapeState::WaitForEnter, NextStep::Proceed),
        escape_run(EscapeState::WaitForEnter, s.take(i + 3)) == EscapeState::WaitForEnter,
{
    lemma_run_take_step(s, i + 1);
    lemma_run_take_step(s, i + 2);
}

/// While waiting for a line break, only `\r` or `\n` moves the machine on;
/// bytes that are neither, in any number, leave it where it is and are all
/// forwarded.
pub proof fn lemma_no_line_break_stays(s: Seq<u8>)
    requires
        forall|i: int| 0 <= i < s.len() ==> !is_line_break(#[trigger] s[i]),
    ensures
        escape_run(EscapeState::WaitForEnter, s) == EscapeState::WaitForEnter,
        forall|i: int|
            0 <= i < s.len() ==> escape_step(
                #[trigger] escape_run(EscapeState::WaitForEnter, s.take(i)),
                s[i],
            ) == (EscapeState::WaitForEnter, NextStep::Proceed),
        forall|b: u8|
            #![trigger escape_step(EscapeState::WaitForEnter, b)]
            (escape_step(EscapeState::WaitForEnter, b).0 != EscapeState::WaitForEnter
                <==> is_line_break(b)),
    decreases s.len(),
{
    if s.len() > 0 {
        let p = s.drop_last();
        lemma_no_line_break_stays(p);
        assert forall|i: int| 0 <= i < s.len() implies escape_step(
            #[trigger] escape_run(EscapeState::WaitForEnter, s.take(i)),
            s[i],
        ) == (EscapeState::WaitForEnter, NextStep::Proceed) by {
            if i < p.len() {
                assert(s.take(i) =~= p.take(i));
                assert(p[i] == s[i]);
            } else {
                assert(s.take(i) =~= p);
            }
        }
    }
}

} // verus!
