//! The lifecycle state of a record and the rule that derives it from the
//! record's dates and the clock.

use crate::time::{now_timestamp, parse_date_to_timestamp, text_timestamp, Date};
use vstd::prelude::*;

verus! {

/// Where a record stands in its lifecycle. `Finished` and `Giveup` are set by
/// the user and final; the other three follow from the dates and the clock.
#[derive(Debug, Clone, Copy, PartialEq, Eq, Hash, Structural)]
pub enum RecordState {
    NotStarted,
    Running,
    Finished,
    Giveup,
    Timeout,
}

/// A text that is not the token of any state.
#[derive(Debug, Clone, Copy, PartialEq, Eq, Structural)]
pub struct DecodeError;

impl Default for RecordState {
    fn default() -> (state: RecordState)
        ensures
            state == RecordState::NotStarted,
    {
        RecordState::NotStarted
    }
}

/// The token that stands for a state in stored records.
pub open spec fn state_token(state: RecordState) -> Seq<char> {
    match state {
        RecordState::NotStarted => "NotStarted"@,
        RecordState::Running => "Running"@,
        RecordState::Finished => "Finished"@,
        RecordState::Giveup => "Giveup"@,
        RecordState::Timeout => "Timeout"@,
    }
}

/// The state that a token stands for; any other text is an error.
pub open spec fn decode_token(token: Seq<char>) -> Result<RecordState, DecodeError> {
    if token == "NotStarted"@ {
        Ok(RecordState::NotStarted)
    } else if token == "Running"@ {
        Ok(RecordState::Running)
    } else if token == "Finished"@ {
        Ok(RecordState::Finished)
    } else if token == "Giveup"@ {
        Ok(RecordState::Giveup)
    } else if token == "Timeout"@ {
        Ok(RecordState::Timeout)
    } else {
        Err(DecodeError)
    }
}

/// The state that follows from the two dates and the clock, for dates that
/// could both be read; `None` where the record keeps its state.
///
/// A record that is finished or given up keeps its state. A record that has
/// not started times out once `now` is past its end, and else runs from its
/// start on. A running record goes back to not started while `now` is
/// before its start, and times out once `now` is past its end. A record
/// that has timed out goes back to not started while `now` is before its
/// start, and runs again while `now` is not past its end.
pub open spec fn state_by_dates(start: int, end: int, current: RecordState, now: int) -> Option<
    RecordState,
> {
    match current {
        RecordState::Finished | RecordState::Giveup => None,
        RecordState::NotStarted => if now > end {
            Some(RecordState::Timeout)
        } else if now >= start {
            Some(RecordState::Running)
        } else {
            None
        },
        RecordState::Running => if now < start {
            Some(RecordState::NotStarted)
        } else if now > end {
            Some(RecordState::Timeout)
        } else {
            None
        },
        RecordState::Timeout => if now < start {
            Some(RecordState::NotStarted)
        } else if now <= end {
            Some(RecordState::Running)
        } else {
            None
        },
    }
}

/// The state that follows from the dates and the clock, or `None` where the
/// record keeps its state. `start` and `end` are the timestamps of the
/// record's dates, `None` for a date that could not be read.
///
/// A date that could not be read is no information: unless both dates were
/// read the record keeps its state, whichever date it is and whatever the
/// other one says.
pub open spec fn next_state(
    start: Option<int>,
    end: Option<int>,
    current: RecordState,
    now: int,
) -> Option<RecordState> {
    match (start, end) {
        (Some(s), Some(e)) => state_by_dates(s, e, current, now),
        _ => None,
    }
}

/// A timestamp as a mathematical integer, if there is one.
pub open spec fn widen(timestamp: Option<i64>) -> Option<int> {
    match timestamp {
        Some(seconds) => Some(seconds as int),
        None => None,
    }
}

impl RecordState {
    /// Finished and given-up records never change state by themselves.
    pub open spec fn is_terminal(&self) -> bool {
        *self == RecordState::Finished || *self == RecordState::Giveup
    }

    /// The token that stands for this state in stored records.
    pub fn token(&self) -> (token: &'static str)
        ensures
            token@ == state_token(*self),
    {
        match self {
            RecordState::NotStarted => "NotStarted",
            RecordState::Running => "Running",
            RecordState::Finished => "Finished",
            RecordState::Giveup => "Giveup",
            RecordState::Timeout => "Timeout",
        }
    }

    /// Reads a state from its token. A text that is no token is an error, not
    /// some default state.
    pub fn from_token(token: &str) -> (result: Result<RecordState, DecodeError>)
        ensures
            result == decode_token(token@),
    {
        let text = token.to_owned();
        if text == "NotStarted".to_owned() {
            Ok(RecordState::NotStarted)
        } else if text == "Running".to_owned() {
            Ok(RecordState::Running)
        } else if text == "Finished".to_owned() {
            Ok(RecordState::Finished)
        } else if text == "Giveup".to_owned() {
            Ok(RecordState::Giveup)
        } else if text == "Timeout".to_owned() {
            Ok(RecordState::Timeout)
        } else {
            Err(DecodeError)
        }
    }
}

/// The five tokens differ, so reading the token of a state gives that state.
pub proof fn lemma_token_round_trip(state: RecordState)
    ensures
        decode_token(state_token(state)) == Ok::<RecordState, DecodeError>(state),
{
    reveal_strlit("NotStarted");
    reveal_strlit("Running");
    reveal_strlit("Finished");
    reveal_strlit("Giveup");
    reveal_strlit("Timeout");
    assert("NotStarted"@.len() == 10);
    assert("Running"@.len() == 7);
    assert("Finished"@.len() == 8);
    assert("Giveup"@.len() == 6);
    assert("Timeout"@.len() == 7);
    assert("Running"@[0] == 'R');
    assert("Timeout"@[0] == 'T');
}

/// A record that is finished or given up keeps its state, whatever its dates
/// and the clock say.
pub proof fn lemma_terminal_states_stay(
    start: Option<int>,
    end: Option<int>,
    current: RecordState,
    now: int,
)
    requires
        current.is_terminal(),
    ensures
        next_state(start, end, current, now) is None,
{
}

/// A record with a date that could not be read keeps its state, whatever
/// the other date and the clock say.
pub proof fn lemma_unreadable_date_keeps_state(
    start: Option<int>,
    end: Option<int>,
    current: RecordState,
    now: int,
)
    requires
        start is None || end is None,
    ensures
        next_state(start, end, current, now) is None,
{
}

/// Deriving the state again at the same instant changes nothing more,
/// provided the end date is not before the start date.
pub proof fn lemma_state_settles(
    start: Option<int>,
    end: Option<int>,
    current: RecordState,
    now: int,
)
    requires
        start is Some && end is Some ==> start->0 <= end->0,
    ensures
        next_state(start, end, current, now) matches Some(derived) ==> next_state(
            start,
            end,
            derived,
            now,
        ) is None,
{
}

/// The state that follows from two timestamps and the clock; see
/// [`next_state`]. `None` stands for a date that could not be read.
pub fn transition(start: Option<i64>, end: Option<i64>, current: RecordState, now: i64) -> (derived:
    Option<RecordState>)
    ensures
        derived == next_state(widen(start), widen(end), current, now as int),
        current.is_terminal() ==> derived is None,
        start is None || end is None ==> derived is None,
{
    let (start_timestamp, end_timestamp) = match (start, end) {
        (Some(start_timestamp), Some(end_timestamp)) => (start_timestamp, end_timestamp),
        _ => {
            return None;
        },
    };
    match current {
        RecordState::Finished | RecordState::Giveup => None,
        RecordState::NotStarted => {
            if now > end_timestamp {
                Some(RecordState::Timeout)
            } else if now >= start_timestamp {
                Some(RecordState::Running)
            } else {
                None
            }
        },
        RecordState::Running => {
            if now < start_timestamp {
                Some(RecordState::NotStarted)
            } else if now > end_timestamp {
                Some(RecordState::Timeout)
            } else {
                None
            }
        },
        RecordState::Timeout => {
            if now < start_timestamp {
                Some(RecordState::NotStarted)
            } else if now <= end_timestamp {
                Some(RecordState::Running)
            } else {
                None
            }
        },
    }
}

/// The timestamp of a date text, `None` where the text is no date.
fn read_timestamp(text: &str) -> (timestamp: Option<i64>)
    ensures
        widen(timestamp) == text_timestamp(text@),
{
    match parse_date_to_timestamp(text) {
        Ok(seconds) => Some(seconds),
        Err(_) => None,
    }
}

/// Derives the state of a record from its dates at the instant `now`:
/// `Some` new state, or `None` where the record keeps the one it has.
///
/// The dates are texts in the form `YYYY-MM-DD`; each counts from its
/// midnight, so with `now` aligned to days the end date itself still belongs
/// to the record's running time. A record with a date that cannot be read
/// keeps its state.
pub fn derive_state(start_date: &str, end_date: &str, current_state: RecordState, now: i64) -> (derived:
    Option<RecordState>)
    ensures
        derived == next_state(
            text_timestamp(start_date@),
            text_timestamp(end_date@),
            current_state,
            now as int,
        ),
        current_state.is_terminal() ==> derived is None,
        text_timestamp(start_date@) is None || text_timestamp(end_date@) is None ==> derived
            is None,
{
    if current_state == RecordState::Finished || current_state == RecordState::Giveup {
        return None;
    }
    let start = read_timestamp(start_date);
    let end = read_timestamp(end_date);
    transition(start, end, current_state, now)
}

/// Derives the state of a record from its dates and today's date on the
/// local wall clock.
///
/// The clock decides the instant, so the result is stated for whichever day
/// it showed.
pub fn calc_state(start_date: &str, end_date: &str, current_state: RecordState) -> (derived: Option<
    RecordState,
>)
    ensures
        exists|today: Date|
            today.is_valid() && derived == next_state(
                text_timestamp(start_date@),
                text_timestamp(end_date@),
                current_state,
                #[trigger] today.timestamp(),
            ),
        current_state.is_terminal() ==> derived is None,
        text_timestamp(start_date@) is None || text_timestamp(end_date@) is None ==> derived
            is None,
{
    let now = now_timestamp();
    derive_state(start_date, end_date, current_state, now)
}

} // verus!
