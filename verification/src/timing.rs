//! The timer: a generation is let through once enough time has passed.

use vstd::prelude::*;
use crate::game::GameState;
use crate::rules::next_generation;

verus! {

/// Whether a generation is due at the time `now`: more than the interval has
/// passed since the last one. A time before the last generation opens no
/// gate.
pub open spec fn gate_open(state: GameState, now: nat) -> bool {
    now - state.last_update_time > state.update_interval
}

/// The state with the time of the last generation set to `now`.
pub open spec fn stamped(state: GameState, now: nat) -> GameState {
    GameState {
        field_size: state.field_size,
        field: state.field,
        last_update_time: now,
        update_interval: state.update_interval,
    }
}

/// The state one generation on: the field renewed, the timer untouched.
pub open spec fn advanced(state: GameState) -> GameState {
    GameState {
        field_size: state.field_size,
        field: next_generation(state.field, state.field_size as int),
        last_update_time: state.last_update_time,
        update_interval: state.update_interval,
    }
}

/// The state after the timer has been consulted at the time `now`: stamped
/// with `now` where a generation is due, and unchanged where none is.
pub open spec fn gate_passed(state: GameState, now: nat) -> GameState {
    if gate_open(state, now) {
        stamped(state, now)
    } else {
        state
    }
}

/// The state after a poll at the time `now`: one generation on and stamped
/// with `now` where a generation is due, and unchanged where none is.
pub open spec fn polled(state: GameState, now: nat) -> GameState {
    if gate_open(state, now) {
        advanced(stamped(state, now))
    } else {
        state
    }
}

/// The state with the interval that gives the stated number of generations a
/// second: a thousand milliseconds divided by that number, the remainder
/// dropped.
pub open spec fn with_speed(state: GameState, generation_per_second: nat) -> GameState {
    GameState {
        field_size: state.field_size,
        field: state.field,
        last_update_time: state.last_update_time,
        update_interval: 1000nat / generation_per_second,
    }
}

/// A poll once more than the interval has passed brings exactly one
/// generation, and a poll before that brings none.
pub proof fn lemma_poll(state: GameState, now: nat)
    ensures
        now - state.last_update_time > state.update_interval ==> {
            &&& polled(state, now).field == next_generation(state.field, state.field_size as int)
            &&& polled(state, now).last_update_time == now
        },
        now - state.last_update_time <= state.update_interval ==> polled(state, now) == state,
{
}

/// Of two polls that lie no more than the interval apart, at most one
/// brings a generation: after both the field is as it was or one generation
/// on, never two.
pub proof fn lemma_gate_spaces_generations(state: GameState, first: nat, second: nat)
    requires
        second - first <= state.update_interval,
    ensures
        !(gate_open(state, first) && gate_open(polled(state, first), second)),
        polled(polled(state, first), second).field == state.field || polled(
            polled(state, first),
            second,
        ).field == next_generation(state.field, state.field_size as int),
{
}

} // verus!
