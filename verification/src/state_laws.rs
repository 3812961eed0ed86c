//! What a text must hold for a board to be in a state.

use vstd::prelude::*;
use vstd::utf8::encode_utf8;

use std::time::SystemTime;

use crate::config::StatePatterns;
use crate::state::{
    candidates, classify, latest, most_recent_evidence_decides, observed, seen_last, sighting,
    BoardState,
};
use crate::text_laws::{last_occurrence_is_the_last, stands_at};

verus! {

/// The pattern that shows a state; empty for a state that no pattern shows.
pub open spec fn pattern_for(patterns: StatePatterns, state: BoardState) -> Seq<char> {
    match state {
        BoardState::UbootCountdown => patterns.uboot_countdown@,
        BoardState::UbootPrompt => patterns.uboot_prompt@,
        BoardState::LinuxBooting => patterns.linux_boot@,
        BoardState::LinuxLogin => patterns.linux_login@,
        BoardState::LinuxShell => patterns.linux_shell@,
        BoardState::ShutdownInProgress => match patterns.shutdown {
            Some(pattern) => pattern@,
            None => Seq::empty(),
        },
        _ => Seq::empty(),
    }
}

/// Which of two states counts where their patterns begin at the same place: the higher.
pub open spec fn rank(state: BoardState) -> int {
    match state {
        BoardState::UbootCountdown => 6,
        BoardState::UbootPrompt => 5,
        BoardState::LinuxBooting => 4,
        BoardState::LinuxLogin => 3,
        BoardState::LinuxShell => 2,
        BoardState::ShutdownInProgress => 1,
        _ => 0,
    }
}

/// The pattern of `state` stands in `text` at `at`.
pub open spec fn shown_at(
    patterns: StatePatterns,
    text: Seq<char>,
    state: BoardState,
    at: int,
) -> bool {
    pattern_for(patterns, state).len() > 0 && stands_at(text, pattern_for(patterns, state), at)
}

proof fn table(patterns: StatePatterns, k: int)
    requires
        0 <= k < candidates(patterns).len(),
    ensures
        candidates(patterns)[k].1 == pattern_for(patterns, candidates(patterns)[k].0),
        rank(candidates(patterns)[k].0) == k + 1,
{
}

proof fn place_of(patterns: StatePatterns, state: BoardState) -> (k: int)
    requires
        rank(state) > 0,
    ensures
        0 <= k < candidates(patterns).len(),
        candidates(patterns)[k] == (state, pattern_for(patterns, state)),
        k == rank(state) - 1,
{
    rank(state) - 1
}

/// The state of a text is the one whose pattern stands furthest on. Whatever stands before does
/// not matter, nor does any other pattern that stands before, or at the same place with a
/// lower rank.
pub proof fn furthest_pattern_decides(
    patterns: StatePatterns,
    text: Seq<char>,
    state: BoardState,
    at: int,
)
    requires
        shown_at(patterns, text, state, at),
        forall|other: BoardState, k: int|
            #[trigger] shown_at(patterns, text, other, k) ==> k < at || (k == at && rank(other)
                <= rank(state)),
    ensures
        classify(patterns, text) == state,
{
    let list = candidates(patterns);
    most_recent_evidence_decides(patterns, text);
    let here = place_of(patterns, state);
    last_occurrence_is_the_last(text, pattern_for(patterns, state));
    match latest(list, text) {
        Some(i) => {
            table(patterns, i);
            last_occurrence_is_the_last(text, list[i].1);
            let offset = sighting(list, text, i)->0;
            assert(shown_at(patterns, text, list[i].0, offset));
            assert(sighting(list, text, here) is Some);
            let mine = sighting(list, text, here)->0;
            assert(shown_at(patterns, text, state, mine));
        },
        None => {
            assert(sighting(list, text, here) is None);
        },
    }
}

/// A text that ends with the pattern of a state shows that state whatever came before, unless
/// another pattern stands at or after the place where that one begins.
pub proof fn last_words_decide(patterns: StatePatterns, before: Seq<char>, state: BoardState)
    requires
        pattern_for(patterns, state).len() > 0,
        forall|other: BoardState, k: int|
            #[trigger] shown_at(patterns, before + pattern_for(patterns, state), other, k) && other
                != state ==> k < before.len(),
    ensures
        classify(patterns, before + pattern_for(patterns, state)) == state,
{
    let pattern = pattern_for(patterns, state);
    let text = before + pattern;
    assert(stands_at(text, pattern, before.len() as int));
    assert forall|other: BoardState, k: int|
        #[trigger] shown_at(patterns, text, other, k) implies k < before.len() || (k == before.len()
        && rank(other) <= rank(state)) by {
        if other == state {
            assert(k + pattern.len() <= text.len());
        }
    }
    furthest_pattern_decides(patterns, text, state, before.len() as int);
}

/// The state is unknown exactly where no pattern stands in the text. Where it is known, its
/// pattern stands in the text, and no pattern stands further on.
pub proof fn states_are_shown(patterns: StatePatterns, text: Seq<char>)
    ensures
        classify(patterns, text) == BoardState::Unknown <==> forall|state: BoardState, at: int|
            !#[trigger] shown_at(patterns, text, state, at),
        classify(patterns, text) != BoardState::Unknown ==> exists|at: int|
            #[trigger] shown_at(patterns, text, classify(patterns, text), at) && forall|
                other: BoardState,
                k: int,
            | #[trigger]
                shown_at(patterns, text, other, k) ==> k < at || (k == at && rank(other) <= rank(
                    classify(patterns, text),
                )),
{
    let list = candidates(patterns);
    most_recent_evidence_decides(patterns, text);
    assert forall|other: BoardState, k: int| #[trigger]
        shown_at(patterns, text, other, k) implies ({
        let there = rank(other) - 1;
        &&& 0 <= there < list.len()
        &&& sighting(list, text, there) is Some
        &&& k <= sighting(list, text, there)->0
    }) by {
        let there = place_of(patterns, other);
        last_occurrence_is_the_last(text, list[there].1);
    }
    match latest(list, text) {
        Some(i) => {
            table(patterns, i);
            last_occurrence_is_the_last(text, list[i].1);
            let at = sighting(list, text, i)->0;
            assert(seen_last(list, text, i));
            assert(shown_at(patterns, text, classify(patterns, text), at));
            assert forall|other: BoardState, k: int| #[trigger]
                shown_at(patterns, text, other, k) implies k < at || (k == at && rank(other)
                <= rank(classify(patterns, text))) by {
                let there = rank(other) - 1;
                assert(sighting(list, text, there) is Some);
            }
        },
        None => {
            assert forall|state: BoardState, at: int| !#[trigger]
                shown_at(patterns, text, state, at) by {
                if shown_at(patterns, text, state, at) {
                    assert(sighting(list, text, rank(state) - 1) is Some);
                }
            }
        },
    }
}

/// An observation states the state of the text, the pattern that showed it, and the time and
/// the generation it was made in. A state that a pattern showed is almost certain; without one
/// nothing is.
pub proof fn evidence_is_the_pattern(
    patterns: StatePatterns,
    text: Seq<char>,
    timestamp: SystemTime,
    generation: int,
)
    ensures
        ({
            let evidence = observed(patterns, text, timestamp, generation);
            &&& evidence.state == classify(patterns, text)
            &&& evidence.evidence == encode_utf8(pattern_for(patterns, evidence.state))
            &&& evidence.state == BoardState::Unknown ==> evidence.confidence_percent == 0
            &&& evidence.state != BoardState::Unknown ==> evidence.confidence_percent == 95
            &&& evidence.timestamp == timestamp
            &&& evidence.generation == generation
            &&& !evidence.active_probe
        }),
{
    most_recent_evidence_decides(patterns, text);
    match latest(candidates(patterns), text) {
        Some(i) => {
            table(patterns, i);
        },
        None => {
            assert(encode_utf8(Seq::<char>::empty()) == Seq::<u8>::empty());
        },
    }
}

} // verus!
