//! What the requests that tools make come to, by what they hold.

use vstd::prelude::*;
use vstd::utf8::{encode_utf8, valid_utf8};

use std::time::SystemTime;

use crate::history_laws::looks_begin_at_their_cursor;
use crate::mcp::{
    boot_states, capture_limit, captured, enters_uboot, probe_duration, reboot_state, settled,
    state_named, state_result, states_named, summary, timeout_or, wait_outcome, BoardStateResult,
    PowerOnRequest, WaitStateRequest,
};
use crate::plan_laws::{
    awaited, boundaries, console_operations_send_what_is_given, restarts_interrupt_the_boot, sent,
    switched,
};
use crate::procedure::Operation;
use crate::registry::Board;
use crate::serial::{appended_bytes_read_back, cursor_ends_the_contents};
use crate::state::{BoardState, EvidenceView};
use crate::text::{decoded, quoted, texts};

verus! {

/// A capture is as large as asked for, within one byte and a mebibyte; without a wish it is
/// 65536 bytes.
pub proof fn captures_are_as_large_as_asked(max_bytes: Option<usize>)
    ensures
        max_bytes is None ==> capture_limit(max_bytes) == 65_536,
        max_bytes matches Some(n) ==> 1 <= n <= 1_048_576 ==> capture_limit(max_bytes) == n,
        max_bytes matches Some(n) ==> n == 0 ==> capture_limit(max_bytes) == 1,
        max_bytes matches Some(n) ==> n > 1_048_576 ==> capture_limit(max_bytes) == 1_048_576,
{
}

/// A capture from a cursor reads what came since then, where that is no more than asked for, and
/// says whether it was valid text and where it ends.
pub proof fn captures_read_what_came(
    before: Board,
    after: Board,
    timestamp: SystemTime,
    input: Seq<u8>,
    max_bytes: Option<usize>,
    cursor: u64,
)
    requires
        before.serial@.wf(),
        before.serial@.next_cursor == cursor,
        cursor + input.len() <= u64::MAX,
        input.len() <= before.serial@.capacity,
        input.len() <= match max_bytes {
            Some(n) => if n <= 1_048_576 {
                n as int
            } else {
                1_048_576
            },
            None => 65_536,
        },
        after.profile == before.profile,
        after.serial@ == before.serial@.appended(timestamp, input),
    ensures
        ({
            let capture = captured(after, max_bytes, Some(cursor));
            &&& capture.board_id == before.profile.board_id@
            &&& capture.text == decoded(input)
            &&& capture.invalid_utf8 <==> !valid_utf8(input)
            &&& capture.start_cursor == cursor
            &&& capture.next_cursor == cursor + input.len()
            &&& !capture.truncated
            &&& capture.console_generation == before.serial@.generation
        }),
{
    appended_bytes_read_back(before.serial@, timestamp, input, capture_limit(max_bytes));
}

/// A capture without a cursor reads the newest bytes: as many as asked for, or all there are.
pub proof fn captures_without_a_cursor_read_the_newest(board: Board, max_bytes: Option<usize>)
    requires
        board.serial@.wf(),
    ensures
        ({
            let all = board.serial@.contents();
            let limit = capture_limit(max_bytes);
            let capture = captured(board, max_bytes, None);
            &&& capture.next_cursor == board.serial@.next_cursor
            &&& capture.text == decoded(
                if all.len() <= limit {
                    all
                } else {
                    all.subrange(all.len() - limit, all.len() as int)
                },
            )
            &&& capture.start_cursor == if board.serial@.next_cursor <= limit {
                0
            } else {
                board.serial@.next_cursor - limit
            }
        }),
{
    let ring = board.serial@;
    let limit = capture_limit(max_bytes);
    let start = if ring.next_cursor <= limit {
        0
    } else {
        ring.next_cursor - limit
    };
    cursor_ends_the_contents(ring);
    looks_begin_at_their_cursor(ring, start, limit);
    looks_begin_at_their_cursor(ring, ring.oldest(), limit);
    let all = ring.contents();
    assert(all.subrange(0, all.len() as int) == all);
}

/// A probe lasts as long as asked for, five seconds at most; half a second without a wish.
pub proof fn probes_last_as_long_as_asked(request: Option<u64>)
    ensures
        request is None ==> probe_duration(request) == 500,
        request matches Some(ms) ==> ms <= 5_000 ==> probe_duration(request) == ms,
        request matches Some(ms) ==> ms > 5_000 ==> probe_duration(request) == 5_000,
{
}

/// A timeout that is given counts as it is, and only one that is not gives way to the other.
pub proof fn given_timeouts_count(timeout_ms: Option<u64>, other: int)
    ensures
        timeout_ms matches Some(ms) ==> timeout_or(timeout_ms, other) == ms,
        timeout_ms is None ==> timeout_or(timeout_ms, other) == other,
{
}

/// A boot is awaited until Linux shows: a login or a shell, and without a login to follow the
/// boot itself will do. A reboot shows as the countdown, the boot or the login.
pub proof fn boots_show_as_linux(state: BoardState)
    ensures
        boot_states(true).contains(state) <==> state == BoardState::LinuxLogin || state
            == BoardState::LinuxShell,
        boot_states(false).contains(state) <==> state == BoardState::LinuxBooting || state
            == BoardState::LinuxLogin || state == BoardState::LinuxShell,
        reboot_state(state) <==> state == BoardState::UbootCountdown || state
            == BoardState::LinuxBooting || state == BoardState::LinuxLogin,
{
    let short = boot_states(true);
    let long = boot_states(false);
    assert(short[0] == BoardState::LinuxLogin && short[1] == BoardState::LinuxShell);
    assert(long[0] == BoardState::LinuxBooting && long[1] == BoardState::LinuxLogin && long[2]
        == BoardState::LinuxShell);
}

/// A name stands for the state that has it, or `uboot` for the prompt, and for no other. The
/// states that can be awaited are those that a pattern shows.
pub proof fn names_stand_for_their_state(name: Seq<char>, state: BoardState)
    ensures
        state_named(name) == Some(state) ==> name == state.name() || (name == "uboot"@ && state
            == BoardState::UbootPrompt),
        state_named("uboot"@) == Some(BoardState::UbootPrompt),
        state_named(name) is Some && name == state.name() ==> state_named(name) == Some(state),
        state_named(name) is None <==> name != "uboot"@ && name != "uboot_prompt"@ && name
            != "uboot_countdown"@ && name != "linux_booting"@ && name != "linux_login"@ && name
            != "linux_shell"@ && name != "shutdown_in_progress"@,
{
    if state_named(name) is Some && name == state.name() {
        let found = state_named(name)->0;
        assert(name == found.name() || name == "uboot"@);
        state_names_are_distinct(state, found);
        no_state_is_called_uboot(state);
    }
}

proof fn no_state_is_called_uboot(state: BoardState)
    ensures
        state.name() != "uboot"@,
{
    reveal_strlit("uboot");
    reveal_names();
    assert("uboot"@.len() == 5);
}

proof fn reveal_names()
    ensures
        BoardState::PoweredOff.name().len() == 11 && BoardState::PoweredOff.name()[0] == 'p',
        BoardState::PoweringOn.name().len() == 11 && BoardState::PoweringOn.name()[5] == 'i',
        BoardState::PoweredOff.name()[5] == 'e',
        BoardState::PoweringOn.name()[0] == 'p',
        BoardState::BootRomOrFirmware.name().len() == 20,
        BoardState::BootRomOrFirmware.name()[0] == 'b',
        BoardState::UbootCountdown.name().len() == 15,
        BoardState::UbootPrompt.name().len() == 12 && BoardState::UbootPrompt.name()[1] == 'b',
        BoardState::LinuxBooting.name().len() == 13,
        BoardState::LinuxLogin.name().len() == 11 && BoardState::LinuxLogin.name()[6] == 'l'
            && BoardState::LinuxLogin.name()[0] == 'l',
        BoardState::LinuxShell.name().len() == 11 && BoardState::LinuxShell.name()[6] == 's'
            && BoardState::LinuxShell.name()[0] == 'l',
        BoardState::ShutdownInProgress.name().len() == 20,
        BoardState::ShutdownInProgress.name()[0] == 's',
        BoardState::ApplicationRunning.name().len() == 19,
        BoardState::Unresponsive.name().len() == 12 && BoardState::Unresponsive.name()[1] == 'n',
        BoardState::Unknown.name().len() == 7,
{
    reveal_strlit("powered_off");
    reveal_strlit("powering_on");
    reveal_strlit("boot_rom_or_firmware");
    reveal_strlit("uboot_countdown");
    reveal_strlit("uboot_prompt");
    reveal_strlit("linux_booting");
    reveal_strlit("linux_login");
    reveal_strlit("linux_shell");
    reveal_strlit("shutdown_in_progress");
    reveal_strlit("application_running");
    reveal_strlit("unresponsive");
    reveal_strlit("unknown");
}

/// No two states have the same name.
pub proof fn state_names_are_distinct(one: BoardState, other: BoardState)
    ensures
        one.name() == other.name() ==> one == other,
{
    reveal_names();
}

/// A list of names stands for the states that they stand for, in order. Where one of them stands
/// for none, the first such is named.
pub proof fn lists_stand_for_their_states(names: Seq<Seq<char>>)
    ensures
        match states_named(names) {
            Ok(states) => states.len() == names.len() && forall|i: int|
                0 <= i < names.len() ==> state_named(#[trigger] names[i]) == Some(states[i]),
            Err(text) => exists|i: int|
                0 <= i < names.len() && state_named(#[trigger] names[i]) is None && text
                    == "unknown state "@ + quoted(names[i]) && forall|k: int|
                    0 <= k < i ==> state_named(#[trigger] names[k]) is Some,
        },
    decreases names.len(),
{
    if names.len() > 0 {
        let before = names.drop_last();
        lists_stand_for_their_states(before);
        assert(names.last() == names[names.len() - 1]);
        assert forall|i: int| 0 <= i < before.len() implies #[trigger] before[i] == names[i] by {}
        match states_named(before) {
            Ok(states) => {
                assert forall|k: int| 0 <= k < before.len() implies state_named(
                    #[trigger] names[k],
                ) == Some(states[k]) by {
                    assert(before[k] == names[k]);
                }
            },
            Err(text) => {
                let i = choose|i: int|
                    0 <= i < before.len() && state_named(#[trigger] before[i]) is None && text
                        == "unknown state "@ + quoted(before[i]) && forall|k: int|
                        0 <= k < i ==> state_named(#[trigger] before[k]) is Some;
                assert(names[i] == before[i]);
                assert forall|k: int| 0 <= k < i implies state_named(#[trigger] names[k])
                    is Some by {
                    assert(before[k] == names[k]);
                }
            },
        }
    }
}

/// A board is available exactly while nobody holds its lease, and else says who does.
pub proof fn boards_are_available_without_a_lease(board: Board)
    ensures
        summary(board).available <==> board.lease@ is None,
        summary(board).lease_owner_operation_id is None <==> board.lease@ is None,
        board.lease@ matches Some(owner) ==> summary(board).lease_owner_operation_id == Some(
            owner.operation_id,
        ),
        summary(board).board_id == board.profile.board_id@,
        summary(board).serial_device == board.profile.serial.device@,
        summary(board).power_backend == board.profile.power.backend@,
{
}

/// What a tool is told of a state is the state's name, how sure it is, what showed it, and when
/// and in which generation.
pub proof fn results_tell_the_evidence(
    board_id: Seq<char>,
    evidence: EvidenceView,
    timestamp_ms: int,
    active_probe: bool,
)
    ensures
        ({
            let result = state_result(board_id, evidence, timestamp_ms, active_probe);
            &&& result.board_id == board_id
            &&& result.state == evidence.state.name()
            &&& result.confidence_percent == evidence.confidence_percent
            &&& result.timestamp_ms == timestamp_ms
            &&& result.console_generation == evidence.generation
            &&& result.evidence == decoded(evidence.evidence)
            &&& result.active_probe == active_probe
        }),
{
}

/// A wait for states tells the state where it is one of those named, goes on where it is not and
/// time is left, and fails else. A name that stands for no state, or a board that is not there,
/// is refused.
pub proof fn waits_tell_the_state_named(
    result: Result<Option<BoardStateResult>, String>,
    boards: Map<Seq<char>, Board>,
    request: WaitStateRequest,
    state: BoardState,
    expired: bool,
    timestamp_ms: int,
)
    requires
        wait_outcome(result, boards, request, state, expired, timestamp_ms),
    ensures
        (exists|i: int|
            0 <= i < request.states@.len() && state_named((#[trigger] request.states@[i])@)
                is None) ==> result is Err,
        !boards.dom().contains(request.board_id@) ==> result is Err,
        boards.dom().contains(request.board_id@) && (forall|i: int|
            0 <= i < request.states@.len() ==> state_named((#[trigger] request.states@[i])@)
                is Some) ==> {
            let named = exists|i: int|
                0 <= i < request.states@.len() && state_named((#[trigger] request.states@[i])@)
                    == Some(state);
            &&& named ==> (result matches Ok(answer) && answer matches Some(told)
                && told@.state == state.name() && told@.board_id == request.board_id@
                && told@.timestamp_ms == timestamp_ms)
            &&& !named && !expired ==> (result matches Ok(answer) && answer is None)
            &&& !named && expired ==> result is Err
        },
{
    let names = texts(request.states@);
    lists_stand_for_their_states(names);
    assert forall|i: int| 0 <= i < names.len() implies #[trigger] names[i]
        == request.states@[i]@ by {}
    match states_named(names) {
        Ok(states) => {
            if exists|i: int|
                0 <= i < request.states@.len() && state_named((#[trigger] request.states@[i])@)
                    is None {
                let i = choose|i: int|
                    0 <= i < request.states@.len() && state_named((#[trigger] request.states@[i])@)
                        is None;
                assert(state_named(names[i]) == Some(states[i]));
            }
            if states.contains(state) {
                let i = choose|i: int| 0 <= i < states.len() && states[i] == state;
                assert(state_named(names[i]) == Some(states[i]));
                assert(state_named(request.states@[i]@) == Some(state));
            }
            if exists|i: int|
                0 <= i < request.states@.len() && state_named((#[trigger] request.states@[i])@)
                    == Some(state) {
                let i = choose|i: int|
                    0 <= i < request.states@.len() && state_named((#[trigger] request.states@[i])@)
                        == Some(state);
                assert(state_named(names[i]) == Some(states[i]));
                assert(states.contains(state));
            }
        },
        Err(text) => {
            let i = choose|i: int|
                0 <= i < names.len() && state_named(#[trigger] names[i]) is None;
            assert(state_named(request.states@[i]@) is None);
        },
    }
}

/// A power-on is settled at once where no state is to be awaited; else when the board shows the
/// state named, and it fails when the time is up before that.
pub proof fn power_on_settles_with_the_state_named(
    result: Result<bool, String>,
    boards: Map<Seq<char>, Board>,
    request: PowerOnRequest,
    state: BoardState,
    expired: bool,
)
    requires
        settled(result, boards, request, state, expired),
    ensures
        request.wait_for is None ==> (result matches Ok(done) && done),
        request.wait_for matches Some(name) ==> name@ == "none"@ ==> (result matches Ok(done)
            && done),
        request.wait_for matches Some(name) ==> name@ != "none"@ ==> {
            &&& state_named(name@) is None ==> result is Err
            &&& state_named(name@) is Some && !boards.dom().contains(request.board_id@)
                ==> result is Err
            &&& boards.dom().contains(request.board_id@) && state_named(name@) == Some(state) ==> (
            result matches Ok(done) && done)
            &&& boards.dom().contains(request.board_id@) && state_named(name@) is Some
                && state_named(name@) != Some(state) && !expired ==> (result matches Ok(done)
                && !done)
            &&& boards.dom().contains(request.board_id@) && state_named(name@) is Some
                && state_named(name@) != Some(state) && expired ==> result is Err
        },
{
    match request.wait_for {
        Some(name) => {
            if let Some(wanted) = state_named(name@) {
                let one = seq![wanted];
                assert(one.len() == 1 && one[0] == wanted);
                assert(one.contains(state) <==> wanted == state);
            }
        },
        None => {},
    }
}

/// Entering U-Boot never switches power, and ends with a wait for the prompt. It restarts the
/// board only with leave to: by `reset` from the prompt where a restart is asked for in any case,
/// by `reboot` from a Linux shell. A countdown is interrupted as configured; from elsewhere, and
/// without leave, it is refused.
pub proof fn entering_uboot_restarts_only_with_leave(
    result: Result<Operation, String>,
    boards: Map<Seq<char>, Board>,
    id: Seq<char>,
    restart: Seq<char>,
    state: BoardState,
)
    requires
        enters_uboot(result, boards, id, restart, state),
    ensures
        !boards.dom().contains(id) ==> result is Err,
        restart != "auto"@ && restart != "always"@ && restart != "never"@ ==> result is Err,
        result matches Ok(operation) ==> {
            let steps = operation@.steps;
            let profile = boards[id].profile;
            &&& operation@.board_id == id
            &&& switched(steps).len() == 0
            &&& awaited(steps).len() > 0
            &&& awaited(steps).last().0 == seq![BoardState::UbootPrompt]
            &&& restart == "never"@ ==> boundaries(steps) == 0
            &&& boundaries(steps) > 0 ==> state == BoardState::LinuxShell || (state
                == BoardState::UbootPrompt && restart == "always"@)
            &&& state == BoardState::LinuxShell ==> sent(steps)[0] == encode_utf8(
                "reboot"@ + "\r"@,
            )
            &&& state == BoardState::UbootPrompt && restart == "always"@ ==> sent(steps)[0]
                == encode_utf8("reset"@ + "\r"@)
            &&& state == BoardState::UbootPrompt && restart != "always"@ ==> sent(steps) == seq![
                encode_utf8("\r"@),
            ]
            &&& state == BoardState::UbootCountdown ==> sent(steps) == seq![
                encode_utf8(profile.uboot.interrupt@),
            ]
        },
        boards.dom().contains(id) && (restart == "auto"@ || restart == "always"@ || restart
            == "never"@) ==> (result is Ok <==> state == BoardState::UbootPrompt || state
            == BoardState::UbootCountdown || (state == BoardState::LinuxShell && restart
            != "never"@)),
{
    let profile = boards[id].profile;
    let timeout_ms = profile.timing.operation_timeout_ms as int;
    restarts_interrupt_the_boot(
        profile,
        "reset"@,
        "sent configured U-Boot reset command"@,
        timeout_ms,
    );
    restarts_interrupt_the_boot(
        profile,
        "reboot"@,
        "sent configured Linux reboot command"@,
        timeout_ms,
    );
    let prompt = seq![BoardState::UbootPrompt];
    assert(Seq::<char>::empty() + "\r"@ == "\r"@);
    console_operations_send_what_is_given(
        "enter_uboot"@,
        encode_utf8("\r"@),
        prompt,
        2_000,
        false,
    );
    console_operations_send_what_is_given(
        "enter_uboot"@,
        encode_utf8(profile.uboot.interrupt@),
        prompt,
        10_000,
        false,
    );
    reveal_strlit("always");
    reveal_strlit("never");
    reveal_strlit("auto");
    assert("always"@.len() == 6);
    assert("never"@.len() == 5);
    assert("auto"@.len() == 4);
}

} // verus!
