//! What the operation that a request is answered with does to the board.

use vstd::prelude::*;
use vstd::utf8::encode_utf8;

use crate::config::BoardProfile;
use crate::mcp::{
    state_named, BoardStateRequest, BoardStateResult, BootLinuxRequest, CommandRequest,
    LinuxLoginRequest, PowerCycleRequest, PowerOffRequest, PowerOnLinuxRequest, PowerOnRequest,
    PowerOnUbootRequest, RebootLinuxRequest, StateAnswer,
};
use crate::plan_laws::{awaited, boundaries, rested, sent, switched};
use crate::procedure::{Operation, StepView};
use crate::registry::Board;
use crate::state::BoardState;
use crate::text::{trim, without};

verus! {

/// The operation is one on the board, not begun, and is called so.
pub open spec fn ready_on(operation: Operation, board_id: Seq<char>, name: Seq<char>) -> bool {
    &&& operation@.board_id == board_id
    &&& operation@.name == name
    &&& operation@.activity is Ready
    &&& operation@.actions.len() == 0
    &&& operation@.output.len() == 0
}

/// How long an operation may wait: as long as asked for, else as long as the profile says.
pub open spec fn patience(timeout_ms: Option<u64>, profile: BoardProfile) -> int {
    match timeout_ms {
        Some(ms) => ms as int,
        None => profile.timing.operation_timeout_ms as int,
    }
}

/// Turning on switches power on and writes nothing.
pub open spec fn turns_on(
    result: Result<Operation, String>,
    boards: Map<Seq<char>, Board>,
    request: PowerOnRequest,
) -> bool {
    &&& result is Ok <==> boards.dom().contains(request.board_id@)
    &&& result matches Ok(operation) ==> {
        &&& ready_on(operation, request.board_id@, "power_on"@)
        &&& switched(operation@.steps) == seq![true]
        &&& sent(operation@.steps).len() == 0
    }
}

/// Turning on to U-Boot switches on a board that is off, waits for the countdown as long as it
/// may, and interrupts it.
pub open spec fn turns_on_to_uboot(
    result: Result<Operation, String>,
    boards: Map<Seq<char>, Board>,
    request: PowerOnUbootRequest,
) -> bool {
    let profile = boards[request.board_id@].profile;
    &&& result is Ok <==> boards.dom().contains(request.board_id@)
    &&& result matches Ok(operation) ==> {
        let steps = operation@.steps;
        &&& ready_on(operation, request.board_id@, "power_on_uboot"@)
        &&& steps[0] is RequireOff
        &&& switched(steps) == seq![true]
        &&& sent(steps) == seq![encode_utf8(profile.uboot.interrupt@)]
        &&& awaited(steps)[0] == (
            seq![BoardState::UbootCountdown],
            patience(request.timeout_ms, profile),
        )
    }
}

/// Turning on to Linux switches on a board that is off, and waits for a login or a shell as long
/// as it may. It logs in only where that is asked for.
pub open spec fn turns_on_to_linux(
    result: Result<Operation, String>,
    boards: Map<Seq<char>, Board>,
    request: PowerOnLinuxRequest,
) -> bool {
    let profile = boards[request.board_id@].profile;
    let limit = patience(request.timeout_ms, profile);
    &&& result is Ok <==> boards.dom().contains(request.board_id@)
    &&& result matches Ok(operation) ==> {
        let steps = operation@.steps;
        &&& ready_on(operation, request.board_id@, "power_on_linux"@)
        &&& steps[0] is RequireOff
        &&& switched(steps) == seq![true]
        &&& awaited(steps)[0] == (seq![BoardState::LinuxLogin, BoardState::LinuxShell], limit)
        &&& request.login != Some(true) ==> sent(steps).len() == 0 && awaited(steps).len() == 1
        &&& request.login == Some(true) ==> (profile.linux.account matches Some(account)
            ==> sent(steps) == seq![encode_utf8(account@ + "\r"@)] && awaited(steps)[1] == (
            seq![BoardState::LinuxShell],
            limit,
        ))
    }
}

/// Turning off takes a reason, a known way and a confirmation. By force it switches power off and
/// does nothing else; gracefully it has the board sync and shut down first.
pub open spec fn turns_off(
    result: Result<Operation, String>,
    boards: Map<Seq<char>, Board>,
    request: PowerOffRequest,
) -> bool {
    let shutdown = boards[request.board_id@].profile.linux.shutdown_command;
    &&& result is Ok <==> boards.dom().contains(request.board_id@) && request.confirmation && trim(
        request.reason@,
    ).len() > 0 && (request.mode@ == "graceful"@ || request.mode@ == "force"@)
    &&& result matches Ok(operation) ==> {
        let steps = operation@.steps;
        &&& ready_on(operation, request.board_id@, "power_off"@)
        &&& operation@.expected == Some("powered_off"@)
        &&& request.mode@ == "force"@ ==> switched(steps) == seq![false] && sent(steps).len() == 0
            && awaited(steps).len() == 0
        &&& request.mode@ == "graceful"@ ==> steps[0] is Require && match shutdown {
            Some(command) => switched(steps) == seq![false] && sent(steps) == seq![
                encode_utf8("sync"@ + "\r"@),
                encode_utf8(command@ + "\r"@),
            ] && awaited(steps).len() == 1,
            None => switched(steps).len() == 0 && sent(steps).len() == 0,
        }
    }
}

/// A power cycle takes a reason, a known way and a confirmation. It switches power off and on
/// again, with the configured time between the two.
pub open spec fn cycles(
    result: Result<Operation, String>,
    boards: Map<Seq<char>, Board>,
    request: PowerCycleRequest,
) -> bool {
    let profile = boards[request.board_id@].profile;
    &&& result is Ok <==> boards.dom().contains(request.board_id@) && request.confirmation && trim(
        request.reason@,
    ).len() > 0 && (request.mode@ == "graceful"@ || request.mode@ == "force"@)
    &&& result matches Ok(operation) ==> {
        &&& ready_on(operation, request.board_id@, "power_cycle"@)
        &&& switched(operation@.steps) == seq![false, true]
        &&& rested(operation@.steps) == seq![profile.timing.power_cycle_off_ms as int]
        &&& sent(operation@.steps).len() == 0
    }
}

/// A text of one line: not empty, and without a control character.
pub open spec fn plain_line(text: Seq<char>) -> bool {
    text.len() > 0 && forall|i: int|
        0 <= i < text.len() ==> !(#[trigger] text[i] <= '\u{1f}') && !('\u{7f}' <= text[i]
            <= '\u{9f}')
}

/// Running a Linux command takes a command of one line. It sends that command with what shows its
/// exit status behind the operation's own marker, and waits for the shell as long as asked for.
pub open spec fn runs_in_linux(
    result: Result<Operation, String>,
    boards: Map<Seq<char>, Board>,
    request: CommandRequest,
) -> bool {
    &&& result is Ok <==> boards.dom().contains(request.board_id@) && plain_line(request.command@)
    &&& result matches Ok(operation) ==> {
        let steps = operation@.steps;
        let marker = "__RPICTL_"@ + without(operation@.operation_id, '-') + "__"@;
        &&& ready_on(operation, request.board_id@, "run_linux_command"@)
        &&& sent(steps) == seq![
            encode_utf8(
                request.command@ + "; printf '\\n"@ + marker + ":%s\\n' \"$?\""@ + "\r"@,
            ),
        ]
        &&& awaited(steps) == seq![(seq![BoardState::LinuxShell], request.timeout_ms as int)]
        &&& steps.last() == (StepView::Transcript { marker: Some(marker) })
        &&& switched(steps).len() == 0
    }
}

/// Running a U-Boot command takes a command of one line. It makes the prompt show, sends that
/// command, and waits for the prompt as long as asked for.
pub open spec fn runs_in_uboot(
    result: Result<Operation, String>,
    boards: Map<Seq<char>, Board>,
    request: CommandRequest,
) -> bool {
    &&& result is Ok <==> boards.dom().contains(request.board_id@) && plain_line(request.command@)
    &&& result matches Ok(operation) ==> {
        let steps = operation@.steps;
        &&& ready_on(operation, request.board_id@, "run_uboot_command"@)
        &&& sent(steps) == seq![encode_utf8("\r"@), encode_utf8(request.command@ + "\r"@)]
        &&& awaited(steps).last() == (
            seq![BoardState::UbootPrompt],
            request.timeout_ms as int,
        )
        &&& steps.last() == (StepView::Transcript { marker: None })
        &&& switched(steps).len() == 0
    }
}

/// Booting Linux sends the boot command as configured and waits, as long as it may, until Linux
/// boots, or until it can be logged in where a login is to follow.
pub open spec fn boots_linux(
    result: Result<Operation, String>,
    boards: Map<Seq<char>, Board>,
    request: BootLinuxRequest,
) -> bool {
    let profile = boards[request.board_id@].profile;
    &&& result is Ok <==> boards.dom().contains(request.board_id@)
    &&& result matches Ok(operation) ==> {
        let steps = operation@.steps;
        &&& ready_on(operation, request.board_id@, "boot_linux"@)
        &&& sent(steps) == seq![encode_utf8(profile.uboot.boot_command@ + "\r"@)]
        &&& awaited(steps).len() == 1
        &&& awaited(steps)[0].1 == patience(request.timeout_ms, profile)
        &&& awaited(steps)[0].0 == if request.login == Some(true) {
            seq![BoardState::LinuxLogin, BoardState::LinuxShell]
        } else {
            seq![BoardState::LinuxBooting, BoardState::LinuxLogin, BoardState::LinuxShell]
        }
        &&& switched(steps).len() == 0
    }
}

/// Logging in takes an account that is configured, and no other may be asked for. It sends the
/// account and waits for the shell as long as it may.
pub open spec fn logs_in(
    result: Result<Operation, String>,
    boards: Map<Seq<char>, Board>,
    request: LinuxLoginRequest,
) -> bool {
    let profile = boards[request.board_id@].profile;
    &&& result is Ok <==> boards.dom().contains(request.board_id@) && profile.linux.account is Some
        && (request.account is None || request.account->0@ == profile.linux.account->0@)
    &&& result matches Ok(operation) ==> {
        let steps = operation@.steps;
        &&& ready_on(operation, request.board_id@, "linux_login"@)
        &&& sent(steps) == seq![encode_utf8(profile.linux.account->0@ + "\r"@)]
        &&& awaited(steps) == seq![
            (seq![BoardState::LinuxShell], patience(request.timeout_ms, profile)),
        ]
        &&& switched(steps).len() == 0
    }
}

/// Rebooting takes a confirmation. It begins a generation, sends `reboot` and waits, as long as it
/// may, for the state asked for, or for any that shows a reboot.
pub open spec fn reboots(
    result: Result<Operation, String>,
    boards: Map<Seq<char>, Board>,
    request: RebootLinuxRequest,
) -> bool {
    let profile = boards[request.board_id@].profile;
    let signs = seq![BoardState::UbootCountdown, BoardState::LinuxBooting, BoardState::LinuxLogin];
    &&& result is Ok <==> boards.dom().contains(request.board_id@) && request.confirmation
        && match request.wait_for {
        Some(name) => state_named(name@) matches Some(state) && (state
            == BoardState::UbootCountdown || state == BoardState::LinuxBooting || state
            == BoardState::LinuxLogin),
        None => true,
    }
    &&& result matches Ok(operation) ==> {
        let steps = operation@.steps;
        &&& ready_on(operation, request.board_id@, "reboot_linux"@)
        &&& sent(steps) == seq![encode_utf8("reboot"@ + "\r"@)]
        &&& boundaries(steps) == 1
        &&& steps[0] is Mark
        &&& awaited(steps) == seq![
            (
                match request.wait_for {
                    Some(name) => seq![state_named(name@)->0],
                    None => signs,
                },
                patience(request.timeout_ms, profile),
            ),
        ]
        &&& switched(steps).len() == 0
    }
}

/// A request for a board's state tells the state that its console shows now, or makes the console
/// show more first: by one carriage return, and a rest as long as asked for, five seconds at most.
pub open spec fn tells_state(
    result: Result<StateAnswer, String>,
    boards: Map<Seq<char>, Board>,
    request: BoardStateRequest,
) -> bool {
    let board = boards[request.board_id@];
    &&& result is Ok <==> boards.dom().contains(request.board_id@)
    &&& result matches Ok(answer) ==> match answer {
        StateAnswer::Known { result: known } => {
            &&& request.active_probe != Some(true)
            &&& known@.board_id == request.board_id@
            &&& known@.state == board.current_state().name()
            &&& known@.console_generation == board.serial@.generation
            &&& !known@.active_probe
        },
        StateAnswer::Probe { operation } => {
            &&& request.active_probe == Some(true)
            &&& ready_on(operation, request.board_id@, "get_board_state"@)
            &&& sent(operation@.steps) == seq![encode_utf8("\r"@)]
            &&& rested(operation@.steps) == seq![
                match request.observe_duration_ms {
                    Some(ms) => if ms <= 5_000 {
                        ms as int
                    } else {
                        5_000
                    },
                    None => 500,
                },
            ]
            &&& switched(operation@.steps).len() == 0
        },
    }
}

/// After a probe, what is told is the state that the console showed since the probe began.
pub open spec fn tells_probed_state(
    result: Result<BoardStateResult, String>,
    boards: Map<Seq<char>, Board>,
    probe: Operation,
) -> bool {
    let board = boards[probe@.board_id];
    &&& result is Ok <==> boards.dom().contains(probe@.board_id)
    &&& result matches Ok(known) ==> {
        &&& known@.board_id == probe@.board_id
        &&& known@.state == board.state_since(probe@.cursor).name()
        &&& known@.console_generation == board.serial@.generation
        &&& known@.active_probe
    }
}

} // verus!
