//! What the steps of each operation send, await, switch and rest, and for how long.

use vstd::prelude::*;
use vstd::utf8::encode_utf8;

use crate::config::BoardProfile;
use crate::error::ErrorCode;
use crate::operations::{
    completion_marker, console_steps, forced_power_off_steps, graceful_power_off_steps,
    linux_command_steps, marked_command, power_cycle_steps, power_on_linux_steps, power_on_steps,
    power_on_uboot_steps, probe_steps, reboot_into_uboot_steps, reset_into_uboot_steps,
    restart_steps, uboot_command_steps,
};
use crate::procedure::StepView;
use crate::state::BoardState;
use crate::text::{quoted, without};

verus! {

/// What the first `n` steps write to the console.
pub open spec fn sent_by(steps: Seq<StepView>, n: int) -> Seq<Seq<u8>>
    decreases n,
{
    if n <= 0 {
        Seq::empty()
    } else {
        match steps[n - 1] {
            StepView::Send { bytes } => sent_by(steps, n - 1).push(bytes),
            _ => sent_by(steps, n - 1),
        }
    }
}

/// What the steps write to the console, in order.
pub open spec fn sent(steps: Seq<StepView>) -> Seq<Seq<u8>> {
    sent_by(steps, steps.len() as int)
}

/// What the first `n` steps wait for, and for how long at most.
pub open spec fn awaited_by(steps: Seq<StepView>, n: int) -> Seq<(Seq<BoardState>, int)>
    decreases n,
{
    if n <= 0 {
        Seq::empty()
    } else {
        match steps[n - 1] {
            StepView::Await { states, timeout_ms, fresh } => awaited_by(steps, n - 1).push(
                (states, timeout_ms),
            ),
            _ => awaited_by(steps, n - 1),
        }
    }
}

/// What the steps wait for, in order, and for how long at most.
pub open spec fn awaited(steps: Seq<StepView>) -> Seq<(Seq<BoardState>, int)> {
    awaited_by(steps, steps.len() as int)
}

/// How the first `n` steps switch power.
pub open spec fn switched_by(steps: Seq<StepView>, n: int) -> Seq<bool>
    decreases n,
{
    if n <= 0 {
        Seq::empty()
    } else {
        match steps[n - 1] {
            StepView::Power { on, restore } => switched_by(steps, n - 1).push(on),
            _ => switched_by(steps, n - 1),
        }
    }
}

/// How the steps switch power, in order: `true` for on.
pub open spec fn switched(steps: Seq<StepView>) -> Seq<bool> {
    switched_by(steps, steps.len() as int)
}

/// How long the first `n` steps rest.
pub open spec fn rested_by(steps: Seq<StepView>, n: int) -> Seq<int>
    decreases n,
{
    if n <= 0 {
        Seq::empty()
    } else {
        match steps[n - 1] {
            StepView::Pause { ms } => rested_by(steps, n - 1).push(ms),
            _ => rested_by(steps, n - 1),
        }
    }
}

/// How long the steps rest, in order and in milliseconds.
pub open spec fn rested(steps: Seq<StepView>) -> Seq<int> {
    rested_by(steps, steps.len() as int)
}

/// How many of the first `n` steps begin a console generation.
pub open spec fn boundaries_by(steps: Seq<StepView>, n: int) -> int
    decreases n,
{
    if n <= 0 {
        0
    } else {
        boundaries_by(steps, n - 1) + if steps[n - 1] is Mark {
            1int
        } else {
            0
        }
    }
}

/// How many console generations the steps begin.
pub open spec fn boundaries(steps: Seq<StepView>) -> int {
    boundaries_by(steps, steps.len() as int)
}

/// What the first `n` steps note.
pub open spec fn noted_by(steps: Seq<StepView>, n: int) -> Seq<Seq<char>>
    decreases n,
{
    if n <= 0 {
        Seq::empty()
    } else {
        match steps[n - 1] {
            StepView::Note { text } => noted_by(steps, n - 1).push(text),
            _ => noted_by(steps, n - 1),
        }
    }
}

/// What the steps note, in order.
pub open spec fn noted(steps: Seq<StepView>) -> Seq<Seq<char>> {
    noted_by(steps, steps.len() as int)
}

/// Every wait of the steps lasts `timeout_ms` at most and no less.
pub open spec fn every_wait_lasts(steps: Seq<StepView>, timeout_ms: int) -> bool {
    forall|i: int|
        0 <= i < steps.len() ==> (#[trigger] steps[i] matches StepView::Await {
            states,
            timeout_ms: limit,
            fresh,
        } ==> limit == timeout_ms)
}

/// Every wait of the steps for one of the states lasts `timeout_ms`.
pub open spec fn every_wait_for_lasts(
    steps: Seq<StepView>,
    state: BoardState,
    timeout_ms: int,
) -> bool {
    forall|i: int|
        0 <= i < steps.len() ==> (#[trigger] steps[i] matches StepView::Await {
            states,
            timeout_ms: limit,
            fresh,
        } ==> (states.contains(state) ==> limit == timeout_ms))
}

/// The operations that take a timeout wait exactly so long: for Linux to boot and to log in, for
/// the states of a console operation, for the shell after a command, for the countdown of U-Boot
/// and for the prompt after a command.
pub proof fn waits_last_as_long_as_asked(
    profile: BoardProfile,
    login: bool,
    timeout_ms: int,
    name: Seq<char>,
    bytes: Seq<u8>,
    states: Seq<BoardState>,
    new_generation: bool,
    command: Seq<char>,
    operation_id: Seq<char>,
)
    ensures
        every_wait_lasts(power_on_linux_steps(profile, login, timeout_ms), timeout_ms),
        every_wait_lasts(
            console_steps(name, bytes, states, timeout_ms, new_generation),
            timeout_ms,
        ),
        every_wait_lasts(linux_command_steps(command, operation_id, timeout_ms), timeout_ms),
        every_wait_for_lasts(
            power_on_uboot_steps(profile, timeout_ms),
            BoardState::UbootCountdown,
            timeout_ms,
        ),
        every_wait_for_lasts(
            reboot_into_uboot_steps(profile, timeout_ms),
            BoardState::UbootCountdown,
            timeout_ms,
        ),
        every_wait_for_lasts(
            reset_into_uboot_steps(profile, timeout_ms),
            BoardState::UbootCountdown,
            timeout_ms,
        ),
        every_wait_lasts(
            graceful_power_off_steps(profile),
            profile.timing.operation_timeout_ms as int,
        ),
{
    prompts_are_no_countdown();
}

proof fn prompts_are_no_countdown()
    ensures
        !seq![BoardState::UbootPrompt].contains(BoardState::UbootCountdown),
{
    let one = seq![BoardState::UbootPrompt];
    assert(one.len() == 1 && one[0] == BoardState::UbootPrompt);
}

/// Powering on to Linux requires that power is off, switches it on, begins a generation and waits
/// for a login or a shell. To log in it sends the account with a carriage return and waits for
/// the shell; without an account it fails.
pub proof fn power_on_linux_boots_and_logs_in(
    profile: BoardProfile,
    login: bool,
    timeout_ms: int,
)
    ensures
        ({
            let steps = power_on_linux_steps(profile, login, timeout_ms);
            let boot = (seq![BoardState::LinuxLogin, BoardState::LinuxShell], timeout_ms);
            let shell = (seq![BoardState::LinuxShell], timeout_ms);
            &&& steps[0] matches StepView::RequireOff { error } && error.code
                == ErrorCode::PowerStateUnverified && error.phase == "power_on_linux"@
            &&& switched(steps) == seq![true]
            &&& boundaries(steps) == 1
            &&& rested(steps).len() == 0
            &&& awaited(steps) == if login && profile.linux.account is Some {
                seq![boot, shell]
            } else {
                seq![boot]
            }
            &&& sent(steps) == match profile.linux.account {
                Some(account) => if login {
                    seq![encode_utf8(account@ + "\r"@)]
                } else {
                    Seq::empty()
                },
                None => Seq::empty(),
            }
            &&& login ==> exists|i: int|
                0 <= i < steps.len() && #[trigger] steps[i] == (StepView::StopIf {
                    state: BoardState::LinuxShell,
                })
            &&& steps.last() is Fail <==> login && profile.linux.account is None
        }),
{
    reveal_with_fuel(sent_by, 12);
    reveal_with_fuel(awaited_by, 12);
    reveal_with_fuel(switched_by, 12);
    reveal_with_fuel(rested_by, 12);
    reveal_with_fuel(boundaries_by, 12);
    let steps = power_on_linux_steps(profile, login, timeout_ms);
    if login {
        assert(steps[6] == (StepView::StopIf { state: BoardState::LinuxShell }));
    }
}

/// Powering on to U-Boot requires that power is off, switches it on, begins a generation, waits
/// for the countdown, sends the interrupt as configured and waits for the prompt.
pub proof fn power_on_uboot_interrupts_the_boot(profile: BoardProfile, timeout_ms: int)
    ensures
        ({
            let steps = power_on_uboot_steps(profile, timeout_ms);
            &&& steps[0] matches StepView::RequireOff { error } && error.code
                == ErrorCode::PowerStateUnverified && error.phase == "power_on_uboot"@
            &&& switched(steps) == seq![true]
            &&& boundaries(steps) == 1
            &&& rested(steps).len() == 0
            &&& awaited(steps) == seq![
                (seq![BoardState::UbootCountdown], timeout_ms),
                (seq![BoardState::UbootPrompt], 10_000),
            ]
            &&& sent(steps) == seq![encode_utf8(profile.uboot.interrupt@)]
        }),
{
    reveal_with_fuel(sent_by, 12);
    reveal_with_fuel(awaited_by, 12);
    reveal_with_fuel(switched_by, 12);
    reveal_with_fuel(rested_by, 12);
    reveal_with_fuel(boundaries_by, 12);
}

/// Restarting into U-Boot begins a generation, sends the command with a carriage return, waits
/// for the countdown, sends the interrupt as configured and waits for the prompt; power stays as
/// it is.
pub proof fn restarts_interrupt_the_boot(
    profile: BoardProfile,
    command: Seq<char>,
    note: Seq<char>,
    timeout_ms: int,
)
    ensures
        ({
            let steps = restart_steps(profile, command, note, timeout_ms);
            &&& switched(steps).len() == 0
            &&& boundaries(steps) == 1
            &&& rested(steps).len() == 0
            &&& steps[0] is Mark
            &&& awaited(steps) == seq![
                (seq![BoardState::UbootCountdown], timeout_ms),
                (seq![BoardState::UbootPrompt], 10_000),
            ]
            &&& sent(steps) == seq![
                encode_utf8(command + "\r"@),
                encode_utf8(profile.uboot.interrupt@),
            ]
        }),
        sent(reboot_into_uboot_steps(profile, timeout_ms))[0] == encode_utf8("reboot"@ + "\r"@),
        sent(reset_into_uboot_steps(profile, timeout_ms))[0] == encode_utf8("reset"@ + "\r"@),
{
    reveal_with_fuel(sent_by, 12);
    reveal_with_fuel(awaited_by, 12);
    reveal_with_fuel(switched_by, 12);
    reveal_with_fuel(rested_by, 12);
    reveal_with_fuel(boundaries_by, 12);
}

/// Switching power does just that: on with a new generation, off by force, or off and on again
/// with a new generation, the configured time between the two.
pub proof fn switches_do_just_that(profile: BoardProfile)
    ensures
        switched(power_on_steps()) == seq![true],
        boundaries(power_on_steps()) == 1,
        switched(forced_power_off_steps()) == seq![false],
        boundaries(forced_power_off_steps()) == 0,
        switched(power_cycle_steps(profile)) == seq![false, true],
        boundaries(power_cycle_steps(profile)) == 1,
        rested(power_cycle_steps(profile)) == seq![profile.timing.power_cycle_off_ms as int],
        sent(power_on_steps()).len() == 0,
        sent(forced_power_off_steps()).len() == 0,
        sent(power_cycle_steps(profile)).len() == 0,
        awaited(power_on_steps()).len() == 0,
        awaited(forced_power_off_steps()).len() == 0,
        awaited(power_cycle_steps(profile)).len() == 0,
        rested(power_on_steps()).len() == 0,
        rested(forced_power_off_steps()).len() == 0,
        forall|i: int|
            0 <= i < power_cycle_steps(profile).len() ==> (#[trigger] power_cycle_steps(
                profile,
            )[i] matches StepView::Power { on, restore } ==> (restore <==> on)),
{
    reveal_with_fuel(sent_by, 12);
    reveal_with_fuel(awaited_by, 12);
    reveal_with_fuel(switched_by, 12);
    reveal_with_fuel(rested_by, 12);
    reveal_with_fuel(boundaries_by, 12);
}

/// A graceful power-off requires a Linux shell, sends `sync` and, a second later, the shutdown
/// command as configured, waits for the shutdown and switches power off; without a shutdown
/// command it fails.
pub proof fn graceful_power_off_syncs_and_shuts_down(profile: BoardProfile)
    ensures
        ({
            let steps = graceful_power_off_steps(profile);
            &&& steps[0] matches StepView::Require { state, error } && state
                == BoardState::LinuxShell && error.code == ErrorCode::ShellNotSynchronized
            &&& boundaries(steps) == 0
            &&& forall|i: int|
                0 <= i < steps.len() ==> (#[trigger] steps[i] matches StepView::Await {
                    states,
                    timeout_ms,
                    fresh,
                } ==> !fresh)
            &&& match profile.linux.shutdown_command {
                Some(command) => {
                    &&& sent(steps) == seq![
                        encode_utf8("sync"@ + "\r"@),
                        encode_utf8(command@ + "\r"@),
                    ]
                    &&& rested(steps) == seq![1_000int]
                    &&& awaited(steps) == seq![
                        (
                            seq![BoardState::ShutdownInProgress],
                            profile.timing.operation_timeout_ms as int,
                        ),
                    ]
                    &&& switched(steps) == seq![false]
                },
                None => {
                    &&& sent(steps).len() == 0
                    &&& switched(steps).len() == 0
                    &&& steps[1] matches StepView::Fail { error } && error.code
                        == ErrorCode::InvalidConfiguration
                },
            }
        }),
{
    reveal_with_fuel(sent_by, 12);
    reveal_with_fuel(awaited_by, 12);
    reveal_with_fuel(switched_by, 12);
    reveal_with_fuel(rested_by, 12);
    reveal_with_fuel(boundaries_by, 12);
}

/// A console operation sends exactly the bytes given and waits for exactly the states given; it
/// begins a generation first where one is asked for.
pub proof fn console_operations_send_what_is_given(
    name: Seq<char>,
    bytes: Seq<u8>,
    states: Seq<BoardState>,
    timeout_ms: int,
    new_generation: bool,
)
    ensures
        ({
            let steps = console_steps(name, bytes, states, timeout_ms, new_generation);
            &&& sent(steps) == seq![bytes]
            &&& awaited(steps) == seq![(states, timeout_ms)]
            &&& switched(steps).len() == 0
            &&& rested(steps).len() == 0
            &&& boundaries(steps) == if new_generation {
                1int
            } else {
                0
            }
            &&& new_generation <==> steps[0] is Mark
        }),
{
    reveal_with_fuel(sent_by, 12);
    reveal_with_fuel(awaited_by, 12);
    reveal_with_fuel(switched_by, 12);
    reveal_with_fuel(rested_by, 12);
    reveal_with_fuel(boundaries_by, 12);
}

/// A Linux command is sent with what shows its exit status behind the operation's own marker; the
/// shell is awaited, and the output has to show that marker.
pub proof fn linux_commands_show_their_status(
    command: Seq<char>,
    operation_id: Seq<char>,
    timeout_ms: int,
)
    ensures
        ({
            let steps = linux_command_steps(command, operation_id, timeout_ms);
            let marker = "__RPICTL_"@ + without(operation_id, '-') + "__"@;
            &&& sent(steps) == seq![
                encode_utf8(
                    command + "; printf '\\n"@ + marker + ":%s\\n' \"$?\""@ + "\r"@,
                ),
            ]
            &&& awaited(steps) == seq![(seq![BoardState::LinuxShell], timeout_ms)]
            &&& switched(steps).len() == 0
            &&& rested(steps).len() == 0
            &&& boundaries(steps) == 0
            &&& steps.last() == (StepView::Transcript { marker: Some(marker) })
            &&& completion_marker(operation_id) == marker
        }),
{
    reveal_with_fuel(sent_by, 12);
    reveal_with_fuel(awaited_by, 12);
    reveal_with_fuel(switched_by, 12);
    reveal_with_fuel(rested_by, 12);
    reveal_with_fuel(boundaries_by, 12);
    assert(marked_command(command, completion_marker(operation_id)) == command + "; printf '\\n"@
        + ("__RPICTL_"@ + without(operation_id, '-') + "__"@) + ":%s\\n' \"$?\""@);
}

/// A U-Boot command is sent with a carriage return at a prompt that an empty line made show; the
/// prompt is awaited again, and the output is taken as it is.
pub proof fn uboot_commands_follow_a_prompt(command: Seq<char>, timeout_ms: int)
    ensures
        ({
            let steps = uboot_command_steps(command, timeout_ms);
            &&& sent(steps) == seq![encode_utf8("\r"@), encode_utf8(command + "\r"@)]
            &&& awaited(steps) == seq![
                (seq![BoardState::UbootPrompt], 2_000),
                (seq![BoardState::UbootPrompt], timeout_ms),
            ]
            &&& switched(steps).len() == 0
            &&& rested(steps).len() == 0
            &&& boundaries(steps) == 0
            &&& steps.last() == (StepView::Transcript { marker: None })
        }),
{
    reveal_with_fuel(sent_by, 12);
    reveal_with_fuel(awaited_by, 12);
    reveal_with_fuel(switched_by, 12);
    reveal_with_fuel(rested_by, 12);
    reveal_with_fuel(boundaries_by, 12);
    assert(Seq::<char>::empty() + "\r"@ == "\r"@);
}

/// A probe sends one carriage return and rests as long as asked.
pub proof fn probes_send_one_carriage_return(duration_ms: int)
    ensures
        sent(probe_steps(duration_ms)) == seq![encode_utf8("\r"@)],
        rested(probe_steps(duration_ms)) == seq![duration_ms],
        awaited(probe_steps(duration_ms)).len() == 0,
        switched(probe_steps(duration_ms)).len() == 0,
        boundaries(probe_steps(duration_ms)) == 0,
{
    reveal_with_fuel(sent_by, 12);
    reveal_with_fuel(awaited_by, 12);
    reveal_with_fuel(switched_by, 12);
    reveal_with_fuel(rested_by, 12);
    reveal_with_fuel(boundaries_by, 12);
    assert(Seq::<char>::empty() + "\r"@ == "\r"@);
}

/// Each operation that switches power notes what it has verified of it.
pub proof fn switches_are_noted(profile: BoardProfile, login: bool, timeout_ms: int)
    ensures
        noted(power_on_steps()) == seq!["verified relay on"@],
        noted(forced_power_off_steps()) == seq!["forced relay off"@],
        noted(power_cycle_steps(profile)) == seq![
            "verified relay off"@,
            "verified relay restored on"@,
        ],
        noted(power_on_uboot_steps(profile, timeout_ms)) == seq![
            "verified relay on"@,
            "interrupted the fresh U-Boot autoboot countdown"@,
        ],
        noted(power_on_linux_steps(profile, login, timeout_ms)) == if login
            && profile.linux.account is Some {
            seq!["verified relay on"@, "sent configured Linux account"@]
        } else {
            seq!["verified relay on"@]
        },
        noted(graceful_power_off_steps(profile)) == if profile.linux.shutdown_command is Some {
            seq![
                "sent sync"@,
                "sent configured shutdown command"@,
                "verified relay off after shutdown"@,
            ]
        } else {
            Seq::empty()
        },
{
    reveal_with_fuel(noted_by, 12);
}

/// Each operation that writes to the console notes that it did: what was run is quoted, and
/// other input is told by the operation's name alone.
pub proof fn input_is_noted(
    profile: BoardProfile,
    name: Seq<char>,
    bytes: Seq<u8>,
    states: Seq<BoardState>,
    timeout_ms: int,
    new_generation: bool,
    command: Seq<char>,
    operation_id: Seq<char>,
)
    ensures
        noted(console_steps(name, bytes, states, timeout_ms, new_generation)) == seq![
            "sent configured console input for "@ + name,
        ],
        noted(reboot_into_uboot_steps(profile, timeout_ms)) == seq![
            "sent configured Linux reboot command"@,
            "interrupted the fresh U-Boot autoboot countdown"@,
        ],
        noted(reset_into_uboot_steps(profile, timeout_ms)) == seq![
            "sent configured U-Boot reset command"@,
            "interrupted the fresh U-Boot autoboot countdown"@,
        ],
        noted(linux_command_steps(command, operation_id, timeout_ms)) == seq![
            "sent console command "@ + quoted(command),
        ],
        noted(uboot_command_steps(command, timeout_ms)) == seq![
            "synchronized the U-Boot prompt"@,
            "sent console command "@ + quoted(command),
        ],
        noted(probe_steps(timeout_ms)) == seq!["sent one carriage return to probe the console"@],
{
    reveal_with_fuel(noted_by, 12);
}

/// What is sent follows directly on a cursor, so that every answer to it counts as new; and a
/// cursor is followed directly by what is sent, or begins a generation.
pub open spec fn answers_count(steps: Seq<StepView>) -> bool {
    &&& forall|i: int|
        0 <= i < steps.len() && #[trigger] steps[i] is Send ==> i > 0 && steps[i - 1] is Cursor
    &&& forall|i: int|
        0 <= i < steps.len() && #[trigger] steps[i] is Cursor ==> (i + 1 < steps.len()
            && steps[i + 1] is Send) || (i > 0 && steps[i - 1] is Mark)
}

/// A generation begins directly after power came on, or before anything else is done.
pub open spec fn generations_begin_with_power(steps: Seq<StepView>) -> bool {
    &&& forall|i: int|
        0 <= i < steps.len() && #[trigger] steps[i] is Mark ==> i == 0 || (
        steps[i - 1] matches StepView::Power { on, restore } && on)
    &&& forall|i: int|
        0 <= i < steps.len() ==> (#[trigger] steps[i] matches StepView::Power { on, restore } ==> on
            ==> i + 1 < steps.len() && steps[i + 1] is Mark)
}

/// Every operation that waits for an answer remembers where the console output ended before it
/// sends, and not after; every operation that switches power on begins a generation with it.
pub proof fn steps_stand_in_order(
    profile: BoardProfile,
    login: bool,
    timeout_ms: int,
    name: Seq<char>,
    bytes: Seq<u8>,
    states: Seq<BoardState>,
    new_generation: bool,
    command: Seq<char>,
    operation_id: Seq<char>,
)
    ensures
        answers_count(power_on_uboot_steps(profile, timeout_ms)),
        answers_count(power_on_linux_steps(profile, login, timeout_ms)),
        answers_count(console_steps(name, bytes, states, timeout_ms, new_generation)),
        answers_count(reboot_into_uboot_steps(profile, timeout_ms)),
        answers_count(reset_into_uboot_steps(profile, timeout_ms)),
        answers_count(linux_command_steps(command, operation_id, timeout_ms)),
        answers_count(uboot_command_steps(command, timeout_ms)),
        answers_count(probe_steps(timeout_ms)),
        generations_begin_with_power(power_on_steps()),
        generations_begin_with_power(power_cycle_steps(profile)),
        generations_begin_with_power(power_on_uboot_steps(profile, timeout_ms)),
        generations_begin_with_power(power_on_linux_steps(profile, login, timeout_ms)),
        generations_begin_with_power(
            console_steps(name, bytes, states, timeout_ms, new_generation),
        ),
        generations_begin_with_power(reboot_into_uboot_steps(profile, timeout_ms)),
        generations_begin_with_power(reset_into_uboot_steps(profile, timeout_ms)),
{
}

/// In a graceful power-off, the pause stands between `sync` and the shutdown command, the wait
/// for the shutdown after both, and the switch after the wait.
pub proof fn shutdowns_stand_in_order(profile: BoardProfile, i: int)
    requires
        0 <= i < graceful_power_off_steps(profile).len(),
    ensures
        ({
            let steps = graceful_power_off_steps(profile);
            &&& steps[i] is Pause ==> sent_by(steps, i) == seq![encode_utf8("sync"@ + "\r"@)]
            &&& steps[i] is Await ==> sent_by(steps, i).len() == 2 && switched_by(steps, i).len()
                == 0
            &&& steps[i] is Power ==> awaited_by(steps, i).len() == 1
        }),
{
    reveal_with_fuel(sent_by, 12);
    reveal_with_fuel(awaited_by, 12);
    reveal_with_fuel(switched_by, 12);
}

} // verus!
