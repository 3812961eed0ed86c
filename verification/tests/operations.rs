use std::time::SystemTime;

use rpictl_mcp::config::{
    BoardProfile, Config, FlowControl, LinuxProfile, Parity, PowerProfile, SerialProfile,
    StatePatterns, TimingProfile, UbootProfile,
};
use rpictl_mcp::execution::Execution;
use rpictl_mcp::observation::{deadline, judge};
use rpictl_mcp::operations::{write_failed, OperationResult, WritePart};
use rpictl_mcp::power::{
    parse_identity, CommandReply, HostCommand, PowerGoal, PowerObservation, PowerTask, TextReply,
};
use rpictl_mcp::procedure::{completion, Action, Event, Operation};
use rpictl_mcp::state::BoardState;
use rpictl_mcp::{BoardRegistry, Error, ErrorCode};

const ON: &str = "Data = true, OnOff: TRUE";
const OFF: &str = "Data = false, OnOff: FALSE";

fn profile(identity: &str) -> BoardProfile {
    BoardProfile {
        board_id: "pi".into(),
        display_name: Some("Lab Pi".into()),
        serial: SerialProfile {
            device: "/dev/fake0".into(),
            baud_rate: 115_200,
            data_bits: 8,
            parity: Parity::NoParity,
            stop_bits: 1,
            flow_control: FlowControl::NoFlowControl,
        },
        power: PowerProfile {
            backend: "matter".into(),
            identity: identity.into(),
        },
        patterns: StatePatterns {
            uboot_countdown: "Hit any key".into(),
            uboot_prompt: "U-Boot>".into(),
            linux_boot: "Linux version".into(),
            linux_login: "login:".into(),
            linux_shell: "root@pi:#".into(),
            shutdown: Some("Power down".into()),
            fatal: vec![],
        },
        uboot: UbootProfile::default(),
        linux: LinuxProfile {
            account: Some("root".into()),
            credential_ref: None,
            shutdown_command: Some("poweroff".into()),
            allowed_commands: vec![],
        },
        timing: TimingProfile::default(),
    }
}

fn registry_of(profile: BoardProfile) -> BoardRegistry {
    BoardRegistry::new(Config {
        boards: vec![profile],
        serial_ring_bytes: 4096,
    })
    .unwrap()
}

fn registry() -> BoardRegistry {
    registry_of(profile("node=1;endpoint=2"))
}

fn show(registry: &mut BoardRegistry, text: &str) {
    registry
        .append_serial("pi", SystemTime::UNIX_EPOCH, text.as_bytes())
        .unwrap();
}

fn ran(text: &str) -> Event {
    Event::Replied {
        reply: CommandReply::Ran {
            success: true,
            stdout: text.as_bytes().to_vec(),
            stderr: vec![],
        },
    }
}

fn words(command: &HostCommand) -> String {
    format!("{} {}", command.program, command.arguments.join(" "))
}

/// Lets the operation proceed as far as it can by itself, and describes what it asks for then.
fn ask(operation: &mut Execution, registry: &mut BoardRegistry, now_ms: u64) -> String {
    for _ in 0..20 {
        match operation.action() {
            Action::Proceed => operation.step(registry, Event::Proceed, now_ms),
            Action::Run { command } => return words(&command),
            Action::Send { bytes } => {
                return format!("send {:?}", String::from_utf8(bytes).unwrap())
            }
            Action::Rest { ms } => return format!("rest {ms}"),
            Action::Finish => return "finish".into(),
            Action::Lease { deadline_ms } => return format!("lease {deadline_ms}"),
        }
    }
    panic!("the operation keeps proceeding");
}

/// Begins the operation, and gets it its lease.
fn lease(registry: &mut BoardRegistry, operation: Operation) -> Execution {
    let mut execution = registry.begin(operation, 1_000, 0).unwrap();
    assert!(!execution.holds_lease(registry));
    execution.ask(registry, 0);
    assert!(execution.holds_lease(registry));
    execution
}

fn finish(
    registry: &mut BoardRegistry,
    execution: Execution,
) -> Result<OperationResult, Error> {
    let result = execution.finish(registry, 1_250);
    assert!(registry.board("pi").unwrap().lease.owner().is_none());
    result
}

/// Answers a whole switch of power, from the first query to the last.
fn switch(operation: &mut Execution, registry: &mut BoardRegistry, before: &str, after: &str) {
    assert_eq!(ask(operation, registry, 0), "chip-tool onoff read on-off 1 2");
    operation.step(registry, ran(before), 0);
    let command = ask(operation, registry, 0);
    assert!(command == "chip-tool onoff on 1 2" || command == "chip-tool onoff off 1 2");
    operation.step(registry, ran("SUCCESS"), 0);
    assert_eq!(ask(operation, registry, 0), "chip-tool onoff read on-off 1 2");
    operation.step(registry, ran(after), 0);
}

fn identity(text: &str) -> Option<(String, String, Option<String>)> {
    parse_identity(text)
        .ok()
        .map(|found| (found.node, found.endpoint, found.mac))
}

#[test]
fn identities_are_parsed_by_key() {
    assert_eq!(
        identity(" node = 1 ; endpoint= 2;mac=60-15-6F-73-B3-A0;note"),
        Some((
            "1".into(),
            "2".into(),
            Some("60:15:6f:73:b3:a0".into())
        ))
    );
    assert_eq!(
        identity("endpoint=2;node=1;node=7;other=9"),
        Some(("7".into(), "2".into(), None))
    );
    assert_eq!(
        identity("node=;endpoint="),
        Some(("".into(), "".into(), None))
    );
    assert_eq!(identity("node=1"), None);
    assert_eq!(identity("node=1;endpoint=x"), None);
    assert_eq!(identity("node=1=1;endpoint=2"), None);
    assert_eq!(
        parse_identity("").unwrap_err().describe(),
        "INVALID_CONFIGURATION during power_identity: Matter identity requires numeric node and \
         endpoint"
    );
}

fn query(identity: &str) -> PowerTask {
    PowerTask::new(&profile(identity).power, PowerGoal::Query).unwrap()
}

fn text_reply(success: bool, stdout: &str, stderr: &str) -> TextReply {
    TextReply::Ran {
        success,
        stdout: stdout.into(),
        stderr: stderr.into(),
    }
}

fn ended(task: &PowerTask) -> Result<PowerObservation, Error> {
    assert!(task.command().is_none());
    task.result().unwrap()
}

#[test]
fn queries_read_the_state() {
    for (stdout, stderr, state) in [
        (ON, "", "on"),
        ("x", OFF, "off"),
        ("nothing", "", "unknown"),
        ("OnOff: TRUE OnOff: FALSE", "", "on"),
    ] {
        let mut task = query("node=1;endpoint=2");
        assert_eq!(
            words(&task.command().unwrap()),
            "chip-tool onoff read on-off 1 2"
        );
        assert!(task.result().is_none());
        task.resume_text(text_reply(true, stdout, stderr));
        let observation = ended(&task).unwrap();
        assert_eq!(observation.state, state);
        assert!(observation.identity_verified);
        assert_eq!(observation.raw, format!("{stdout}{stderr}"));
    }
}

#[test]
fn observations_keep_a_bounded_excerpt() {
    let mut task = query("node=1;endpoint=2");
    let long = format!("{}{}", "\u{e9}".repeat(5000), ON);
    task.resume(CommandReply::Ran {
        success: true,
        stdout: long.into_bytes(),
        stderr: b"\xff".to_vec(),
    });
    let observation = ended(&task).unwrap();
    assert_eq!(observation.state, "on");
    assert_eq!(observation.raw, "\u{e9}".repeat(4096));
    let mut task = query("node=1;endpoint=2");
    task.resume(CommandReply::Ran {
        success: true,
        stdout: b"a\xffb".to_vec(),
        stderr: vec![],
    });
    assert_eq!(ended(&task).unwrap().raw, "a\u{fffd}b");
}

#[test]
fn queries_search_the_neighbors_for_the_mac() {
    for (reply, verified) in [
        (text_reply(true, "192.168.10.108 lladdr AA:BB:CC", ""), true),
        (text_reply(false, "lladdr aa:bb:cc", ""), true),
        (text_reply(true, "none", "aa:bb:cc"), false),
        (
            TextReply::NotRun {
                reason: "no ip".into(),
            },
            false,
        ),
    ] {
        let mut task = query("node=1;endpoint=2;mac=AA-BB-CC");
        task.resume_text(text_reply(true, OFF, ""));
        assert_eq!(words(&task.command().unwrap()), "ip neigh");
        task.resume_text(reply);
        let observation = ended(&task).unwrap();
        assert_eq!(observation.state, "off");
        assert_eq!(observation.identity_verified, verified);
    }
}

#[test]
fn failed_queries_report_the_backend() {
    let mut task = query("node=1;endpoint=2");
    task.resume_text(text_reply(false, "out", "err"));
    assert_eq!(
        ended(&task).unwrap_err().describe(),
        "POWER_BACKEND_FAILED during power_query: outerr"
    );
    let mut task = query("node=1;endpoint=2");
    task.resume_text(TextReply::NotRun {
        reason: "not found".into(),
    });
    assert_eq!(
        ended(&task).unwrap_err().describe(),
        "POWER_BACKEND_FAILED during power_query: not found"
    );
    let mut other = profile("node=1;endpoint=2");
    other.power.backend = "fake".into();
    assert_eq!(
        PowerTask::new(&other.power, PowerGoal::Query)
            .unwrap_err()
            .describe(),
        "POWER_BACKEND_FAILED during power_query: only the matter backend is implemented"
    );
    assert_eq!(
        registry_of(other).power_state("pi").unwrap_err().code,
        ErrorCode::PowerBackendFailed
    );
    assert_eq!(
        registry().power_state("none").unwrap_err().message,
        "board \"none\" is not configured"
    );
}

#[test]
fn mismatched_identity_is_not_switched() {
    let power = profile("node=1;endpoint=2;mac=AA-BB-CC").power;
    let mut task = PowerTask::new(&power, PowerGoal::Switch { on: false }).unwrap();
    task.resume_text(text_reply(true, ON, ""));
    task.resume_text(text_reply(true, "lladdr 00:00:00", ""));
    assert_eq!(
        ended(&task).unwrap_err().describe(),
        "POWER_IDENTITY_MISMATCH during power_identity: configured Matter MAC was not found in \
         the host neighbor table"
    );
}

#[test]
fn switches_are_verified() {
    let power = profile("node=1;endpoint=2;mac=AA-BB-CC").power;
    let mut task = PowerTask::new(&power, PowerGoal::Switch { on: false }).unwrap();
    task.resume_text(text_reply(true, ON, ""));
    task.resume_text(text_reply(true, "aa:bb:cc", ""));
    assert_eq!(words(&task.command().unwrap()), "chip-tool onoff off 1 2");
    task.resume_text(text_reply(true, "", "SUCCESS"));
    assert_eq!(
        words(&task.command().unwrap()),
        "chip-tool onoff read on-off 1 2"
    );
    task.resume_text(text_reply(true, OFF, ""));
    task.resume_text(text_reply(true, "gone", ""));
    let observation = ended(&task).unwrap();
    assert_eq!(observation.state, "off");
    assert!(!observation.identity_verified);
    task.resume_text(text_reply(true, ON, ""));
    assert_eq!(ended(&task).unwrap().state, "off");

    let plain = profile("node=1;endpoint=2").power;
    let mut task = PowerTask::new(&plain, PowerGoal::Switch { on: true }).unwrap();
    task.resume_text(text_reply(true, OFF, ""));
    assert_eq!(words(&task.command().unwrap()), "chip-tool onoff on 1 2");
    task.resume_text(text_reply(true, "SUCCESS", ""));
    task.resume_text(text_reply(true, OFF, ""));
    assert_eq!(
        ended(&task).unwrap_err().describe(),
        "POWER_STATE_UNVERIFIED during power_verify: expected on, observed off"
    );

    for reply in [
        text_reply(true, "done", ""),
        text_reply(false, "SUCCESS", ""),
    ] {
        let mut task = PowerTask::new(&plain, PowerGoal::Switch { on: true }).unwrap();
        task.resume_text(text_reply(true, OFF, ""));
        task.resume_text(reply);
        let error = ended(&task).unwrap_err();
        assert_eq!(error.code, ErrorCode::PowerBackendFailed);
        assert_eq!(error.phase, "power_change");
    }
}

#[test]
fn power_on_verifies_marks_and_reports() {
    let mut registry = registry();
    show(&mut registry, "root@pi:# ");
    let operation = registry.power_on("pi").unwrap();
    let mut operation = lease(&mut registry, operation);
    assert_eq!(
        registry.list()[0].lease.owner().unwrap().operation,
        "power_on"
    );
    switch(&mut operation, &mut registry, OFF, ON);
    assert_eq!(ask(&mut operation, &mut registry, 0), "finish");
    assert_eq!(registry.list()[0].serial.generation(), 1);
    let result = finish(&mut registry, operation).unwrap();
    assert_eq!(result.operation_id.len(), 36);
    assert_eq!(result.board_id, "pi");
    assert_eq!(result.operation, "power_on");
    assert!(result.success);
    assert_eq!(
        (result.started_ms, result.finished_ms, result.elapsed_ms),
        (1_000, 1_250, 250)
    );
    assert_eq!(result.expected_state, None);
    assert_eq!(result.observed_state, "unknown");
    assert_eq!(result.output, ON);
    assert_eq!(result.actions, ["verified relay on"]);
    assert_eq!(result.policy_decision, None);
    assert!(registry.list()[0].lease.owner().is_none());
}

#[test]
fn failed_operations_release_their_lease() {
    let mut registry = registry();
    let operation = registry.power_on("pi").unwrap();
    let mut operation = lease(&mut registry, operation);
    ask(&mut operation, &mut registry, 0);
    operation.step(
        &mut registry,
        Event::Replied {
            reply: CommandReply::NotRun {
                reason: "gone".into(),
            },
        },
        0,
    );
    assert_eq!(ask(&mut operation, &mut registry, 0), "finish");
    let error = operation.finish(&mut registry, 1).unwrap_err();
    assert_eq!(
        error.describe(),
        "POWER_BACKEND_FAILED during power_query: gone"
    );
    assert!(registry.list()[0].lease.owner().is_none());
    let second = registry.power_on("pi").unwrap();
    lease(&mut registry, second);
}

#[test]
fn operations_wait_for_the_lease_as_long_as_the_profile_says() {
    let mut short = profile("node=1;endpoint=2");
    short.timing.operation_timeout_ms = 700;
    let mut registry = registry_of(short);
    assert_eq!(registry.lease_wait("pi").unwrap(), 700);
    assert_eq!(
        registry.lease_wait("none").unwrap_err().code,
        ErrorCode::BoardNotFound
    );
    let first = registry.power_on("pi").unwrap();
    let holder = first.owner();
    let first = lease(&mut registry, first);
    let second = registry.power_on("pi").unwrap();
    let mut second = registry.begin(second, 5, 1_000).unwrap();
    for now_ms in [1_000, 1_699] {
        second.ask(&mut registry, now_ms);
        assert_eq!(ask(&mut second, &mut registry, now_ms), "lease 1700");
        assert!(!second.holds_lease(&registry));
    }
    second.ask(&mut registry, 1_700);
    assert_eq!(ask(&mut second, &mut registry, 1_700), "finish");
    assert!(!second.holds_lease(&registry));
    let error = second.finish(&mut registry, 9).unwrap_err();
    assert_eq!(error.code, ErrorCode::BoardBusy);
    assert_eq!(
        error.message,
        format!(
            "board lease is held by operation {}",
            holder.operation_id
        )
    );
    assert_eq!(registry.list()[0].lease.owner(), Some(holder));
    assert!(first.holds_lease(&registry));
    let third = registry.power_on("pi").unwrap();
    let mut third = registry.begin(third, 5, 0).unwrap();
    third.ask(&mut registry, 0);
    let mut first = first;
    ask(&mut first, &mut registry, 0);
    first.step(
        &mut registry,
        Event::Replied {
            reply: CommandReply::NotRun {
                reason: "gone".into(),
            },
        },
        0,
    );
    first.finish(&mut registry, 9).unwrap_err();
    third.ask(&mut registry, 10_000);
    assert!(third.holds_lease(&registry));
    let stranger = self::registry_of({
        let mut other = profile("node=1;endpoint=2");
        other.board_id = "other".into();
        other
    });
    let lost = registry.power_on("pi").unwrap();
    assert_eq!(
        stranger.begin(lost, 0, 0).unwrap_err().code,
        ErrorCode::BoardNotFound
    );
}

#[test]
fn power_on_uboot_interrupts_the_fresh_countdown() {
    let mut registry = registry();
    show(&mut registry, "Hit any key U-Boot>");
    let operation = registry.power_on_uboot("pi", 3_000).unwrap();
    let mut operation = lease(&mut registry, operation);
    assert_eq!(
        ask(&mut operation, &mut registry, 0),
        "chip-tool onoff read on-off 1 2"
    );
    operation.step(&mut registry, ran(OFF), 0);
    switch(&mut operation, &mut registry, OFF, ON);
    assert_eq!(ask(&mut operation, &mut registry, 100), "rest 100");
    operation.step(&mut registry, Event::Rested, 3_099);
    assert_eq!(ask(&mut operation, &mut registry, 3_099), "rest 100");
    show(&mut registry, "Hit any key to stop");
    operation.step(&mut registry, Event::Rested, 3_100);
    assert_eq!(ask(&mut operation, &mut registry, 3_100), "send \" \"");
    operation.step(&mut registry, Event::Sent { result: Ok(()) }, 3_100);
    assert_eq!(ask(&mut operation, &mut registry, 3_100), "rest 100");
    show(&mut registry, "\nU-Boot> ");
    operation.step(&mut registry, Event::Rested, 13_100);
    assert_eq!(ask(&mut operation, &mut registry, 13_100), "finish");
    let result = finish(&mut registry, operation).unwrap();
    assert_eq!(result.expected_state.as_deref(), Some("uboot_prompt"));
    assert_eq!(result.observed_state, "uboot_prompt");
    assert_eq!(result.output, "observed uboot_prompt");
    assert_eq!(
        result.actions,
        [
            "verified relay on",
            "interrupted the fresh U-Boot autoboot countdown"
        ]
    );
}

#[test]
fn waits_end_at_their_deadline() {
    let mut registry = registry();
    show(&mut registry, "U-Boot>");
    let operation = registry
        .simple_console_operation(
            "pi",
            "enter_uboot",
            b"\r",
            &[BoardState::UbootPrompt],
            2_000,
            false,
        )
        .unwrap();
    let mut operation = lease(&mut registry, operation);
    assert_eq!(ask(&mut operation, &mut registry, 0), "send \"\\r\"");
    operation.step(&mut registry, Event::Sent { result: Ok(()) }, 10);
    assert_eq!(ask(&mut operation, &mut registry, 10), "rest 100");
    operation.step(&mut registry, Event::Rested, 2_009);
    assert_eq!(ask(&mut operation, &mut registry, 2_009), "rest 100");
    operation.step(&mut registry, Event::Proceed, 9_999);
    assert_eq!(ask(&mut operation, &mut registry, 2_009), "rest 100");
    operation.step(&mut registry, Event::Rested, 2_010);
    assert_eq!(ask(&mut operation, &mut registry, 2_010), "finish");
    assert_eq!(
        finish(&mut registry, operation)
            .unwrap_err()
            .describe(),
        "STATE_TIMEOUT during state_wait: fresh requested state was not observed before timeout"
    );
}

#[test]
fn boards_that_are_on_or_unknown_are_not_powered_on_afresh() {
    for (reading, text) in [
        (
            ON,
            "POWER_STATE_UNVERIFIED during power_on_uboot: board is already powered on; use \
             enter_uboot instead",
        ),
        (
            "?",
            "POWER_STATE_UNVERIFIED during power_on_uboot: board is not known to be powered off",
        ),
    ] {
        let mut registry = registry();
        let operation = registry.power_on_uboot("pi", 1).unwrap();
        let mut operation = lease(&mut registry, operation);
        ask(&mut operation, &mut registry, 0);
        operation.step(&mut registry, ran(reading), 0);
        assert_eq!(ask(&mut operation, &mut registry, 0), "finish");
        assert_eq!(
            finish(&mut registry, operation)
                .unwrap_err()
                .describe(),
            text
        );
    }
}

fn linux_until_shown(
    registry: &mut BoardRegistry,
    login: bool,
    shown: &str,
) -> Execution {
    let operation = registry.power_on_linux("pi", login, 1_000).unwrap();
    let mut operation = lease(registry, operation);
    ask(&mut operation, registry, 0);
    operation.step(registry, ran(OFF), 0);
    switch(&mut operation, registry, OFF, ON);
    assert_eq!(ask(&mut operation, registry, 0), "rest 100");
    show(registry, shown);
    operation.step(registry, Event::Rested, 0);
    operation
}

#[test]
fn power_on_linux_logs_in_where_asked_to() {
    let mut registry = registry();
    let mut operation = linux_until_shown(&mut registry, false, "login:");
    assert_eq!(ask(&mut operation, &mut registry, 0), "finish");
    let result = finish(&mut registry, operation).unwrap();
    assert_eq!(result.output, "observed linux_login");
    assert_eq!(result.expected_state.as_deref(), Some("linux_login"));

    let mut operation = linux_until_shown(&mut registry, true, "root@pi:#");
    assert_eq!(ask(&mut operation, &mut registry, 0), "finish");
    let result = finish(&mut registry, operation).unwrap();
    assert_eq!(result.output, "observed linux_shell");
    assert_eq!(result.actions, ["verified relay on"]);

    let mut operation = linux_until_shown(&mut registry, true, "login:");
    assert_eq!(ask(&mut operation, &mut registry, 0), "send \"root\\r\"");
    operation.step(&mut registry, Event::Sent { result: Ok(()) }, 0);
    ask(&mut operation, &mut registry, 0);
    show(&mut registry, "root@pi:#");
    operation.step(&mut registry, Event::Rested, 0);
    assert_eq!(ask(&mut operation, &mut registry, 0), "finish");
    let result = finish(&mut registry, operation).unwrap();
    assert_eq!(
        result.actions,
        ["verified relay on", "sent configured Linux account"]
    );
    assert_eq!(result.expected_state.as_deref(), Some("linux_shell"));

    let mut nobody = profile("node=1;endpoint=2");
    nobody.linux.account = None;
    let mut registry = registry_of(nobody);
    let mut operation = linux_until_shown(&mut registry, true, "login:");
    assert_eq!(ask(&mut operation, &mut registry, 0), "finish");
    assert_eq!(
        finish(&mut registry, operation)
            .unwrap_err()
            .describe(),
        "INVALID_CONFIGURATION during linux_login: Linux account is not configured"
    );
}

#[test]
fn power_off_needs_confirmation() {
    let registry = registry();
    for (error, message) in [
        (
            registry.forced_power_off("pi", false).unwrap_err(),
            "forced power-off requires confirmation=true",
        ),
        (
            registry.graceful_power_off("none", false).unwrap_err(),
            "graceful power-off requires confirmation=true",
        ),
        (
            registry.power_cycle("pi", false).unwrap_err(),
            "power cycle requires confirmation=true",
        ),
    ] {
        assert_eq!(error.code, ErrorCode::ConfirmationRequired);
        assert_eq!(error.phase, "confirmation");
        assert_eq!(error.message, message);
    }
    assert_eq!(
        registry.forced_power_off("none", true).unwrap_err().code,
        ErrorCode::BoardNotFound
    );
}

#[test]
fn forced_power_off_reports_the_relay() {
    let mut registry = registry();
    let operation = registry.forced_power_off("pi", true).unwrap();
    let mut operation = lease(&mut registry, operation);
    switch(&mut operation, &mut registry, ON, OFF);
    assert_eq!(ask(&mut operation, &mut registry, 0), "finish");
    let result = finish(&mut registry, operation).unwrap();
    assert_eq!(result.operation, "power_off");
    assert_eq!(result.expected_state.as_deref(), Some("powered_off"));
    assert_eq!(result.output, OFF);
    assert_eq!(result.actions, ["forced relay off"]);
}

#[test]
fn graceful_power_off_shuts_linux_down_first() {
    let mut registry = registry();
    let operation = registry.graceful_power_off("pi", true).unwrap();
    let mut operation = lease(&mut registry, operation);
    assert_eq!(ask(&mut operation, &mut registry, 0), "finish");
    assert_eq!(
        finish(&mut registry, operation)
            .unwrap_err()
            .describe(),
        "SHELL_NOT_SYNCHRONIZED during shutdown: a verified Linux shell is required"
    );

    show(&mut registry, "root@pi:#");
    let operation = registry.graceful_power_off("pi", true).unwrap();
    let mut operation = lease(&mut registry, operation);
    assert_eq!(ask(&mut operation, &mut registry, 0), "send \"sync\\r\"");
    operation.step(&mut registry, Event::Sent { result: Ok(()) }, 0);
    assert_eq!(ask(&mut operation, &mut registry, 0), "rest 1000");
    operation.step(&mut registry, Event::Rested, 1_000);
    assert_eq!(
        ask(&mut operation, &mut registry, 1_000),
        "send \"poweroff\\r\""
    );
    operation.step(&mut registry, Event::Sent { result: Ok(()) }, 1_000);
    assert_eq!(ask(&mut operation, &mut registry, 1_000), "rest 100");
    show(&mut registry, "Power down");
    operation.step(&mut registry, Event::Rested, 1_100);
    switch(&mut operation, &mut registry, ON, OFF);
    assert_eq!(ask(&mut operation, &mut registry, 1_100), "finish");
    let result = finish(&mut registry, operation).unwrap();
    assert_eq!(
        result.actions,
        [
            "sent sync",
            "sent configured shutdown command",
            "verified relay off after shutdown"
        ]
    );
    assert_eq!(result.output, OFF);
}

#[test]
fn graceful_power_off_does_not_fall_back_to_force() {
    let mut registry = registry();
    show(&mut registry, "root@pi:#");
    let operation = registry.graceful_power_off("pi", true).unwrap();
    let mut operation = lease(&mut registry, operation);
    ask(&mut operation, &mut registry, 0);
    operation.step(&mut registry, Event::Sent { result: Ok(()) }, 0);
    ask(&mut operation, &mut registry, 0);
    operation.step(&mut registry, Event::Rested, 0);
    ask(&mut operation, &mut registry, 0);
    operation.step(&mut registry, Event::Sent { result: Ok(()) }, 0);
    ask(&mut operation, &mut registry, 0);
    operation.step(&mut registry, Event::Rested, 30_000);
    assert_eq!(ask(&mut operation, &mut registry, 30_000), "finish");
    assert_eq!(
        finish(&mut registry, operation)
            .unwrap_err()
            .describe(),
        "STATE_TIMEOUT during state_wait: requested state was not observed before timeout"
    );

    let mut without = profile("node=1;endpoint=2");
    without.linux.shutdown_command = None;
    let mut registry = registry_of(without);
    show(&mut registry, "root@pi:#");
    let operation = registry.graceful_power_off("pi", true).unwrap();
    let mut operation = lease(&mut registry, operation);
    assert_eq!(ask(&mut operation, &mut registry, 0), "finish");
    assert_eq!(
        finish(&mut registry, operation).unwrap_err().message,
        "shutdown_command is not configured"
    );
}

#[test]
fn power_cycle_keeps_the_interval_and_restores_power() {
    let mut registry = registry();
    let operation = registry.power_cycle("pi", true).unwrap();
    let mut operation = lease(&mut registry, operation);
    switch(&mut operation, &mut registry, ON, OFF);
    assert_eq!(ask(&mut operation, &mut registry, 0), "rest 5000");
    operation.step(&mut registry, Event::Rested, 5_000);
    switch(&mut operation, &mut registry, OFF, ON);
    assert_eq!(ask(&mut operation, &mut registry, 5_000), "finish");
    assert_eq!(registry.list()[0].serial.generation(), 1);
    let result = finish(&mut registry, operation).unwrap();
    assert_eq!(result.output, ON);
    assert_eq!(
        result.actions,
        ["verified relay off", "verified relay restored on"]
    );
}

#[test]
fn power_cycle_tries_again_and_says_whether_power_is_back() {
    for (reading, text) in [
        (ON, "POWER_STATE_UNVERIFIED during power_verify: expected on, observed off; power was restored"),
        (OFF, "POWER_STATE_UNVERIFIED during power_verify: expected on, observed off; power was not restored"),
    ] {
        let mut registry = registry();
        let operation = registry.power_cycle("pi", true).unwrap();
        let mut operation = lease(&mut registry, operation);
        switch(&mut operation, &mut registry, ON, OFF);
        ask(&mut operation, &mut registry, 0);
        operation.step(&mut registry, Event::Rested, 5_000);
        switch(&mut operation, &mut registry, OFF, OFF);
        switch(&mut operation, &mut registry, OFF, reading);
        assert_eq!(ask(&mut operation, &mut registry, 5_000), "finish");
        assert_eq!(
            finish(&mut registry, operation)
                .unwrap_err()
                .describe(),
            text
        );
    }
}

#[test]
fn restarts_begin_a_generation_and_stop_in_uboot() {
    for (reset, command, note) in [
        (false, "send \"reboot\\r\"", "sent configured Linux reboot command"),
        (true, "send \"reset\\r\"", "sent configured U-Boot reset command"),
    ] {
        let mut registry = registry();
        let operation = if reset {
            registry.reset_into_uboot("pi", 500).unwrap()
        } else {
            registry.reboot_into_uboot("pi", 500).unwrap()
        };
        let mut operation = lease(&mut registry, operation);
        assert_eq!(ask(&mut operation, &mut registry, 0), command);
        assert_eq!(registry.list()[0].serial.generation(), 1);
        operation.step(&mut registry, Event::Sent { result: Ok(()) }, 0);
        ask(&mut operation, &mut registry, 0);
        show(&mut registry, "Hit any key");
        operation.step(&mut registry, Event::Rested, 100);
        assert_eq!(ask(&mut operation, &mut registry, 100), "send \" \"");
        operation.step(&mut registry, Event::Sent { result: Ok(()) }, 100);
        ask(&mut operation, &mut registry, 100);
        show(&mut registry, "U-Boot>");
        operation.step(&mut registry, Event::Rested, 200);
        assert_eq!(ask(&mut operation, &mut registry, 200), "finish");
        let result = finish(&mut registry, operation).unwrap();
        assert_eq!(result.operation, "enter_uboot");
        assert_eq!(
            result.actions,
            [note, "interrupted the fresh U-Boot autoboot countdown"]
        );
    }
}

fn linux_command(shown: &str) -> Result<OperationResult, Error> {
    let mut registry = registry();
    show(&mut registry, "root@pi:#");
    let operation = registry
        .console_command("pi", "run_linux_command", "uname -a", true, 1_000)
        .unwrap();
    let mut operation = lease(&mut registry, operation);
    let id = operation.operation().owner().operation_id.replace('-', "");
    assert_eq!(
        ask(&mut operation, &mut registry, 0),
        format!(
            "send {:?}",
            format!("uname -a; printf '\\n__RPICTL_{id}__:%s\\n' \"$?\"\r")
        )
    );
    operation.step(&mut registry, Event::Sent { result: Ok(()) }, 0);
    assert_eq!(ask(&mut operation, &mut registry, 0), "rest 100");
    show(
        &mut registry,
        &shown.replace("MARKER", &format!("__RPICTL_{id}__")),
    );
    operation.step(&mut registry, Event::Rested, 100);
    assert_eq!(ask(&mut operation, &mut registry, 100), "finish");
    let result = finish(&mut registry, operation)?;
    assert_eq!(result.output, shown.replace("MARKER", &format!("__RPICTL_{id}__")));
    Ok(result)
}

#[test]
fn linux_commands_complete_by_their_marker() {
    let result = linux_command("Linux\n\nMARKER:0\nroot@pi:# ").unwrap();
    assert_eq!(result.policy_decision.as_deref(), Some("unrestricted"));
    assert_eq!(result.actions, ["sent console command \"uname -a\""]);
    assert_eq!(result.observed_state, "linux_shell");
    assert_eq!(
        linux_command("uname; printf '\\nMARKER:%s\\n' \"$?\"\nMARKER:1\nroot@pi:# ")
            .unwrap_err()
            .describe(),
        "COMMAND_EXIT_NONZERO during command: Linux command returned a nonzero exit status"
    );
    assert_eq!(
        linux_command("nothing\nroot@pi:# ").unwrap_err().describe(),
        "COMMAND_TIMEOUT during command: Linux completion marker was not observed"
    );
}

#[test]
fn echoes_do_not_complete_commands() {
    assert_eq!(
        linux_command("uname -a; printf '\\nMARKER:%s\\n' \"$?\"\r\nroot@pi:# ")
            .unwrap_err()
            .code,
        ErrorCode::CommandExitNonzero
    );
    let registry = registry();
    let one = registry
        .console_command("pi", "run_linux_command", "id", true, 1)
        .unwrap();
    let other = registry
        .console_command("pi", "run_linux_command", "id", true, 1)
        .unwrap();
    assert_ne!(one.owner().operation_id, other.owner().operation_id);
}

#[test]
fn completion_is_read_from_the_output() {
    assert!(completion("x\n__M__:0\n", "__M__").is_ok());
    assert_eq!(
        completion("__M__:1", "__M__").unwrap_err().code,
        ErrorCode::CommandExitNonzero
    );
    assert_eq!(
        completion("x", "__M__").unwrap_err().code,
        ErrorCode::CommandTimeout
    );
}

#[test]
fn uboot_commands_synchronize_the_prompt_first() {
    let mut registry = registry();
    show(&mut registry, "U-Boot>");
    let operation = registry
        .console_command("pi", "run_uboot_command", "version", false, 1_000)
        .unwrap();
    let mut operation = lease(&mut registry, operation);
    assert_eq!(ask(&mut operation, &mut registry, 0), "send \"\\r\"");
    operation.step(&mut registry, Event::Sent { result: Ok(()) }, 0);
    assert_eq!(ask(&mut operation, &mut registry, 0), "rest 100");
    show(&mut registry, "\nU-Boot> ");
    operation.step(&mut registry, Event::Rested, 100);
    assert_eq!(ask(&mut operation, &mut registry, 100), "send \"version\\r\"");
    operation.step(&mut registry, Event::Sent { result: Ok(()) }, 100);
    assert_eq!(ask(&mut operation, &mut registry, 100), "rest 100");
    show(&mut registry, "version\n2024.01\nU-Boot> ");
    operation.step(&mut registry, Event::Rested, 200);
    assert_eq!(ask(&mut operation, &mut registry, 200), "finish");
    let result = finish(&mut registry, operation).unwrap();
    assert_eq!(result.output, "version\n2024.01\nU-Boot> ");
    assert_eq!(
        result.actions,
        [
            "synchronized the U-Boot prompt",
            "sent console command \"version\""
        ]
    );
    assert_eq!(
        registry
            .console_command("pi", "run_uboot_command", "a\nb", false, 1)
            .unwrap_err()
            .code,
        ErrorCode::CommandDenied
    );
    assert_eq!(
        registry
            .console_command("none", "run_uboot_command", "a\nb", false, 1)
            .unwrap_err()
            .code,
        ErrorCode::BoardNotFound
    );
}

#[test]
fn failed_writes_end_the_operation() {
    let mut registry = registry();
    let operation = registry
        .simple_console_operation("pi", "boot_linux", b"boot\r", &[], 1, true)
        .unwrap();
    let mut operation = lease(&mut registry, operation);
    assert_eq!(ask(&mut operation, &mut registry, 0), "send \"boot\\r\"");
    assert_eq!(registry.list()[0].serial.generation(), 1);
    operation.step(
        &mut registry,
        Event::Sent {
            result: Err(write_failed("unplugged".into())),
        },
        0,
    );
    assert_eq!(ask(&mut operation, &mut registry, 0), "finish");
    assert_eq!(
        finish(&mut registry, operation)
            .unwrap_err()
            .describe(),
        "SERIAL_DISCONNECTED during serial_write: unplugged"
    );
}

#[test]
fn writes_are_paced() {
    let mut paced = profile("node=1;endpoint=2");
    paced.timing.serial_pacing_ms = 3;
    let registry = registry_of(paced);
    assert_eq!(
        registry.write_console("pi", b"ab", true).unwrap(),
        [
            WritePart::Byte { value: b'a' },
            WritePart::Pause { ms: 3 },
            WritePart::Byte { value: b'b' },
            WritePart::Pause { ms: 3 },
            WritePart::Flush,
        ]
    );
    assert_eq!(
        self::registry().write_console("pi", b"a", true).unwrap(),
        [WritePart::Byte { value: b'a' }, WritePart::Flush]
    );
    assert_eq!(
        registry
            .write_console("pi", b"a", false)
            .unwrap_err()
            .describe(),
        "SERIAL_OPEN_FAILED during serial_write: serial device is not open"
    );
    assert_eq!(
        registry.write_console("none", b"a", true).unwrap_err().code,
        ErrorCode::BoardNotFound
    );
}

#[test]
fn waits_look_at_the_current_generation() {
    let mut registry = registry();
    show(&mut registry, "login:");
    let states = [BoardState::LinuxLogin];
    assert_eq!(
        registry.wait_for_states("pi", &states, None, 5, 4).unwrap(),
        Some(BoardState::LinuxLogin)
    );
    assert_eq!(
        registry
            .wait_for_states("pi", &states, Some(0), 5, 6)
            .unwrap(),
        Some(BoardState::LinuxLogin)
    );
    assert_eq!(
        registry
            .wait_for_states("pi", &states, Some(1), 5, 4)
            .unwrap(),
        None
    );
    assert_eq!(registry.mark_generation("pi").unwrap(), 1);
    assert_eq!(
        registry
            .wait_for_states("pi", &states, None, deadline(1, 4), 4)
            .unwrap(),
        None
    );
    assert_eq!(
        registry
            .wait_for_states("pi", &states, None, deadline(1, 4), 5)
            .unwrap_err()
            .message,
        "requested state was not observed before timeout"
    );
    assert_eq!(registry.observed_state("pi").unwrap(), BoardState::Unknown);
    assert_eq!(
        registry.state_since("pi", 0).unwrap(),
        BoardState::LinuxLogin
    );
    assert_eq!(registry.output_since("pi", 3).unwrap(), "in:");
    assert_eq!(
        judge(BoardState::LinuxLogin, &states, true, true).unwrap(),
        Some(BoardState::LinuxLogin)
    );
    assert_eq!(
        judge(BoardState::Unknown, &states, true, true)
            .unwrap_err()
            .message,
        "fresh requested state was not observed before timeout"
    );
}

#[test]
fn boards_keep_to_themselves() {
    let mut other = profile("node=3;endpoint=4");
    other.board_id = "other".into();
    other.serial.device = "/dev/fake1".into();
    let mut registry = BoardRegistry::new(Config {
        boards: vec![profile("node=1;endpoint=2"), other],
        serial_ring_bytes: 64,
    })
    .unwrap();
    let first = registry.power_on("pi").unwrap();
    let second = registry.power_on("other").unwrap();
    let first = lease(&mut registry, first);
    let second = lease(&mut registry, second);
    assert!(first.holds_lease(&registry));
    assert!(second.holds_lease(&registry));
    show(&mut registry, "login:");
    assert_eq!(registry.board("other").unwrap().serial.next_cursor(), 0);
    assert_eq!(
        registry
            .append_serial("none", SystemTime::UNIX_EPOCH, b"x")
            .unwrap_err()
            .code,
        ErrorCode::BoardNotFound
    );
}
