use std::time::SystemTime;

use rpictl_mcp::config::{
    BoardProfile, Config, FlowControl, LinuxProfile, Parity, PowerProfile, SerialProfile,
    StatePatterns, TimingProfile, UbootProfile,
};
use rpictl_mcp::execution::Execution;
use rpictl_mcp::lease::LeaseOwner;
use rpictl_mcp::mcp::{
    boot_linux, capture_serial, enter_uboot, enter_uboot_from, get_board_state, get_power_state,
    linux_login, list_boards, parse_states, power_cycle, power_off, power_on, power_on_linux,
    power_on_settled, power_on_uboot, power_on_wait, power_state_result, probed_board_state, reboot_linux,
    run_linux_command, run_uboot_command, wait_answer, wait_for_state, BoardRequest, BoardStateRequest,
    BootLinuxRequest, CaptureSerialRequest, CommandRequest, EnterUbootRequest, LinuxLoginRequest,
    PowerCycleRequest, PowerOffRequest, PowerOnLinuxRequest, PowerOnRequest, PowerOnUbootRequest,
    RebootLinuxRequest, StateAnswer, WaitStateRequest,
};
use rpictl_mcp::power::{CommandReply, PowerObservation};
use rpictl_mcp::procedure::{Action, Event, Operation};
use rpictl_mcp::state::BoardState;
use rpictl_mcp::{BoardRegistry, Error, ErrorCode};

const MISSING: &str = "BOARD_NOT_FOUND during discovery: board \"none\" is not configured";

fn profile(id: &str, device: &str, identity: &str) -> BoardProfile {
    BoardProfile {
        board_id: id.into(),
        display_name: Some(format!("Board {id}")),
        serial: SerialProfile {
            device: device.into(),
            baud_rate: 115_200,
            data_bits: 8,
            parity: Parity::NoParity,
            stop_bits: 1,
            flow_control: FlowControl::NoFlowControl,
        },
        power: PowerProfile {
            backend: "matter".into(),
            identity: identity.into(),
        },
        patterns: StatePatterns {
            uboot_countdown: "Hit any key".into(),
            uboot_prompt: "U-Boot>".into(),
            linux_boot: "Linux version".into(),
            linux_login: "login:".into(),
            linux_shell: "root@pi:#".into(),
            shutdown: None,
            fatal: vec![],
        },
        uboot: UbootProfile::default(),
        linux: LinuxProfile {
            account: Some("root".into()),
            credential_ref: None,
            shutdown_command: Some("poweroff".into()),
            allowed_commands: vec![],
        },
        timing: TimingProfile::default(),
    }
}

fn registry() -> BoardRegistry {
    BoardRegistry::new(Config {
        boards: vec![
            profile("pi", "/dev/fake0", "node=1;endpoint=2"),
            profile("alt", "/dev/fake1", "node=3;endpoint=2"),
        ],
        serial_ring_bytes: 4096,
    })
    .unwrap()
}

fn show(registry: &mut BoardRegistry, text: &[u8]) {
    registry
        .append_serial("pi", SystemTime::UNIX_EPOCH, text)
        .unwrap();
}

fn lease(registry: &mut BoardRegistry, operation: Operation) -> Execution {
    let mut execution = registry.begin(operation, 0, 0).unwrap();
    execution.ask(registry, 0);
    assert!(execution.holds_lease(registry));
    execution
}

/// What the operation asks for first, once it has taken the steps that it can take by itself.
fn first_action(registry: &mut BoardRegistry, execution: &mut Execution) -> Action {
    for _ in 0..20 {
        match execution.action() {
            Action::Proceed => execution.step(registry, Event::Proceed, 0),
            other => return other,
        }
    }
    panic!("the operation keeps proceeding");
}

fn sent_first(registry: &mut BoardRegistry, execution: &mut Execution) -> String {
    match first_action(registry, execution) {
        Action::Send { bytes } => String::from_utf8(bytes).unwrap(),
        other => panic!("{other:?}"),
    }
}

/// What the operation writes first, on boards as they are.
fn first_send(registry: &mut BoardRegistry, operation: Operation) -> String {
    let board_id = operation.board_id().to_string();
    let owner = operation.owner();
    let mut execution = lease(registry, operation);
    let sent = sent_first(registry, &mut execution);
    assert_eq!(registry.board(&board_id).unwrap().lease.owner(), Some(owner));
    execution.step(
        registry,
        Event::Sent {
            result: Err(Error::new(
                ErrorCode::SerialDisconnected,
                "serial_write",
                "unplugged".into(),
            )),
        },
        0,
    );
    assert_eq!(
        execution.finish(registry, 0).unwrap_err().message,
        "unplugged"
    );
    sent
}

fn name(operation: &Operation) -> String {
    operation.owner().operation
}

#[test]
fn boards_are_listed_with_their_leases() {
    let mut registry = registry();
    registry
        .acquire(
            "pi",
            LeaseOwner {
                operation_id: "op-1".into(),
                operation: "power_on".into(),
            },
            0,
        )
        .unwrap();
    let list = list_boards(&registry);
    assert_eq!(list.len(), 2);
    assert_eq!(list[0].board_id, "alt");
    assert!(list[0].available);
    assert_eq!(list[0].lease_owner_operation_id, None);
    assert_eq!(list[1].board_id, "pi");
    assert_eq!(list[1].display_name.as_deref(), Some("Board pi"));
    assert_eq!(list[1].serial_device, "/dev/fake0");
    assert_eq!(list[1].power_backend, "matter");
    assert!(!list[1].available);
    assert_eq!(list[1].lease_owner_operation_id.as_deref(), Some("op-1"));
}

fn state_request(id: &str, duration: Option<u64>, probe: Option<bool>) -> BoardStateRequest {
    BoardStateRequest {
        board_id: id.into(),
        observe_duration_ms: duration,
        active_probe: probe,
    }
}

#[test]
fn board_state_is_read_passively() {
    let mut registry = registry();
    show(&mut registry, b"login:");
    registry.mark_generation("pi").unwrap();
    show(&mut registry, b"\xf0 U-Boot>");
    for probe in [None, Some(false)] {
        let answer = get_board_state(
            &registry,
            &state_request("pi", Some(9), probe),
            SystemTime::UNIX_EPOCH,
            77,
        )
        .unwrap();
        let StateAnswer::Known { result } = answer else {
            panic!("a probe was not asked for");
        };
        assert_eq!(result.board_id, "pi");
        assert_eq!(result.state, "uboot_prompt");
        assert_eq!(result.confidence_percent, 95);
        assert_eq!(result.timestamp_ms, 77);
        assert_eq!(result.console_generation, 1);
        assert_eq!(result.evidence, "U-Boot>");
        assert!(!result.active_probe);
    }
    assert_eq!(
        get_board_state(
            &registry,
            &state_request("none", None, None),
            SystemTime::UNIX_EPOCH,
            0
        )
        .unwrap_err(),
        MISSING
    );
}

#[test]
fn board_state_is_probed_on_request() {
    for (duration, rest) in [(None, 500), (Some(20), 20), (Some(60_000), 5_000)] {
        let mut registry = registry();
        show(&mut registry, b"U-Boot>");
        let answer = get_board_state(
            &registry,
            &state_request("pi", duration, Some(true)),
            SystemTime::UNIX_EPOCH,
            0,
        )
        .unwrap();
        let StateAnswer::Probe { operation } = answer else {
            panic!("a probe was asked for");
        };
        assert_eq!(name(&operation), "get_board_state");
        let mut operation = lease(&mut registry, operation);
        assert_eq!(sent_first(&mut registry, &mut operation), "\r");
        operation.step(&mut registry, Event::Sent { result: Ok(()) }, 0);
        assert!(matches!(
            first_action(&mut registry, &mut operation),
            Action::Rest { ms } if ms == rest
        ));
        show(&mut registry, b"\r\nlogin:");
        let result =
            probed_board_state(&registry, operation.operation(), SystemTime::UNIX_EPOCH, 5).unwrap();
        assert_eq!(result.state, "linux_login");
        assert_eq!(result.evidence, "login:");
        assert_eq!(result.timestamp_ms, 5);
        assert!(result.active_probe);
        operation.step(&mut registry, Event::Rested, 0);
        assert!(matches!(
            first_action(&mut registry, &mut operation),
            Action::Finish
        ));
    }
}

#[test]
fn power_state_names_the_configured_identity() {
    let registry = registry();
    let request = BoardRequest {
        board_id: "pi".into(),
    };
    let mut task = get_power_state(&registry, &request).unwrap();
    task.resume(CommandReply::Ran {
        success: true,
        stdout: b"OnOff: FALSE".to_vec(),
        stderr: vec![],
    });
    let result = power_state_result(&registry, &request, task.result().unwrap()).unwrap();
    assert_eq!(result.board_id, "pi");
    assert_eq!(result.state, "off");
    assert_eq!(result.backend, "matter");
    assert_eq!(result.configured_identity, "node=1;endpoint=2");
    assert!(result.identity_verified);
    assert_eq!(result.detail, "OnOff: FALSE");
    assert_eq!(
        power_state_result(
            &registry,
            &request,
            Err(Error::new(
                ErrorCode::PowerBackendFailed,
                "power_query",
                "gone".into()
            ))
        )
        .unwrap_err(),
        "POWER_BACKEND_FAILED during power_query: gone"
    );
    let missing = BoardRequest {
        board_id: "none".into(),
    };
    assert_eq!(get_power_state(&registry, &missing).unwrap_err(), MISSING);
    let observation = PowerObservation {
        state: "on".into(),
        identity_verified: true,
        raw: "".into(),
    };
    assert_eq!(
        power_state_result(&registry, &missing, Ok(observation)).unwrap_err(),
        MISSING
    );
}

fn capture(max_bytes: Option<usize>, cursor: Option<u64>) -> CaptureSerialRequest {
    CaptureSerialRequest {
        board_id: "pi".into(),
        max_bytes,
        cursor,
    }
}

#[test]
fn captures_are_windows_on_the_output() {
    let mut registry = registry();
    show(&mut registry, b"abcdef");
    let all = capture_serial(&registry, &capture(None, None)).unwrap();
    assert_eq!(all.text, "abcdef");
    assert_eq!((all.start_cursor, all.next_cursor), (0, 6));
    assert!(!all.truncated);
    assert!(!all.invalid_utf8);
    let end = capture_serial(&registry, &capture(Some(2), None)).unwrap();
    assert_eq!(end.text, "ef");
    assert_eq!((end.start_cursor, end.next_cursor), (4, 6));
    let one = capture_serial(&registry, &capture(Some(0), Some(1))).unwrap();
    assert_eq!(one.text, "b");
    assert_eq!((one.start_cursor, one.next_cursor), (1, 2));
    assert!(one.truncated);
    let resumed = capture_serial(&registry, &capture(Some(3), Some(one.next_cursor))).unwrap();
    assert_eq!(resumed.text, "cde");
    show(&mut registry, b"\xe9");
    let invalid = capture_serial(&registry, &capture(Some(usize::MAX), Some(5))).unwrap();
    assert_eq!(invalid.text, "f\u{fffd}");
    assert!(invalid.invalid_utf8);
    assert_eq!(invalid.console_generation, 0);
    let mut missing = capture(None, None);
    missing.board_id = "none".into();
    assert_eq!(capture_serial(&registry, &missing).unwrap_err(), MISSING);
}

#[test]
fn states_are_parsed_by_name() {
    let names: Vec<String> = [
        "uboot",
        "uboot_prompt",
        "uboot_countdown",
        "linux_booting",
        "linux_login",
        "linux_shell",
        "shutdown_in_progress",
    ]
    .iter()
    .map(|name| name.to_string())
    .collect();
    assert_eq!(
        parse_states(&names).unwrap(),
        [
            BoardState::UbootPrompt,
            BoardState::UbootPrompt,
            BoardState::UbootCountdown,
            BoardState::LinuxBooting,
            BoardState::LinuxLogin,
            BoardState::LinuxShell,
            BoardState::ShutdownInProgress,
        ]
    );
    assert!(parse_states(&[]).unwrap().is_empty());
    assert_eq!(
        parse_states(&["linux_login".into(), "x".into(), "y".into()]).unwrap_err(),
        "unknown state \"x\""
    );
    for state in parse_states(&names).unwrap() {
        assert_eq!(parse_states(&[state.state_name()]).unwrap(), [state]);
    }
}

fn power_on_request(wait_for: Option<&str>) -> PowerOnRequest {
    PowerOnRequest {
        board_id: "pi".into(),
        wait_for: wait_for.map(str::to_string),
    }
}

#[test]
fn power_on_can_wait_for_a_state() {
    let registry = registry();
    assert_eq!(
        name(&power_on(&registry, &power_on_request(None)).unwrap()),
        "power_on"
    );
    assert_eq!(power_on_wait(&power_on_request(None)).unwrap(), None);
    assert_eq!(power_on_wait(&power_on_request(Some("none"))).unwrap(), None);
    assert_eq!(
        power_on_wait(&power_on_request(Some("linux_login"))).unwrap(),
        Some(vec![BoardState::LinuxLogin])
    );
    assert_eq!(
        power_on_wait(&power_on_request(Some("on"))).unwrap_err(),
        "unknown state \"on\""
    );
    let missing = PowerOnRequest {
        board_id: "none".into(),
        wait_for: None,
    };
    assert_eq!(power_on(&registry, &missing).unwrap_err(), MISSING);
}

#[test]
fn power_on_flows_are_planned() {
    let registry = registry();
    let uboot = PowerOnUbootRequest {
        board_id: "pi".into(),
        timeout_ms: None,
    };
    assert_eq!(
        name(&power_on_uboot(&registry, &uboot).unwrap()),
        "power_on_uboot"
    );
    let linux = PowerOnLinuxRequest {
        board_id: "pi".into(),
        timeout_ms: Some(5),
        login: Some(true),
    };
    assert_eq!(
        name(&power_on_linux(&registry, &linux).unwrap()),
        "power_on_linux"
    );
    let missing = PowerOnUbootRequest {
        board_id: "none".into(),
        timeout_ms: None,
    };
    assert_eq!(power_on_uboot(&registry, &missing).unwrap_err(), MISSING);
    let missing = PowerOnLinuxRequest {
        board_id: "none".into(),
        timeout_ms: None,
        login: None,
    };
    assert_eq!(power_on_linux(&registry, &missing).unwrap_err(), MISSING);
}

fn off(mode: &str, reason: &str, confirmation: bool) -> Result<Operation, String> {
    power_off(
        &registry(),
        &PowerOffRequest {
            board_id: "pi".into(),
            mode: mode.into(),
            reason: reason.into(),
            confirmation,
        },
    )
}

#[test]
fn power_off_needs_reason_mode_and_confirmation() {
    assert_eq!(off("force", " \t", true).unwrap_err(), "reason is required");
    assert_eq!(
        off("hard", "test", true).unwrap_err(),
        "mode must be graceful or force"
    );
    assert_eq!(
        off("force", "test", false).unwrap_err(),
        "CONFIRMATION_REQUIRED during confirmation: forced power-off requires confirmation=true"
    );
    assert_eq!(
        off("graceful", "test", false).unwrap_err(),
        "CONFIRMATION_REQUIRED during confirmation: graceful power-off requires confirmation=true"
    );
    assert_eq!(name(&off("graceful", "test", true).unwrap()), "power_off");
    let mut registry = registry();
    let mut operation = lease(&mut registry, off("force", "test", true).unwrap());
    assert!(matches!(
        first_action(&mut registry, &mut operation),
        Action::Run { .. }
    ));
}

fn cycle(id: &str, mode: &str, reason: &str, confirmation: bool) -> Result<Operation, String> {
    power_cycle(
        &registry(),
        &PowerCycleRequest {
            board_id: id.into(),
            mode: mode.into(),
            reason: reason.into(),
            wait_for: Some("anything".into()),
            confirmation,
        },
    )
}

#[test]
fn power_cycle_needs_reason_mode_and_confirmation() {
    assert_eq!(
        cycle("pi", "x", "", true).unwrap_err(),
        "reason is required"
    );
    assert_eq!(
        cycle("pi", "x", "r", true).unwrap_err(),
        "mode must be graceful or force"
    );
    assert_eq!(
        cycle("none", "force", "r", false).unwrap_err(),
        "CONFIRMATION_REQUIRED during confirmation: power cycle requires confirmation=true"
    );
    assert_eq!(cycle("none", "force", "r", true).unwrap_err(), MISSING);
    assert_eq!(
        name(&cycle("pi", "graceful", "r", true).unwrap()),
        "power_cycle"
    );
}

fn wait(states: &[&str]) -> WaitStateRequest {
    WaitStateRequest {
        board_id: "pi".into(),
        states: states.iter().map(|state| state.to_string()).collect(),
        timeout_ms: 50,
    }
}

#[test]
fn waits_end_with_a_named_state_or_at_their_timeout() {
    let mut registry = registry();
    let request = wait(&["linux_shell", "linux_login"]);
    assert!(wait_for_state(&registry, &request, 100, 149, 12)
        .unwrap()
        .is_none());
    assert_eq!(
        wait_for_state(&registry, &request, 100, 150, 12).unwrap_err(),
        "STATE_TIMEOUT during state_wait: requested state was not observed before timeout"
    );
    show(&mut registry, b"U-Boot>");
    assert!(wait_for_state(&registry, &request, 100, 149, 12)
        .unwrap()
        .is_none());
    show(&mut registry, b"login:");
    let result = wait_for_state(&registry, &request, 100, 150, 12)
        .unwrap()
        .unwrap();
    assert_eq!(result.board_id, "pi");
    assert_eq!(result.state, "linux_login");
    assert_eq!(result.confidence_percent, 95);
    assert_eq!(result.timestamp_ms, 12);
    assert_eq!(result.console_generation, 0);
    assert_eq!(result.evidence, "matched current console generation");
    assert!(!result.active_probe);
    assert_eq!(
        wait_for_state(&registry, &wait(&["linux_login", "on"]), 0, 0, 0).unwrap_err(),
        "unknown state \"on\""
    );
    let mut missing = wait(&["linux_login"]);
    missing.board_id = "none".into();
    assert_eq!(
        wait_for_state(&registry, &missing, 0, 0, 0).unwrap_err(),
        MISSING
    );
    assert_eq!(
        wait_answer(&request, BoardState::LinuxShell, 3).state,
        "linux_shell"
    );
}

#[test]
fn power_on_settles_when_its_state_shows() {
    let mut registry = registry();
    for wait_for in [None, Some("none")] {
        assert!(power_on_settled(&registry, &power_on_request(wait_for), 0, 0).unwrap());
    }
    let request = power_on_request(Some("linux_login"));
    assert!(!power_on_settled(&registry, &request, 10, 30_009).unwrap());
    assert_eq!(
        power_on_settled(&registry, &request, 10, 30_010).unwrap_err(),
        "STATE_TIMEOUT during state_wait: requested state was not observed before timeout"
    );
    show(&mut registry, b"login:");
    assert!(power_on_settled(&registry, &request, 10, 30_010).unwrap());
    assert_eq!(
        power_on_settled(&registry, &power_on_request(Some("on")), 0, 0).unwrap_err(),
        "unknown state \"on\""
    );
    let missing = PowerOnRequest {
        board_id: "none".into(),
        wait_for: Some("linux_login".into()),
    };
    assert_eq!(
        power_on_settled(&registry, &missing, 0, 0).unwrap_err(),
        MISSING
    );
}

fn enter(state: BoardState, restart: &str) -> Result<String, String> {
    let mut registry = registry();
    let operation = enter_uboot_from(
        &registry,
        &EnterUbootRequest {
            board_id: "pi".into(),
            restart: restart.into(),
        },
        state,
    )?;
    assert_eq!(name(&operation), "enter_uboot");
    Ok(first_send(&mut registry, operation))
}

#[test]
fn uboot_is_entered_by_what_the_state_allows() {
    assert_eq!(enter(BoardState::UbootPrompt, "never").unwrap(), "\r");
    assert_eq!(enter(BoardState::UbootPrompt, "auto").unwrap(), "\r");
    assert_eq!(
        enter(BoardState::UbootPrompt, "always").unwrap(),
        "reset\r"
    );
    assert_eq!(enter(BoardState::UbootCountdown, "never").unwrap(), " ");
    assert_eq!(
        enter(BoardState::LinuxShell, "auto").unwrap(),
        "reboot\r"
    );
    assert_eq!(
        enter(BoardState::LinuxShell, "never").unwrap_err(),
        "U-Boot is not active and restart=never"
    );
    assert_eq!(
        enter(BoardState::Unknown, "always").unwrap_err(),
        "automatic restart requires a known Linux shell or U-Boot prompt"
    );
    assert_eq!(
        enter(BoardState::Unknown, "maybe").unwrap_err(),
        "restart must be auto, always, or never"
    );
}

#[test]
fn uboot_is_entered_from_what_the_console_shows() {
    let mut registry = registry();
    show(&mut registry, b"Hit any key");
    let request = EnterUbootRequest {
        board_id: "pi".into(),
        restart: "auto".into(),
    };
    let operation = enter_uboot(&registry, &request).unwrap();
    assert_eq!(first_send(&mut registry, operation), " ");
    let missing = EnterUbootRequest {
        board_id: "none".into(),
        restart: "bad".into(),
    };
    assert_eq!(enter_uboot(&registry, &missing).unwrap_err(), MISSING);
}

fn command(id: &str, text: &str) -> CommandRequest {
    CommandRequest {
        board_id: id.into(),
        command: text.into(),
        timeout_ms: 1_000,
        expected_patterns: None,
        allow_reboot: None,
    }
}

#[test]
fn commands_are_one_line() {
    let mut registry = registry();
    let denied =
        "COMMAND_DENIED during policy: command must be one nonempty line without control characters";
    for text in ["", "a\nb", "a\u{1b}b"] {
        assert_eq!(
            run_uboot_command(&registry, &command("pi", text)).unwrap_err(),
            denied
        );
        assert_eq!(
            run_linux_command(&registry, &command("pi", text)).unwrap_err(),
            denied
        );
    }
    assert_eq!(
        run_linux_command(&registry, &command("none", "")).unwrap_err(),
        MISSING
    );
    let operation = run_linux_command(&registry, &command("pi", "id")).unwrap();
    assert_eq!(name(&operation), "run_linux_command");
    let sent = first_send(&mut registry, operation);
    assert!(sent.starts_with("id; printf '\\n__RPICTL_"));
    assert!(sent.ends_with("__:%s\\n' \"$?\"\r"));
    let operation = run_uboot_command(&registry, &command("pi", "help")).unwrap();
    assert_eq!(name(&operation), "run_uboot_command");
}

#[test]
fn linux_is_booted_by_the_configured_command() {
    let registry = registry();
    for (login, shown, done) in [
        (None, &b"Linux version"[..], true),
        (Some(true), &b"Linux version"[..], false),
        (Some(true), &b"login:"[..], true),
    ] {
        let request = BootLinuxRequest {
            board_id: "pi".into(),
            login,
            timeout_ms: Some(100),
        };
        let mut registry = self::registry();
        let operation = boot_linux(&registry, &request).unwrap();
        assert_eq!(name(&operation), "boot_linux");
        let mut operation = lease(&mut registry, operation);
        assert_eq!(sent_first(&mut registry, &mut operation), "boot\r");
        operation.step(&mut registry, Event::Sent { result: Ok(()) }, 0);
        show(&mut registry, shown);
        let action = first_action(&mut registry, &mut operation);
        assert_eq!(matches!(action, Action::Finish), done);
    }
    let missing = BootLinuxRequest {
        board_id: "none".into(),
        login: None,
        timeout_ms: None,
    };
    assert_eq!(boot_linux(&registry, &missing).unwrap_err(), MISSING);
}

fn login(account: Option<&str>) -> LinuxLoginRequest {
    LinuxLoginRequest {
        board_id: "pi".into(),
        account: account.map(str::to_string),
        timeout_ms: None,
    }
}

#[test]
fn login_uses_the_configured_account_only() {
    let mut registry = registry();
    for account in [None, Some("root")] {
        let operation = linux_login(&registry, &login(account)).unwrap();
        assert_eq!(name(&operation), "linux_login");
        assert_eq!(first_send(&mut registry, operation), "root\r");
    }
    assert_eq!(
        linux_login(&registry, &login(Some("admin"))).unwrap_err(),
        "requested account is not configured"
    );
    let mut nobody = profile("pi", "/dev/fake0", "node=1;endpoint=2");
    nobody.linux.account = None;
    let registry = BoardRegistry::new(Config {
        boards: vec![nobody],
        serial_ring_bytes: 64,
    })
    .unwrap();
    assert_eq!(
        linux_login(&registry, &login(None)).unwrap_err(),
        "Linux account is not configured"
    );
}

fn reboot(wait_for: Option<&str>, confirmation: bool) -> RebootLinuxRequest {
    RebootLinuxRequest {
        board_id: "pi".into(),
        wait_for: wait_for.map(str::to_string),
        timeout_ms: None,
        confirmation,
    }
}

#[test]
fn reboot_waits_for_passive_states_only() {
    let mut registry = registry();
    assert_eq!(
        reboot_linux(&registry, &reboot(None, false)).unwrap_err(),
        "CONFIRMATION_REQUIRED: reboot requires confirmation=true"
    );
    for wait_for in [
        None,
        Some("uboot_countdown"),
        Some("linux_booting"),
        Some("linux_login"),
    ] {
        let operation = reboot_linux(&registry, &reboot(wait_for, true)).unwrap();
        assert_eq!(name(&operation), "reboot_linux");
        let before = registry.board("pi").unwrap().serial.generation();
        assert_eq!(first_send(&mut registry, operation), "reboot\r");
        assert_eq!(
            registry.board("pi").unwrap().serial.generation(),
            before + 1
        );
    }
    for wait_for in ["uboot", "uboot_prompt", "linux_shell", "shutdown_in_progress"] {
        assert_eq!(
            reboot_linux(&registry, &reboot(Some(wait_for), true)).unwrap_err(),
            "wait_for must be uboot_countdown, linux_booting, or linux_login"
        );
    }
    assert_eq!(
        reboot_linux(&registry, &reboot(Some("x"), true)).unwrap_err(),
        "unknown state \"x\""
    );
    let mut missing = reboot(Some("x"), true);
    missing.board_id = "none".into();
    assert_eq!(reboot_linux(&registry, &missing).unwrap_err(), MISSING);
}
