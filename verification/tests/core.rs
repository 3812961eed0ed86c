use std::time::SystemTime;

use rpictl_mcp::config::{
    default_baud, default_linux_allowed, BoardProfile, Config, FlowControl, LinuxProfile, Parity,
    PowerProfile, SerialProfile, StatePatterns, TimingProfile, UbootProfile,
};
use rpictl_mcp::lease::{BoardLease, LeaseGuard, LeaseOutcome, LeaseOwner};
use rpictl_mcp::policy::{authorize, validate_one_line};
use rpictl_mcp::serial::SerialRing;
use rpictl_mcp::state::{BoardState, StateDetector};
use rpictl_mcp::{BoardRegistry, Error, ErrorCode};

fn board(id: &str, device: &str, power_id: &str) -> BoardProfile {
    BoardProfile {
        board_id: id.into(),
        display_name: None,
        serial: SerialProfile {
            device: device.into(),
            baud_rate: 115200,
            data_bits: 8,
            parity: Parity::NoParity,
            stop_bits: 1,
            flow_control: FlowControl::NoFlowControl,
        },
        power: PowerProfile {
            backend: "fake".into(),
            identity: power_id.into(),
        },
        patterns: StatePatterns {
            uboot_countdown: "Hit any key".into(),
            uboot_prompt: "U-Boot>".into(),
            linux_boot: "Linux version".into(),
            linux_login: "login:".into(),
            linux_shell: "root@pi:#".into(),
            shutdown: None,
            fatal: vec![],
        },
        uboot: UbootProfile::default(),
        linux: LinuxProfile::default(),
        timing: TimingProfile::default(),
    }
}

fn owner(id: &str, operation: &str) -> LeaseOwner {
    LeaseOwner {
        operation_id: id.into(),
        operation: operation.into(),
    }
}

fn granted(result: Result<LeaseOutcome, Error>) -> LeaseGuard {
    match result.unwrap() {
        LeaseOutcome::Granted(guard) => guard,
        LeaseOutcome::Wait => panic!("the lease was not granted"),
    }
}

#[test]
fn accepts_shell_operators_on_one_line() {
    validate_one_line("printf hello | wc -c").unwrap();
}

#[test]
fn rejects_embedded_newlines() {
    assert_eq!(
        validate_one_line("uname\nid").unwrap_err().code,
        ErrorCode::CommandDenied
    );
}

#[test]
fn allows_configured_verb() {
    authorize("uname -a", &["uname".into()]).unwrap();
}

#[test]
fn rejects_empty_and_control_commands() {
    for command in ["", "a\rb", "a\0b", "a\tb", "a\u{7f}", "a\u{85}b"] {
        let error = validate_one_line(command).unwrap_err();
        assert_eq!(
            error.describe(),
            "COMMAND_DENIED during policy: command must be one nonempty line without control \
             characters"
        );
    }
    validate_one_line(" ").unwrap();
    validate_one_line("caf\u{e9}").unwrap();
}

#[test]
fn authorizes_whole_commands_and_verbs_only() {
    let rules = ["env print".to_string(), "help".to_string()];
    authorize("env print", &rules).unwrap();
    authorize("help md", &rules).unwrap();
    authorize("  help", &rules).unwrap();
    let error = authorize("env print -a", &rules).unwrap_err();
    assert_eq!(error.code, ErrorCode::CommandDenied);
    assert_eq!(error.phase, "policy");
    assert_eq!(
        error.message,
        "command verb \"env\" is not allowed by the board profile"
    );
    let error = authorize("say\"x y", &rules).unwrap_err();
    assert_eq!(
        error.message,
        "command verb \"say\\\"x\" is not allowed by the board profile"
    );
    assert_eq!(
        authorize("help\n", &rules).unwrap_err().message,
        "command must be one nonempty line without control characters"
    );
}

#[test]
fn validates_and_lists_profiles_stably() {
    let registry = BoardRegistry::new(Config {
        boards: vec![
            board("b", "/dev/fake1", "p1"),
            board("a", "/dev/fake0", "p0"),
        ],
        serial_ring_bytes: 32,
    })
    .unwrap();
    let boards = registry.list();
    let ids: Vec<_> = boards
        .iter()
        .map(|board| board.profile.board_id.as_str())
        .collect();
    assert_eq!(ids, ["a", "b"]);
}

#[test]
fn rejects_duplicate_serial_devices() {
    let error = BoardRegistry::new(Config {
        boards: vec![
            board("a", "/dev/fake0", "p0"),
            board("b", "/dev/fake0", "p1"),
        ],
        serial_ring_bytes: 32,
    })
    .err()
    .unwrap();
    assert_eq!(error.code, ErrorCode::InvalidConfiguration);
}

#[test]
fn lease_reports_owner_and_releases() {
    let mut lease = BoardLease::default();
    let owner = LeaseOwner {
        operation_id: "op-1".into(),
        operation: "power_cycle".into(),
    };
    let guard = granted(lease.acquire(owner.clone(), 0));
    assert_eq!(lease.owner(), Some(owner));
    let error = lease
        .acquire(
            LeaseOwner {
                operation_id: "op-2".into(),
                operation: "run_linux_command".into(),
            },
            0,
        )
        .err()
        .unwrap();
    assert_eq!(error.code, ErrorCode::BoardBusy);
    lease.release(guard);
    assert!(lease.owner().is_none());
}

#[test]
fn serial_ring_is_bounded_and_exposes_truncation() {
    let mut ring = SerialRing::new(5);
    ring.append(SystemTime::UNIX_EPOCH, b"abc");
    ring.append(SystemTime::UNIX_EPOCH, b"defg");
    let snapshot = ring.snapshot_from(0, 10);
    let bytes: Vec<_> = snapshot
        .chunks
        .iter()
        .flat_map(|chunk| chunk.bytes.clone())
        .collect();
    assert_eq!(bytes, b"cdefg");
    assert!(snapshot.truncated);
}

#[test]
fn state_evidence_is_bound_to_console_generation() {
    let profile = board("a", "/dev/fake0", "p0");
    let evidence = StateDetector::new(&profile.patterns).observe(
        b"noise\nU-Boot> ",
        SystemTime::UNIX_EPOCH,
        7,
    );
    assert_eq!(evidence.state, BoardState::UbootPrompt);
    assert_eq!(evidence.generation, 7);
}

#[test]
fn generation_snapshot_excludes_stale_shell_prompt() {
    let mut ring = SerialRing::new(1024);
    ring.append(SystemTime::UNIX_EPOCH, b"root@pi:# ");
    ring.mark_generation();
    ring.append(SystemTime::UNIX_EPOCH, b"Linux version 6.6\nlogin:");
    let snapshot = ring.snapshot_generation(1, 1024);
    let bytes: Vec<_> = snapshot
        .chunks
        .iter()
        .flat_map(|chunk| chunk.bytes.clone())
        .collect();
    assert_eq!(bytes, b"Linux version 6.6\nlogin:");
    assert!(snapshot.chunks.iter().all(|chunk| chunk.generation == 1));
}

#[test]
fn state_detector_uses_most_recent_matching_pattern() {
    let profile = board("a", "/dev/fake0", "p0");
    let evidence = StateDetector::new(&profile.patterns).observe(
        b"root@pi:# reboot\nLinux version 6.6\nlogin:",
        SystemTime::UNIX_EPOCH,
        1,
    );
    assert_eq!(evidence.state, BoardState::LinuxLogin);
    assert_eq!(evidence.evidence, b"login:");
}

#[test]
fn evidence_is_complete() {
    let profile = board("a", "/dev/fake0", "p0");
    let detector = StateDetector::new(&profile.patterns);
    let seen = detector.observe(b"\xff\xfeU-Boot>", SystemTime::UNIX_EPOCH, 3);
    assert_eq!(seen.state, BoardState::UbootPrompt);
    assert_eq!(seen.confidence_percent, 95);
    assert_eq!(seen.timestamp, SystemTime::UNIX_EPOCH);
    assert_eq!(seen.evidence, b"U-Boot>");
    assert!(!seen.active_probe);
    let unseen = detector.observe(b"booting", SystemTime::UNIX_EPOCH, 3);
    assert_eq!(unseen.state, BoardState::Unknown);
    assert_eq!(unseen.confidence_percent, 0);
    assert!(unseen.evidence.is_empty());
    assert_eq!(detector.state_of(b""), BoardState::Unknown);
    assert_eq!(
        detector.state_of_text("login: root@pi:# Hit any key"),
        BoardState::UbootCountdown
    );
}

#[test]
fn equal_offsets_go_to_the_pattern_further_down() {
    let mut profile = board("a", "/dev/fake0", "p0");
    profile.patterns.linux_shell = "pi".into();
    profile.patterns.uboot_countdown = "pi login".into();
    profile.patterns.shutdown = Some("".into());
    let detector = StateDetector::new(&profile.patterns);
    assert_eq!(detector.state_of(b"pi login"), BoardState::UbootCountdown);
    profile.patterns.uboot_countdown = "".into();
    profile.patterns.shutdown = Some("pi".into());
    let detector = StateDetector::new(&profile.patterns);
    assert_eq!(detector.state_of(b"pi login"), BoardState::LinuxShell);
    profile.patterns.linux_shell = "x".into();
    let detector = StateDetector::new(&profile.patterns);
    assert_eq!(
        detector.state_of(b"x pi"),
        BoardState::ShutdownInProgress
    );
}

#[test]
fn state_names_are_the_documented_ones() {
    let names: Vec<String> = [
        BoardState::PoweredOff,
        BoardState::PoweringOn,
        BoardState::BootRomOrFirmware,
        BoardState::UbootCountdown,
        BoardState::UbootPrompt,
        BoardState::LinuxBooting,
        BoardState::LinuxLogin,
        BoardState::LinuxShell,
        BoardState::ShutdownInProgress,
        BoardState::ApplicationRunning,
        BoardState::Unresponsive,
        BoardState::Unknown,
    ]
    .iter()
    .map(|state| state.state_name())
    .collect();
    assert_eq!(
        names,
        [
            "powered_off",
            "powering_on",
            "boot_rom_or_firmware",
            "uboot_countdown",
            "uboot_prompt",
            "linux_booting",
            "linux_login",
            "linux_shell",
            "shutdown_in_progress",
            "application_running",
            "unresponsive",
            "unknown",
        ]
    );
    assert_eq!(BoardState::LinuxShell.state_title(), "LinuxShell");
    assert_eq!(
        format!("{:?}", BoardState::BootRomOrFirmware),
        BoardState::BootRomOrFirmware.state_title()
    );
}

fn problem(change: fn(&mut BoardProfile)) -> String {
    let mut profile = board("a", "/dev/fake0", "p0");
    change(&mut profile);
    let error = profile.validate().unwrap_err();
    assert_eq!(error.code, ErrorCode::InvalidConfiguration);
    assert_eq!(error.phase, "configuration");
    error.message
}

#[test]
fn profiles_report_their_first_problem() {
    board("Lab-rpi_4", "/dev/fake0", "p0").validate().unwrap();
    assert_eq!(problem(|p| p.board_id = "".into()), "invalid board_id: \"\"");
    assert_eq!(
        problem(|p| p.board_id = "a b".into()),
        "invalid board_id: \"a b\""
    );
    assert_eq!(
        problem(|p| p.board_id = "\u{e4}".into()),
        "invalid board_id: \"\u{e4}\""
    );
    assert_eq!(
        problem(|p| p.serial.device = "".into()),
        "a: serial device is empty"
    );
    assert_eq!(
        problem(|p| p.serial.baud_rate = 0),
        "a: baud_rate must be nonzero"
    );
    assert_eq!(
        problem(|p| p.serial.data_bits = 9),
        "a: data_bits must be 5 through 8"
    );
    assert_eq!(
        problem(|p| p.serial.data_bits = 4),
        "a: data_bits must be 5 through 8"
    );
    assert_eq!(
        problem(|p| p.serial.stop_bits = 3),
        "a: stop_bits must be 1 or 2"
    );
    assert_eq!(
        problem(|p| p.power.identity = "".into()),
        "a: power backend and identity are required"
    );
    assert_eq!(
        problem(|p| p.timing.power_cycle_off_ms = 0),
        "a: timeout values must be nonzero"
    );
    assert_eq!(
        problem(|p| p.patterns.linux_shell = "".into()),
        "a: U-Boot, Linux login, and Linux shell patterns are required"
    );
    assert_eq!(
        problem(|p| {
            p.timing.operation_timeout_ms = 0;
            p.serial.baud_rate = 0;
        }),
        "a: baud_rate must be nonzero"
    );
}

fn config_problem(boards: Vec<BoardProfile>, serial_ring_bytes: usize) -> String {
    Config {
        boards,
        serial_ring_bytes,
    }
    .validate()
    .unwrap_err()
    .message
}

#[test]
fn configurations_report_their_first_problem() {
    assert_eq!(
        config_problem(vec![], 0),
        "at least one board profile is required"
    );
    assert_eq!(
        config_problem(vec![board("a", "/dev/fake0", "p0")], 0),
        "serial_ring_bytes must be greater than zero"
    );
    assert_eq!(
        config_problem(
            vec![board("a", "/dev/fake0", "p0"), board("a", "/dev/fake0", "p0")],
            1
        ),
        "duplicate board_id: a"
    );
    assert_eq!(
        config_problem(
            vec![board("a", "/dev/fake0", "p0"), board("b", "/dev/fake0", "p0")],
            1
        ),
        "duplicate serial device: /dev/fake0"
    );
    assert_eq!(
        config_problem(
            vec![board("a", "/dev/fake0", "p0"), board("b", "/dev/fake1", "p0")],
            1
        ),
        "duplicate power identity: fake/p0"
    );
}

#[test]
fn startup_rejects_unsupported_backends() {
    let mut config = Config {
        boards: vec![
            board("a", "/dev/fake0", "p0"),
            board("b", "/dev/fake1", "p1"),
        ],
        serial_ring_bytes: 1,
    };
    config.boards[0].power.backend = "matter".into();
    assert_eq!(
        config.validate_startup().unwrap_err().describe(),
        "INVALID_CONFIGURATION during configuration: b: power backend \"fake\" is not supported"
    );
    config.boards[1].power.backend = "matter".into();
    config.validate_startup().unwrap();
    config.serial_ring_bytes = 0;
    assert_eq!(
        config.validate_startup().unwrap_err().message,
        "serial_ring_bytes must be greater than zero"
    );
}

#[test]
fn defaults_are_the_documented_ones() {
    let uboot = UbootProfile::default();
    assert_eq!(uboot.interrupt, " ");
    assert_eq!(uboot.boot_command, "boot");
    assert_eq!(
        uboot.allowed_commands,
        ["bdinfo", "env print", "help", "printenv", "version"]
    );
    assert!(LinuxProfile::default().allowed_commands.is_empty());
    assert_eq!(
        default_linux_allowed(),
        ["cat", "dmesg", "free", "id", "ls", "ps", "uname", "uptime", "whoami"]
    );
    let timing = TimingProfile::default();
    assert_eq!(
        (
            timing.operation_timeout_ms,
            timing.power_cycle_off_ms,
            timing.serial_pacing_ms
        ),
        (30_000, 5_000, 0)
    );
    assert_eq!(default_baud(), 115_200);
    assert_eq!(Parity::default(), Parity::NoParity);
    assert_eq!(FlowControl::default(), FlowControl::NoFlowControl);
    assert_eq!(board("a", "d", "p").operation_timeout(), 30_000);
}

#[test]
fn leases_wait_until_no_time_remains() {
    let mut lease = BoardLease::default();
    let guard = granted(lease.acquire(owner("op-1", "power_on"), 0));
    assert!(matches!(
        lease.acquire(owner("op-2", "power_on"), 1).unwrap(),
        LeaseOutcome::Wait
    ));
    assert_eq!(
        lease
            .acquire(owner("op-2", "power_on"), 0)
            .err()
            .unwrap()
            .describe(),
        "BOARD_BUSY during lease: board lease is held by operation op-1"
    );
    lease.release(guard);
    let other = granted(lease.acquire(owner("op-2", "power_on"), 0));
    assert_eq!(lease.owner(), Some(owner("op-2", "power_on")));
    let mut elsewhere = BoardLease::default();
    let foreign = granted(elsewhere.acquire(owner("op-3", "power_on"), 0));
    lease.release(foreign);
    assert_eq!(lease.owner(), Some(owner("op-2", "power_on")));
    lease.release(other);
    assert!(lease.owner().is_none());
}

#[test]
fn error_codes_have_stable_names() {
    let codes = [
        (ErrorCode::BoardNotFound, "BOARD_NOT_FOUND"),
        (ErrorCode::BoardBusy, "BOARD_BUSY"),
        (ErrorCode::SerialOpenFailed, "SERIAL_OPEN_FAILED"),
        (ErrorCode::SerialDisconnected, "SERIAL_DISCONNECTED"),
        (ErrorCode::PowerBackendFailed, "POWER_BACKEND_FAILED"),
        (ErrorCode::PowerIdentityMismatch, "POWER_IDENTITY_MISMATCH"),
        (ErrorCode::PowerStateUnverified, "POWER_STATE_UNVERIFIED"),
        (ErrorCode::StateTimeout, "STATE_TIMEOUT"),
        (ErrorCode::UbootPromptNotFound, "UBOOT_PROMPT_NOT_FOUND"),
        (ErrorCode::LinuxLoginFailed, "LINUX_LOGIN_FAILED"),
        (ErrorCode::ShellNotSynchronized, "SHELL_NOT_SYNCHRONIZED"),
        (ErrorCode::CommandDenied, "COMMAND_DENIED"),
        (ErrorCode::ConfirmationRequired, "CONFIRMATION_REQUIRED"),
        (ErrorCode::CommandTimeout, "COMMAND_TIMEOUT"),
        (ErrorCode::CommandExitNonzero, "COMMAND_EXIT_NONZERO"),
        (ErrorCode::OutputTruncated, "OUTPUT_TRUNCATED"),
        (ErrorCode::RecoveryFailed, "RECOVERY_FAILED"),
        (ErrorCode::OperationCancelled, "OPERATION_CANCELLED"),
        (ErrorCode::InvalidConfiguration, "INVALID_CONFIGURATION"),
    ];
    for (code, name) in codes {
        assert_eq!(code.as_str(), name);
    }
    let error = Error::new(ErrorCode::BoardBusy, "lease", "held".into());
    assert_eq!(error.recovery, None);
    assert_eq!(error.clone(), error);
    assert_eq!(error.describe(), "BOARD_BUSY during lease: held");
}
