use std::time::SystemTime;

use rpictl_mcp::config::{
    BoardProfile, Config, FlowControl, LinuxProfile, Parity, PowerProfile, SerialProfile,
    StatePatterns, TimingProfile, UbootProfile,
};
use rpictl_mcp::console::{
    bad_encoding_reply, change_reply, console_change_reply, console_help, console_status_reply,
    forward_console_input, frame_response, handle_console_command, handle_power_request,
    is_remote_console_command, open_session, parse_console_command, parse_handshake,
    power_request_failed, status_reply, write_failure_notice, write_handshake, Admission,
    ConsoleClient, ConsoleCommand, ConsoleSession, Forwarding, Handshake, PowerChange,
    ResponseDecoder, SessionAction, Work, DEFAULT_SOCKET,
};
use rpictl_mcp::doctor::doctor;
use rpictl_mcp::power::PowerObservation;
use rpictl_mcp::{BoardRegistry, Error, ErrorCode};

fn profile(id: &str, backend: &str) -> BoardProfile {
    BoardProfile {
        board_id: id.into(),
        display_name: None,
        serial: SerialProfile {
            device: format!("/dev/fake-serial-{id}"),
            baud_rate: 115_200,
            data_bits: 8,
            parity: Parity::NoParity,
            stop_bits: 1,
            flow_control: FlowControl::NoFlowControl,
        },
        power: PowerProfile {
            backend: backend.into(),
            identity: format!("node=1;endpoint=1;note={id}"),
        },
        patterns: StatePatterns {
            uboot_countdown: "Hit any key".into(),
            uboot_prompt: "U-Boot>".into(),
            linux_boot: "Linux version".into(),
            linux_login: "login:".into(),
            linux_shell: "root@pi:#".into(),
            shutdown: None,
            fatal: vec![],
        },
        uboot: UbootProfile::default(),
        linux: LinuxProfile::default(),
        timing: TimingProfile::default(),
    }
}

fn registry() -> BoardRegistry {
    BoardRegistry::new(Config {
        boards: vec![profile("board-a", "fake"), profile("board-b", "matter")],
        serial_ring_bytes: 1024,
    })
    .unwrap()
}

#[test]
fn handshakes_name_what_the_client_wants() {
    let power = |action: &str, board_id: &str| Handshake::Power {
        action: action.into(),
        board_id: board_id.into(),
    };
    assert_eq!(
        parse_handshake("POWER status board-a\n"),
        power("status", "board-a")
    );
    assert_eq!(parse_handshake("POWER  on \t b c\r\n"), power("on", "b"));
    assert_eq!(parse_handshake("POWER x\n"), power("x", ""));
    assert_eq!(
        parse_handshake("CONSOLE  board-a \n"),
        Handshake::Console {
            board_id: "board-a".into()
        }
    );
    assert_eq!(
        parse_handshake("MONITOR board-a\n"),
        Handshake::Monitor {
            board_id: "board-a".into()
        }
    );
    for (line, id) in [("board-a\n", "board-a"), ("POWER\n", "POWER"), ("", "")] {
        assert_eq!(
            parse_handshake(line),
            Handshake::Monitor {
                board_id: id.into()
            }
        );
    }
    for wish in [
        power("force-off", "board-a"),
        Handshake::Console {
            board_id: "board-a".into(),
        },
        Handshake::Monitor {
            board_id: "board-a".into(),
        },
    ] {
        assert_eq!(parse_handshake(&write_handshake(&wish)), wish);
    }
    assert_eq!(
        write_handshake(&power("on", "board-a")),
        "POWER on board-a\n"
    );
    assert_eq!(DEFAULT_SOCKET, "/tmp/rpictl-mcp.sock");
}

fn reply(work: Work) -> String {
    match work {
        Work::Reply { text } => text,
        other => panic!("{other:?}"),
    }
}

#[test]
fn power_requests_are_planned_or_refused() {
    let registry = registry();
    assert_eq!(
        reply(handle_power_request(&registry, "board-a", "status")),
        "err power status failed: only the matter backend is implemented\n"
    );
    assert_eq!(
        reply(handle_power_request(&registry, "none", "status")),
        "err power status failed: board \"none\" is not configured\n"
    );
    assert_eq!(
        reply(handle_power_request(&registry, "none", "on")),
        "err power on failed: board \"none\" is not configured\n"
    );
    assert_eq!(
        reply(handle_power_request(&registry, "board-a", "toggle\t")),
        "err unknown power action: \"toggle\\t\"\n"
    );
    assert!(matches!(
        handle_power_request(&registry, "board-b", "status"),
        Work::Query { .. }
    ));
    for (word, wanted, name) in [
        ("on", PowerChange::On, "power_on"),
        ("off", PowerChange::Off, "power_off"),
        ("force-off", PowerChange::ForceOff, "power_off"),
        ("off-force", PowerChange::ForceOff, "power_off"),
        ("cycle", PowerChange::Cycle, "power_cycle"),
    ] {
        match handle_power_request(&registry, "board-a", word) {
            Work::Operate { change, operation } => {
                assert_eq!(change, wanted);
                assert_eq!(operation.owner().operation, name);
                assert_eq!(operation.board_id(), "board-a");
            }
            other => panic!("{other:?}"),
        }
    }
}

fn fault(message: &str) -> Error {
    Error::new(ErrorCode::PowerBackendFailed, "power_query", message.into())
}

fn observation(state: &str, identity_verified: bool) -> PowerObservation {
    PowerObservation {
        state: state.into(),
        identity_verified,
        raw: "raw".into(),
    }
}

#[test]
fn power_replies_say_what_happened() {
    let error = fault("gone");
    for (change, done, failed) in [
        (
            PowerChange::On,
            "ok  power on succeeded\n",
            "err power on failed: gone\n",
        ),
        (
            PowerChange::Off,
            "ok  graceful power off succeeded\n",
            "err power off failed: gone\n",
        ),
        (
            PowerChange::ForceOff,
            "ok  forced power off succeeded\n",
            "err forced power off failed: gone\n",
        ),
        (
            PowerChange::Cycle,
            "ok  power cycle succeeded\n",
            "err power cycle failed: gone\n",
        ),
    ] {
        assert_eq!(change_reply(change, None), done);
        assert_eq!(change_reply(change, Some(&error)), failed);
        assert!(!power_request_failed(done));
        assert!(power_request_failed(failed));
    }
    assert_eq!(
        status_reply(&Ok(observation("on", true))),
        "ok  power state: on (identity_verified: true)\n"
    );
    assert_eq!(
        status_reply(&Err(fault("x"))),
        "err power status failed: x\n"
    );
}

#[test]
fn console_replies_say_what_happened() {
    let error = fault("gone");
    for (change, done, failed) in [
        (
            PowerChange::On,
            "Power on succeeded",
            "Power on failed: gone",
        ),
        (
            PowerChange::Off,
            "Graceful power off succeeded",
            "Power off failed: gone",
        ),
        (
            PowerChange::ForceOff,
            "Forced power off succeeded",
            "Forced power off failed: gone",
        ),
        (
            PowerChange::Cycle,
            "Power cycle succeeded",
            "Power cycle failed: gone",
        ),
    ] {
        assert_eq!(console_change_reply(change, None), done);
        assert_eq!(console_change_reply(change, Some(&error)), failed);
    }
    assert_eq!(
        console_status_reply(&Ok(observation("off", false))),
        "Power state: off (identity_verified: false)"
    );
    assert_eq!(
        console_status_reply(&Err(fault("x"))),
        "Failed to get power state: x"
    );
}

#[test]
fn console_commands_are_handled() {
    let mut registry = registry();
    registry
        .append_serial("board-a", SystemTime::UNIX_EPOCH, b"login:")
        .unwrap();
    let help = reply(handle_console_command(&registry, "board-a", "help"));
    assert_eq!(help, console_help());
    assert!(help.contains("poweron"));
    assert!(!help.contains("@poweron"));
    assert_eq!(
        reply(handle_console_command(&registry, "board-a", "state")),
        "Observed board state: LinuxLogin"
    );
    assert_eq!(
        reply(handle_console_command(&registry, "none", "state")),
        "Failed to get board state: board \"none\" is not configured"
    );
    assert_eq!(
        reply(handle_console_command(&registry, "board-a", "power")),
        "Failed to get power state: only the matter backend is implemented"
    );
    assert_eq!(
        reply(handle_console_command(&registry, "none", "powercycle")),
        "Power cycle failed: board \"none\" is not configured"
    );
    assert_eq!(
        reply(handle_console_command(&registry, "board-a", "power on")),
        "Unknown command: power on. Type help for available commands."
    );
    assert!(matches!(
        handle_console_command(&registry, "board-b", "powerstatus"),
        Work::Query { .. }
    ));
    for (text, wanted) in [
        ("poweron", PowerChange::On),
        ("poweroff", PowerChange::Off),
        ("poweroff   --force", PowerChange::ForceOff),
        ("poweroff -f", PowerChange::ForceOff),
        ("powercycle", PowerChange::Cycle),
    ] {
        match handle_console_command(&registry, "board-a", text) {
            Work::Operate { change, .. } => assert_eq!(change, wanted),
            other => panic!("{other:?}"),
        }
    }
}

#[test]
fn every_remote_command_is_known() {
    for text in [
        "poweron",
        "poweroff",
        "poweroff --force",
        "poweroff -f",
        "powercycle",
        "powerstatus",
        "power",
        "state",
    ] {
        assert!(is_remote_console_command(text));
        assert_ne!(parse_console_command(text), ConsoleCommand::Unknown);
    }
    assert!(!is_remote_console_command("help"));
    assert!(!is_remote_console_command("poweroff  -f"));
}

#[test]
fn one_client_at_a_time_uses_a_console() {
    let mut registry = registry();
    assert!(matches!(
        open_session(&mut registry, "board-a", false),
        Admission::Watch
    ));
    let Admission::Use { claim } = open_session(&mut registry, "board-a", true) else {
        panic!("the console is free");
    };
    match open_session(&mut registry, "board-a", true) {
        Admission::Refuse { text } => assert_eq!(
            text,
            "err BOARD_BUSY during console: board \"board-a\" already has an interactive \
             console\n"
        ),
        other => panic!("{other:?}"),
    }
    assert!(matches!(
        open_session(&mut registry, "board-b", true),
        Admission::Use { .. }
    ));
    registry.release_console(claim);
    assert!(matches!(
        open_session(&mut registry, "board-a", true),
        Admission::Use { .. }
    ));
    match open_session(&mut registry, "none", false) {
        Admission::Refuse { text } => {
            assert_eq!(text, "err board not found or serial error: none\n")
        }
        other => panic!("{other:?}"),
    }
    assert_eq!(
        registry.claim_console("none").err().unwrap().code,
        ErrorCode::BoardNotFound
    );
}

#[test]
fn console_input_yields_to_operations() {
    let mut registry = registry();
    let Forwarding::Write { guard } = forward_console_input(&mut registry, "board-a") else {
        panic!("the board is free");
    };
    let owner = registry.board("board-a").unwrap().lease.owner().unwrap();
    assert_eq!(owner.operation, "interactive_console_write");
    assert!(owner.operation_id.starts_with("console-"));
    let id = &owner.operation_id["console-".len()..];
    assert_eq!(id.len(), 36);
    assert_eq!(
        uuid::Uuid::parse_str(id).unwrap().get_version_num(),
        4
    );
    assert_eq!(uuid::Uuid::parse_str(id).unwrap().to_string(), id);
    match forward_console_input(&mut registry, "board-a") {
        Forwarding::Ignore { notice } => assert_eq!(
            notice,
            b"\r\n\x1b[33m[rpictl: lease held by MCP operation, input ignored]\x1b[0m\r\n"
        ),
        other => panic!("{other:?}"),
    }
    registry.release("board-a", guard);
    assert!(matches!(
        forward_console_input(&mut registry, "board-a"),
        Forwarding::Write { .. }
    ));
    assert!(matches!(
        forward_console_input(&mut registry, "none"),
        Forwarding::Drop
    ));
    assert_eq!(
        write_failure_notice(),
        b"\r\n\x1b[31m[rpictl: failed to write to serial console]\x1b[0m\r\n"
    );
}

fn feed(session: &mut ConsoleSession, bytes: &[u8]) -> Vec<SessionAction> {
    bytes
        .iter()
        .map(|byte| session.feed(*byte))
        .filter(|action| *action != SessionAction::Nothing)
        .collect()
}

#[test]
fn sessions_tell_commands_from_input() {
    let mut session = ConsoleSession::new();
    assert_eq!(
        feed(&mut session, b"a\r\0 help \n\x03"),
        [
            SessionAction::Forward { byte: b'a' },
            SessionAction::Forward { byte: b'\r' },
            SessionAction::Execute {
                command: "help".into()
            },
            SessionAction::Forward { byte: 3 },
        ]
    );
    assert_eq!(
        feed(&mut session, b"\0\xff\r"),
        [SessionAction::Reject]
    );
    assert_eq!(
        feed(&mut session, b"\0a\0b\n"),
        [SessionAction::Execute {
            command: "a\0b".into()
        }]
    );
    assert_eq!(
        feed(&mut session, b"\0\n"),
        [SessionAction::Execute { command: "".into() }]
    );
    assert_eq!(bad_encoding_reply(), "Invalid console command encoding");
}

#[test]
fn sessions_hold_output_back_while_commanding() {
    let mut session = ConsoleSession::new();
    assert!(!session.muted());
    assert!(feed(&mut session, b"\0__rpictl_on\n").is_empty());
    assert!(session.muted());
    feed(&mut session, b"\0state\n");
    assert!(session.muted());
    assert!(feed(&mut session, b"\0__rpictl_off\n").is_empty());
    assert!(!session.muted());
}

fn decode(decoder: &mut ResponseDecoder, bytes: &[u8], prompting: bool) -> Vec<u8> {
    bytes
        .iter()
        .flat_map(|byte| decoder.feed(*byte, prompting))
        .collect()
}

#[test]
fn clients_read_answers_back() {
    let mut decoder = ResponseDecoder::new();
    let frame = frame_response("Power on succeeded");
    assert_eq!(frame, b"\0RPower on succeeded\0");
    let mut stream = b"boot".to_vec();
    stream.extend(&frame);
    stream.extend(b"ing");
    assert_eq!(
        decode(&mut decoder, &stream, true),
        b"boot\x1b[36m[rpictl] Power on succeeded\x1b[0m\r\n\x1b[36mrpictl> \x1b[0ming"
    );
    assert_eq!(
        decode(&mut decoder, b"\0Rx\xff\0", false),
        "\x1b[36m[rpictl] x\u{fffd}\x1b[0m\r\n".as_bytes()
    );
    assert_eq!(decode(&mut decoder, b"a\0bR\0\0c", false), b"a\0bR\0\0c");
}

fn press(client: &mut ConsoleClient, keys: &[u8]) -> (Vec<u8>, Vec<u8>, bool) {
    let mut send = Vec::new();
    let mut show = Vec::new();
    let mut leave = false;
    for key in keys {
        let effect = client.press(*key);
        send.extend(effect.send);
        show.extend(effect.show);
        leave = leave || effect.leave;
    }
    (send, show, leave)
}

#[test]
fn keys_go_to_the_board_or_the_command_line() {
    let mut client = ConsoleClient::new();
    assert_eq!(
        press(&mut client, b"ls\r\x08\x00"),
        (b"ls\r\x08\x00".to_vec(), vec![], false)
    );
    assert_eq!(
        press(&mut client, b"\x1d"),
        (
            b"\0__rpictl_on\n".to_vec(),
            b"\r\n\x1b[36mrpictl> \x1b[0m".to_vec(),
            false
        )
    );
    assert!(client.commanding());
    assert_eq!(
        press(&mut client, b"\x7fstatx\x08e\x01 \r"),
        (
            b"\0state\n".to_vec(),
            b"statx\x08 \x08e \r\n".to_vec(),
            false
        )
    );
    assert_eq!(
        press(&mut client, b"\r"),
        (vec![], b"\r\n\x1b[36mrpictl> \x1b[0m".to_vec(), false)
    );
    assert_eq!(
        press(&mut client, b"help\n"),
        (
            vec![],
            format!(
                "help\r\n{}\r\n\x1b[36mrpictl> \x1b[0m",
                console_help()
            )
            .into_bytes(),
            false
        )
    );
    assert_eq!(
        press(&mut client, b"x\xe9\r"),
        (
            vec![],
            [
                &b"x\xe9\r\n"[..],
                "Unknown command: x\u{e9}. Type help for available commands.\r\n\x1b[36mrpictl> \
                 \x1b[0m"
                    .as_bytes()
            ]
            .concat(),
            false
        )
    );
    assert_eq!(
        press(&mut client, b"ab\x1d"),
        (
            b"\0__rpictl_off\n".to_vec(),
            b"ab\r\n\x1b[90m[UART console]\x1b[0m\r\n".to_vec(),
            false
        )
    );
    assert!(!client.commanding());
    press(&mut client, b"\x1d");
    assert_eq!(
        press(&mut client, b" exit \r"),
        (vec![], b" exit \r\n".to_vec(), true)
    );
    assert!(press(&mut client, b"quit\n").2);
}

#[test]
fn what_a_client_sends_the_server_executes() {
    let mut client = ConsoleClient::new();
    let mut session = ConsoleSession::new();
    let (sent, _, _) = press(&mut client, b"\x1dpoweroff -f\r");
    assert_eq!(
        feed(&mut session, &sent),
        [SessionAction::Execute {
            command: "poweroff -f".into()
        }]
    );
    assert!(session.muted());
    let (sent, _, _) = press(&mut client, b"\x1dq");
    assert_eq!(
        feed(&mut session, &sent),
        [SessionAction::Forward { byte: b'q' }]
    );
    assert!(!session.muted());
}

#[test]
fn the_doctor_warns_of_missing_devices() {
    let registry = registry();
    assert_eq!(
        doctor("/etc/rpictl.json", &registry.list(), &[true, false]),
        [
            "ok  configuration: /etc/rpictl.json",
            "ok  board profiles: 2",
            "ok  board-a serial device: /dev/fake-serial-board-a",
            "ok  board-a power identity configured: fake/node=1;endpoint=1;note=board-a",
            "warn board-b serial device is missing: /dev/fake-serial-board-b",
            "ok  board-b power identity configured: matter/node=1;endpoint=1;note=board-b",
            "ok  MCP transport: stdio",
            "doctor result: healthy with 1 warning(s)",
        ]
    );
    let lines = doctor("c", &registry.list(), &[true, true]);
    assert_eq!(lines.last().unwrap(), "doctor result: healthy");
}
