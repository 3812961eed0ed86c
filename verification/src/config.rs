//! Board profiles and their validation.

use vstd::prelude::*;

use crate::error::{fault, Error, ErrorCode, ErrorView};
use crate::text::{alphanumeric, debug_quoted, is_alphanumeric, quoted, same, texts};

verus! {

/// The whole configuration.
#[derive(Debug, Clone)]
pub struct Config {
    pub boards: Vec<BoardProfile>,
    pub serial_ring_bytes: usize,
}

/// One board.
#[derive(Debug, Clone)]
pub struct BoardProfile {
    pub board_id: String,
    pub display_name: Option<String>,
    pub serial: SerialProfile,
    pub power: PowerProfile,
    pub patterns: StatePatterns,
    pub uboot: UbootProfile,
    pub linux: LinuxProfile,
    pub timing: TimingProfile,
}

/// A board's serial line.
#[derive(Debug, Clone)]
pub struct SerialProfile {
    pub device: String,
    pub baud_rate: u32,
    pub data_bits: u8,
    pub parity: Parity,
    pub stop_bits: u8,
    pub flow_control: FlowControl,
}

/// The parity of a serial line.
#[derive(Debug, Clone, Copy, PartialEq, Eq)]
pub enum Parity {
    NoParity,
    Odd,
    Even,
}

/// The flow control of a serial line.
#[derive(Debug, Clone, Copy, PartialEq, Eq)]
pub enum FlowControl {
    NoFlowControl,
    Software,
    Hardware,
}

/// A board's power controller.
#[derive(Debug, Clone)]
pub struct PowerProfile {
    pub backend: String,
    pub identity: String,
}

/// The texts that show a board's state on its console.
#[derive(Debug, Clone)]
pub struct StatePatterns {
    pub uboot_countdown: String,
    pub uboot_prompt: String,
    pub linux_boot: String,
    pub linux_login: String,
    pub linux_shell: String,
    pub shutdown: Option<String>,
    pub fatal: Vec<String>,
}

/// What U-Boot is sent.
#[derive(Debug, Clone)]
pub struct UbootProfile {
    pub interrupt: String,
    pub boot_command: String,
    pub allowed_commands: Vec<String>,
}

/// What Linux is sent.
#[derive(Debug, Clone)]
pub struct LinuxProfile {
    pub account: Option<String>,
    pub credential_ref: Option<String>,
    pub shutdown_command: Option<String>,
    pub allowed_commands: Vec<String>,
}

/// Time limits and pauses, in milliseconds.
#[derive(Debug, Clone)]
pub struct TimingProfile {
    pub operation_timeout_ms: u64,
    pub power_cycle_off_ms: u64,
    pub serial_pacing_ms: u64,
}

/// The baud rate where none is configured.
pub fn default_baud() -> (baud: u32)
    ensures
        baud == 115_200,
{
    115_200
}

/// The data bits where none are configured.
pub fn default_data_bits() -> (bits: u8)
    ensures
        bits == 8,
{
    8
}

/// The stop bits where none are configured.
pub fn default_stop_bits() -> (bits: u8)
    ensures
        bits == 1,
{
    1
}

/// The operation timeout where none is configured.
pub fn default_timeout_ms() -> (ms: u64)
    ensures
        ms == 30_000,
{
    30_000
}

/// The serial ring's capacity where none is configured.
pub fn default_ring_bytes() -> (bytes: usize)
    ensures
        bytes == 256 * 1024,
{
    256 * 1024
}

/// How long a power cycle stays off where nothing is configured.
pub fn default_off_ms() -> (ms: u64)
    ensures
        ms == 5_000,
{
    5_000
}

/// The input that interrupts autoboot where none is configured.
pub fn default_interrupt() -> (interrupt: String)
    ensures
        interrupt@ == " "@,
{
    " ".to_owned()
}

/// The boot command where none is configured.
pub fn default_boot_command() -> (command: String)
    ensures
        command@ == "boot"@,
{
    "boot".to_owned()
}

/// The U-Boot commands of a profile that lists none.
pub open spec fn uboot_commands() -> Seq<Seq<char>> {
    seq!["bdinfo"@, "env print"@, "help"@, "printenv"@, "version"@]
}

/// The Linux commands of a profile that has a Linux section and lists none.
pub open spec fn linux_commands() -> Seq<Seq<char>> {
    seq!["cat"@, "dmesg"@, "free"@, "id"@, "ls"@, "ps"@, "uname"@, "uptime"@, "whoami"@]
}

/// The U-Boot commands of a profile that lists none.
pub fn default_uboot_allowed() -> (commands: Vec<String>)
    ensures
        texts(commands@) == uboot_commands(),
{
    let mut commands: Vec<String> = Vec::new();
    commands.push("bdinfo".to_owned());
    commands.push("env print".to_owned());
    commands.push("help".to_owned());
    commands.push("printenv".to_owned());
    commands.push("version".to_owned());
    assert(texts(commands@) == uboot_commands());
    commands
}

/// The Linux commands of a profile that has a Linux section and lists none.
pub fn default_linux_allowed() -> (commands: Vec<String>)
    ensures
        texts(commands@) == linux_commands(),
{
    let mut commands: Vec<String> = Vec::new();
    commands.push("cat".to_owned());
    commands.push("dmesg".to_owned());
    commands.push("free".to_owned());
    commands.push("id".to_owned());
    commands.push("ls".to_owned());
    commands.push("ps".to_owned());
    commands.push("uname".to_owned());
    commands.push("uptime".to_owned());
    commands.push("whoami".to_owned());
    assert(texts(commands@) == linux_commands());
    commands
}

impl Default for Parity {
    fn default() -> (parity: Self)
        ensures
            parity == Parity::NoParity,
    {
        Parity::NoParity
    }
}

impl Default for FlowControl {
    fn default() -> (flow_control: Self)
        ensures
            flow_control == FlowControl::NoFlowControl,
    {
        FlowControl::NoFlowControl
    }
}

impl Default for UbootProfile {
    fn default() -> (profile: Self)
        ensures
            profile.interrupt@ == " "@,
            profile.boot_command@ == "boot"@,
            texts(profile.allowed_commands@) == uboot_commands(),
    {
        UbootProfile {
            interrupt: default_interrupt(),
            boot_command: default_boot_command(),
            allowed_commands: default_uboot_allowed(),
        }
    }
}

impl Default for LinuxProfile {
    fn default() -> (profile: Self)
        ensures
            profile.account is None,
            profile.credential_ref is None,
            profile.shutdown_command is None,
            profile.allowed_commands@.len() == 0,
    {
        LinuxProfile {
            account: None,
            credential_ref: None,
            shutdown_command: None,
            allowed_commands: Vec::new(),
        }
    }
}

impl Default for TimingProfile {
    fn default() -> (profile: Self)
        ensures
            profile.operation_timeout_ms == 30_000,
            profile.power_cycle_off_ms == 5_000,
            profile.serial_pacing_ms == 0,
    {
        TimingProfile {
            operation_timeout_ms: default_timeout_ms(),
            power_cycle_off_ms: default_off_ms(),
            serial_pacing_ms: 0,
        }
    }
}

/// A board id is made of ASCII letters, digits, hyphens and underscores, and is not empty.
pub open spec fn valid_id(id: Seq<char>) -> bool {
    id.len() > 0 && forall|i: int|
        0 <= i < id.len() ==> alphanumeric(#[trigger] id[i]) || id[i] == '-' || id[i] == '_'
}

/// The error for a configuration with the problem `message`.
pub open spec fn invalid_configuration(message: Seq<char>) -> ErrorView {
    fault(ErrorCode::InvalidConfiguration, "configuration"@, message)
}

/// `result` reports the problem, or success where there is none.
pub open spec fn reports(result: Result<(), Error>, problem: Option<Seq<char>>) -> bool {
    match problem {
        Some(message) => result matches Err(error) && error@ == invalid_configuration(message),
        None => result is Ok,
    }
}

impl BoardProfile {
    /// The first problem of the profile, taken by itself.
    pub open spec fn problem(self) -> Option<Seq<char>> {
        let id = self.board_id@;
        if !valid_id(id) {
            Some("invalid board_id: "@ + quoted(id))
        } else if self.serial.device@.len() == 0 {
            Some(id + ": serial device is empty"@)
        } else if self.serial.baud_rate == 0 {
            Some(id + ": baud_rate must be nonzero"@)
        } else if !(5 <= self.serial.data_bits <= 8) {
            Some(id + ": data_bits must be 5 through 8"@)
        } else if !(1 <= self.serial.stop_bits <= 2) {
            Some(id + ": stop_bits must be 1 or 2"@)
        } else if self.power.backend@.len() == 0 || self.power.identity@.len() == 0 {
            Some(id + ": power backend and identity are required"@)
        } else if self.timing.operation_timeout_ms == 0 || self.timing.power_cycle_off_ms == 0 {
            Some(id + ": timeout values must be nonzero"@)
        } else if self.patterns.uboot_prompt@.len() == 0 || self.patterns.linux_login@.len() == 0
            || self.patterns.linux_shell@.len() == 0 {
            Some(id + ": U-Boot, Linux login, and Linux shell patterns are required"@)
        } else {
            None
        }
    }

    /// Accepts exactly the profiles without a problem, and reports the first one.
    pub fn validate(&self) -> (result: Result<(), Error>)
        ensures
            reports(result, self.problem()),
    {
        if !is_valid_id(self.board_id.as_str()) {
            let mut message = "invalid board_id: ".to_owned();
            message.append(debug_quoted(self.board_id.as_str()).as_str());
            return invalid(message);
        }
        if self.serial.device.as_str().is_empty() {
            return self.invalid_board(": serial device is empty");
        }
        if self.serial.baud_rate == 0 {
            return self.invalid_board(": baud_rate must be nonzero");
        }
        if self.serial.data_bits < 5 || self.serial.data_bits > 8 {
            return self.invalid_board(": data_bits must be 5 through 8");
        }
        if self.serial.stop_bits < 1 || self.serial.stop_bits > 2 {
            return self.invalid_board(": stop_bits must be 1 or 2");
        }
        if self.power.backend.as_str().is_empty() || self.power.identity.as_str().is_empty() {
            return self.invalid_board(": power backend and identity are required");
        }
        if self.timing.operation_timeout_ms == 0 || self.timing.power_cycle_off_ms == 0 {
            return self.invalid_board(": timeout values must be nonzero");
        }
        if self.patterns.uboot_prompt.as_str().is_empty()
            || self.patterns.linux_login.as_str().is_empty()
            || self.patterns.linux_shell.as_str().is_empty() {
            return self.invalid_board(
                ": U-Boot, Linux login, and Linux shell patterns are required",
            );
        }
        Ok(())
    }

    fn invalid_board(&self, complaint: &str) -> (result: Result<(), Error>)
        ensures
            reports(result, Some(self.board_id@ + complaint@)),
    {
        let mut message = self.board_id.clone();
        message.append(complaint);
        invalid(message)
    }

    /// How long an operation may take, in milliseconds.
    pub fn operation_timeout(&self) -> (ms: u64)
        ensures
            ms == self.timing.operation_timeout_ms,
    {
        self.timing.operation_timeout_ms
    }
}

fn is_valid_id(id: &str) -> (result: bool)
    ensures
        result == valid_id(id@),
{
    let mut fine = !id.is_empty();
    for c in it: id.chars()
        invariant
            it.seq() == id@,
            fine <==> id@.len() > 0 && forall|i: int|
                0 <= i < it.index() ==> alphanumeric(#[trigger] id@[i]) || id@[i] == '-' || id@[i]
                    == '_',
    {
        if !(is_alphanumeric(c) || c == '-' || c == '_') {
            fine = false;
        }
    }
    fine
}

fn invalid(message: String) -> (result: Result<(), Error>)
    ensures
        reports(result, Some(message@)),
{
    Err(Error::new(ErrorCode::InvalidConfiguration, "configuration", message))
}

/// Two boards share a power controller.
pub open spec fn same_power(a: PowerProfile, b: PowerProfile) -> bool {
    a.backend@ == b.backend@ && a.identity@ == b.identity@
}

/// The problem of board `i`, by itself or with the boards before it.
pub open spec fn board_problem(boards: Seq<BoardProfile>, i: int) -> Option<Seq<char>> {
    let board = boards[i];
    if board.problem() is Some {
        board.problem()
    } else if exists|k: int| 0 <= k < i && (#[trigger] boards[k]).board_id@ == board.board_id@ {
        Some("duplicate board_id: "@ + board.board_id@)
    } else if exists|k: int|
        0 <= k < i && (#[trigger] boards[k]).serial.device@ == board.serial.device@ {
        Some("duplicate serial device: "@ + board.serial.device@)
    } else if exists|k: int| 0 <= k < i && same_power((#[trigger] boards[k]).power, board.power) {
        Some("duplicate power identity: "@ + board.power.backend@ + "/"@ + board.power.identity@)
    } else {
        None
    }
}

/// The first problem among the first `n` boards.
pub open spec fn boards_problem(boards: Seq<BoardProfile>, n: int) -> Option<Seq<char>>
    decreases n,
{
    if n <= 0 {
        None
    } else if boards_problem(boards, n - 1) is Some {
        boards_problem(boards, n - 1)
    } else {
        board_problem(boards, n - 1)
    }
}

impl Config {
    /// The first problem of the configuration.
    pub open spec fn problem(self) -> Option<Seq<char>> {
        if self.boards@.len() == 0 {
            Some("at least one board profile is required"@)
        } else if self.serial_ring_bytes == 0 {
            Some("serial_ring_bytes must be greater than zero"@)
        } else {
            boards_problem(self.boards@, self.boards@.len() as int)
        }
    }

    /// There is a board, the ring can hold something, every profile is sound by itself, and no
    /// two boards share an id, a serial device or a power controller.
    pub open spec fn valid(self) -> bool {
        &&& self.boards@.len() > 0
        &&& self.serial_ring_bytes > 0
        &&& forall|i: int|
            0 <= i < self.boards@.len() ==> (#[trigger] self.boards@[i]).problem() is None
        &&& forall|i: int, k: int|
            #![trigger self.boards@[i], self.boards@[k]]
            0 <= i < self.boards@.len() && 0 <= k < self.boards@.len() && i != k ==> {
                &&& self.boards@[i].board_id@ != self.boards@[k].board_id@
                &&& self.boards@[i].serial.device@ != self.boards@[k].serial.device@
                &&& !same_power(self.boards@[i].power, self.boards@[k].power)
            }
    }

    /// Accepts exactly the configurations without a problem, and reports the first one.
    pub fn validate(&self) -> (result: Result<(), Error>)
        ensures
            reports(result, self.problem()),
            result is Ok <==> self.valid(),
    {
        proof {
            validation_is_exact(*self);
        }
        if self.boards.len() == 0 {
            return invalid("at least one board profile is required".to_owned());
        }
        if self.serial_ring_bytes == 0 {
            return invalid("serial_ring_bytes must be greater than zero".to_owned());
        }
        let mut i: usize = 0;
        while i < self.boards.len()
            invariant
                i <= self.boards@.len(),
                self.boards@.len() > 0,
                self.serial_ring_bytes > 0,
                boards_problem(self.boards@, i as int) is None,
                self.problem() is None <==> self.valid(),
            decreases self.boards@.len() - i,
        {
            match self.validate_board(i) {
                Ok(()) => {},
                Err(error) => {
                    proof {
                        problem_stays(self.boards@, i + 1, self.boards@.len() as int);
                    }
                    return Err(error);
                },
            }
            i += 1;
        }
        Ok(())
    }

    fn validate_board(&self, i: usize) -> (result: Result<(), Error>)
        requires
            i < self.boards@.len(),
        ensures
            reports(result, board_problem(self.boards@, i as int)),
    {
        let board = &self.boards[i];
        match board.validate() {
            Ok(()) => {},
            Err(error) => {
                return Err(error);
            },
        }
        let mut same_id = false;
        let mut same_device = false;
        let mut same_controller = false;
        let mut k: usize = 0;
        while k < i
            invariant
                k <= i,
                i < self.boards@.len(),
                *board == self.boards@[i as int],
                same_id <==> exists|j: int|
                    0 <= j < k && (#[trigger] self.boards@[j]).board_id@ == board.board_id@,
                same_device <==> exists|j: int|
                    0 <= j < k && (#[trigger] self.boards@[j]).serial.device@
                        == board.serial.device@,
                same_controller <==> exists|j: int|
                    0 <= j < k && same_power((#[trigger] self.boards@[j]).power, board.power),
            decreases i - k,
        {
            let other = &self.boards[k];
            if other.board_id == board.board_id {
                same_id = true;
            }
            if other.serial.device == board.serial.device {
                same_device = true;
            }
            if other.power.backend == board.power.backend && other.power.identity
                == board.power.identity {
                same_controller = true;
            }
            k += 1;
        }
        if same_id {
            let mut message = "duplicate board_id: ".to_owned();
            message.append(board.board_id.as_str());
            return invalid(message);
        }
        if same_device {
            let mut message = "duplicate serial device: ".to_owned();
            message.append(board.serial.device.as_str());
            return invalid(message);
        }
        if same_controller {
            let mut message = "duplicate power identity: ".to_owned();
            message.append(board.power.backend.as_str());
            message.append("/");
            message.append(board.power.identity.as_str());
            return invalid(message);
        }
        Ok(())
    }
}

/// The complaint about the first of the first `n` boards whose power controller is of a kind that
/// cannot be driven.
pub open spec fn backend_problem(boards: Seq<BoardProfile>, n: int) -> Option<Seq<char>>
    decreases n,
{
    if n <= 0 {
        None
    } else if backend_problem(boards, n - 1) is Some {
        backend_problem(boards, n - 1)
    } else if boards[n - 1].power.backend@ != "matter"@ {
        Some(
            boards[n - 1].board_id@ + ": power backend "@ + quoted(boards[n - 1].power.backend@)
                + " is not supported"@,
        )
    } else {
        None
    }
}

impl Config {
    /// The first problem that keeps the program from starting: one of the configuration itself,
    /// or a power controller of a kind that cannot be driven.
    pub open spec fn startup_problem(self) -> Option<Seq<char>> {
        if self.problem() is Some {
            self.problem()
        } else {
            backend_problem(self.boards@, self.boards@.len() as int)
        }
    }

    /// Accepts exactly the configurations that the program can start with.
    pub fn validate_startup(&self) -> (result: Result<(), Error>)
        ensures
            reports(result, self.startup_problem()),
    {
        match self.validate() {
            Ok(()) => {},
            Err(error) => {
                return Err(error);
            },
        }
        let mut i: usize = 0;
        while i < self.boards.len()
            invariant
                i <= self.boards@.len(),
                self.problem() is None,
                backend_problem(self.boards@, i as int) is None,
            decreases self.boards@.len() - i,
        {
            let board = &self.boards[i];
            if !same(board.power.backend.as_str(), "matter") {
                let mut message = board.board_id.clone();
                message.append(": power backend ");
                message.append(debug_quoted(board.power.backend.as_str()).as_str());
                message.append(" is not supported");
                proof {
                    backend_problem_stays(self.boards@, i + 1, self.boards@.len() as int);
                }
                return invalid(message);
            }
            i += 1;
        }
        Ok(())
    }
}

proof fn backend_problem_stays(boards: Seq<BoardProfile>, n: int, m: int)
    requires
        0 <= n <= m,
        backend_problem(boards, n) is Some,
    ensures
        backend_problem(boards, m) == backend_problem(boards, n),
    decreases m - n,
{
    if n < m {
        backend_problem_stays(boards, n, m - 1);
    }
}

proof fn problem_stays(boards: Seq<BoardProfile>, n: int, m: int)
    requires
        0 <= n <= m,
        boards_problem(boards, n) is Some,
    ensures
        boards_problem(boards, m) == boards_problem(boards, n),
    decreases m - n,
{
    if n < m {
        problem_stays(boards, n, m - 1);
    }
}

proof fn no_problem_up_to(boards: Seq<BoardProfile>, n: int, i: int)
    requires
        boards_problem(boards, n) is None,
        0 <= i < n,
    ensures
        board_problem(boards, i) is None,
    decreases n,
{
    if i < n - 1 {
        no_problem_up_to(boards, n - 1, i);
    }
}

proof fn sound_boards_have_no_problem(boards: Seq<BoardProfile>, n: int)
    requires
        forall|i: int| 0 <= i < n ==> #[trigger] board_problem(boards, i) is None,
    ensures
        boards_problem(boards, n) is None,
    decreases n,
{
    if n > 0 {
        sound_boards_have_no_problem(boards, n - 1);
        assert(board_problem(boards, n - 1) is None);
    }
}

/// A configuration passes validation exactly when it has a board, a ring that can hold
/// something, profiles that are each sound, and no id, serial device or power controller that
/// two boards share.
pub proof fn validation_is_exact(config: Config)
    ensures
        config.problem() is None <==> config.valid(),
{
    let boards = config.boards@;
    let n = boards.len() as int;
    if config.problem() is None {
        assert forall|i: int| 0 <= i < n implies (#[trigger] boards[i]).problem() is None by {
            no_problem_up_to(boards, n, i);
        }
        assert forall|i: int, k: int|
            #![trigger boards[i], boards[k]]
            0 <= i < n && 0 <= k < n && i != k implies {
            &&& boards[i].board_id@ != boards[k].board_id@
            &&& boards[i].serial.device@ != boards[k].serial.device@
            &&& !same_power(boards[i].power, boards[k].power)
        } by {
            no_problem_up_to(boards, n, i);
            no_problem_up_to(boards, n, k);
        }
    }
    if config.valid() {
        assert forall|i: int| 0 <= i < n implies #[trigger] board_problem(boards, i) is None by {
            assert(boards[i].problem() is None);
        }
        sound_boards_have_no_problem(boards, n);
    }
}

} // verus!
