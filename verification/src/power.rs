//! Queries and changes of a board's power, as dialogues with the `chip-tool` and `ip` commands.

use vstd::prelude::*;

use crate::config::PowerProfile;
use crate::error::{fault, Error, ErrorCode, ErrorView};
use crate::text::{
    all_digits, before_first, contains, decode_lossy, decoded, digit, has, lowercase, lowered,
    replace, replaced, same, split, split_at_each, split_first, take_chars, texts, trim, trimmed,
};

verus! {

/// How a Matter power controller is known. Where a MAC address is given, it has to be in the
/// host's neighbor table before power may change.
#[derive(Debug)]
pub struct PowerIdentity {
    pub node: String,
    pub endpoint: String,
    pub mac: Option<String>,
}

/// What an identity says.
pub struct IdentityView {
    pub node: Seq<char>,
    pub endpoint: Seq<char>,
    pub mac: Option<Seq<char>>,
}

impl View for PowerIdentity {
    type V = IdentityView;

    open spec fn view(&self) -> IdentityView {
        IdentityView {
            node: self.node@,
            endpoint: self.endpoint@,
            mac: match self.mac {
                Some(mac) => Some(mac@),
                None => None,
            },
        }
    }
}

/// The value that `part` gives to `key`, where it reads `key=value`.
pub open spec fn value_in(part: Seq<char>, key: Seq<char>) -> Option<Seq<char>> {
    let at = before_first(part, '=');
    if at < part.len() && trim(part.take(at)) == key {
        Some(trim(part.skip(at + 1)))
    } else {
        None
    }
}

/// The value that the last of the parts to name `key` gives to it.
pub open spec fn field(parts: Seq<Seq<char>>, key: Seq<char>) -> Option<Seq<char>>
    decreases parts.len(),
{
    if parts.len() == 0 {
        None
    } else if value_in(parts.last(), key) is Some {
        value_in(parts.last(), key)
    } else {
        field(parts.drop_last(), key)
    }
}

/// A text of decimal digits.
pub open spec fn numeric(s: Seq<char>) -> bool {
    forall|i: int| 0 <= i < s.len() ==> digit(#[trigger] s[i])
}

/// The identity that a text of `key=value` parts, separated by semicolons, describes. Node and
/// endpoint have to be there and numeric; a MAC address is taken with colons and in lower case.
pub open spec fn identity_of(text: Seq<char>) -> Option<IdentityView> {
    let parts = split(text, ';');
    match (field(parts, "node"@), field(parts, "endpoint"@)) {
        (Some(node), Some(endpoint)) => if numeric(node) && numeric(endpoint) {
            Some(
                IdentityView {
                    node,
                    endpoint,
                    mac: match field(parts, "mac"@) {
                        Some(mac) => Some(lowered(replaced(mac, '-', ':'))),
                        None => None,
                    },
                },
            )
        } else {
            None
        },
        _ => None,
    }
}

/// The error for a text that describes no identity.
pub open spec fn bad_identity() -> ErrorView {
    fault(
        ErrorCode::InvalidConfiguration,
        "power_identity"@,
        "Matter identity requires numeric node and endpoint"@,
    )
}

/// Reads the identity that a text describes.
pub fn parse_identity(identity: &str) -> (result: Result<PowerIdentity, Error>)
    ensures
        match identity_of(identity@) {
            Some(view) => result matches Ok(parsed) && parsed@ == view,
            None => result matches Err(error) && error@ == bad_identity(),
        },
{
    let parts = split_at_each(identity, ';');
    let ghost list = split(identity@, ';');
    let mut node: Option<String> = None;
    let mut endpoint: Option<String> = None;
    let mut mac: Option<String> = None;
    let mut i: usize = 0;
    assert(list.take(0) == Seq::<Seq<char>>::empty());
    proof {
        keys_differ();
    }
    while i < parts.len()
        invariant
            i <= parts@.len(),
            list == texts(parts@),
            "node"@ != "endpoint"@,
            "node"@ != "mac"@,
            "endpoint"@ != "mac"@,
            optional(node) == field(list.take(i as int), "node"@),
            optional(endpoint) == field(list.take(i as int), "endpoint"@),
            match field(list.take(i as int), "mac"@) {
                Some(m) => mac matches Some(kept) && kept@ == lowered(replaced(m, '-', ':')),
                None => mac is None,
            },
        decreases parts@.len() - i,
    {
        let ghost part = list[i as int];
        proof {
            assert(part == parts@[i as int]@);
            assert(list.take(i + 1).last() == part);
            assert(list.take(i + 1).drop_last() == list.take(i as int));
        }
        if let Some((key, value)) = split_first(parts[i].as_str(), '=') {
            let key = trimmed(key.as_str());
            let value = trimmed(value.as_str());
            if same(key.as_str(), "node") {
                node = Some(value);
            } else if same(key.as_str(), "endpoint") {
                endpoint = Some(value);
            } else if same(key.as_str(), "mac") {
                mac = Some(lowercase(replace(value.as_str(), '-', ':').as_str()));
            }
        }
        i += 1;
    }
    assert(list.take(list.len() as int) == list);
    if let Some(node) = node {
        if let Some(endpoint) = endpoint {
            if all_digits(node.as_str()) && all_digits(endpoint.as_str()) {
                return Ok(PowerIdentity { node, endpoint, mac });
            }
        }
    }
    Err(
        Error::new(
            ErrorCode::InvalidConfiguration,
            "power_identity",
            "Matter identity requires numeric node and endpoint".to_owned(),
        ),
    )
}

spec fn optional(text: Option<String>) -> Option<Seq<char>> {
    match text {
        Some(t) => Some(t@),
        None => None,
    }
}

proof fn keys_differ()
    ensures
        "node"@ != "endpoint"@,
        "node"@ != "mac"@,
        "endpoint"@ != "mac"@,
{
    reveal_strlit("node");
    reveal_strlit("endpoint");
    reveal_strlit("mac");
    assert("node"@.len() == 4);
    assert("endpoint"@.len() == 8);
    assert("mac"@.len() == 3);
}

/// What a power controller was found to say.
#[derive(Debug)]
pub struct PowerObservation {
    pub state: String,
    pub identity_verified: bool,
    pub raw: String,
}

/// What an observation says.
pub struct ObservationView {
    pub state: Seq<char>,
    pub identity_verified: bool,
    pub raw: Seq<char>,
}

impl View for PowerObservation {
    type V = ObservationView;

    open spec fn view(&self) -> ObservationView {
        ObservationView {
            state: self.state@,
            identity_verified: self.identity_verified,
            raw: self.raw@,
        }
    }
}

impl Clone for PowerObservation {
    fn clone(&self) -> (copy: Self)
        ensures
            copy@ == self@,
    {
        PowerObservation {
            state: self.state.clone(),
            identity_verified: self.identity_verified,
            raw: self.raw.clone(),
        }
    }
}

/// A command to run on the host.
#[derive(Debug, PartialEq, Eq)]
pub struct HostCommand {
    pub program: String,
    pub arguments: Vec<String>,
}

/// What a command consists of.
pub struct CommandView {
    pub program: Seq<char>,
    pub arguments: Seq<Seq<char>>,
}

impl View for HostCommand {
    type V = CommandView;

    open spec fn view(&self) -> CommandView {
        CommandView { program: self.program@, arguments: texts(self.arguments@) }
    }
}

/// What came of running a command.
#[derive(Debug)]
pub enum CommandReply {
    /// It ran: whether it succeeded and what it wrote.
    Ran { success: bool, stdout: Vec<u8>, stderr: Vec<u8> },
    /// It could not be run, and why.
    NotRun { reason: String },
}

/// What came of running a command, with its output as text.
#[derive(Debug)]
pub enum TextReply {
    /// It ran: whether it succeeded and what it wrote.
    Ran { success: bool, stdout: String, stderr: String },
    /// It could not be run, and why.
    NotRun { reason: String },
}

/// What a reply says.
pub enum ReplyView {
    Ran { success: bool, stdout: Seq<char>, stderr: Seq<char> },
    NotRun { reason: Seq<char> },
}

impl View for CommandReply {
    type V = ReplyView;

    open spec fn view(&self) -> ReplyView {
        match self {
            CommandReply::Ran { success, stdout, stderr } => ReplyView::Ran {
                success: *success,
                stdout: decoded(stdout@),
                stderr: decoded(stderr@),
            },
            CommandReply::NotRun { reason } => ReplyView::NotRun { reason: reason@ },
        }
    }
}

impl View for TextReply {
    type V = ReplyView;

    open spec fn view(&self) -> ReplyView {
        match self {
            TextReply::Ran { success, stdout, stderr } => ReplyView::Ran {
                success: *success,
                stdout: stdout@,
                stderr: stderr@,
            },
            TextReply::NotRun { reason } => ReplyView::NotRun { reason: reason@ },
        }
    }
}

/// What a dialogue with a power controller is for.
#[derive(Debug, Clone, Copy, PartialEq, Eq, Structural)]
pub enum PowerGoal {
    /// To learn the state.
    Query,
    /// To switch on or off, and to verify that.
    Switch { on: bool },
}

/// How far a dialogue has come. `after` tells the query that follows a switch from the one
/// before it.
#[derive(Debug)]
pub enum PowerStage {
    /// The state is being read.
    Read { after: bool },
    /// The state has been read, and the neighbor table is being searched for the MAC address.
    Neighbors { after: bool, state: String, raw: String },
    /// Power is being switched.
    Switch,
    /// The dialogue is over.
    Ended { result: Result<PowerObservation, Error> },
}

/// What a stage is.
pub enum StageView {
    Read { after: bool },
    Neighbors { after: bool, state: Seq<char>, raw: Seq<char> },
    Switch,
    Ended { result: Result<ObservationView, ErrorView> },
}

/// What a result of a power dialogue says.
pub open spec fn observation_result(result: Result<PowerObservation, Error>) -> Result<
    ObservationView,
    ErrorView,
> {
    match result {
        Ok(observation) => Ok(observation@),
        Err(error) => Err(error@),
    }
}

impl View for PowerStage {
    type V = StageView;

    open spec fn view(&self) -> StageView {
        match self {
            PowerStage::Read { after } => StageView::Read { after: *after },
            PowerStage::Neighbors { after, state, raw } => StageView::Neighbors {
                after: *after,
                state: state@,
                raw: raw@,
            },
            PowerStage::Switch => StageView::Switch,
            PowerStage::Ended { result } => StageView::Ended {
                result: observation_result(*result),
            },
        }
    }
}

/// A dialogue with a power controller.
#[derive(Debug)]
pub struct PowerTask {
    identity: PowerIdentity,
    goal: PowerGoal,
    stage: PowerStage,
}

/// What a dialogue is about and how far it has come.
pub struct TaskView {
    pub identity: IdentityView,
    pub goal: PowerGoal,
    pub stage: StageView,
}

impl View for PowerTask {
    type V = TaskView;

    closed spec fn view(&self) -> TaskView {
        TaskView { identity: self.identity@, goal: self.goal, stage: self.stage@ }
    }
}

/// The word for a switch position.
pub open spec fn position(on: bool) -> Seq<char> {
    if on {
        "on"@
    } else {
        "off"@
    }
}

/// The error for a backend that is not known.
pub open spec fn unknown_backend() -> ErrorView {
    fault(
        ErrorCode::PowerBackendFailed,
        "power_query"@,
        "only the matter backend is implemented"@,
    )
}

/// The error for a MAC address that is not in the neighbor table.
pub open spec fn identity_mismatch() -> ErrorView {
    fault(
        ErrorCode::PowerIdentityMismatch,
        "power_identity"@,
        "configured Matter MAC was not found in the host neighbor table"@,
    )
}

/// The power state that a reading shows.
pub open spec fn reading(raw: Seq<char>) -> Seq<char> {
    if contains(raw, "OnOff: TRUE"@) {
        "on"@
    } else if contains(raw, "OnOff: FALSE"@) {
        "off"@
    } else {
        "unknown"@
    }
}

/// The most that an observation keeps of what the controller said.
pub open spec fn excerpt(raw: Seq<char>) -> Seq<char> {
    raw.take(
        if raw.len() < 4096 {
            raw.len() as int
        } else {
            4096
        },
    )
}

/// The dialogue that a power profile and a goal begin.
pub open spec fn task_for(power: PowerProfile, goal: PowerGoal) -> Result<TaskView, ErrorView> {
    if power.backend@ != "matter"@ {
        Err(unknown_backend())
    } else {
        match identity_of(power.identity@) {
            Some(identity) => Ok(
                TaskView { identity, goal, stage: StageView::Read { after: false } },
            ),
            None => Err(bad_identity()),
        }
    }
}

impl TaskView {
    /// The command that the dialogue waits for.
    pub open spec fn command(self) -> Option<CommandView> {
        match self.stage {
            StageView::Read { after } => Some(
                CommandView {
                    program: "chip-tool"@,
                    arguments: seq![
                        "onoff"@,
                        "read"@,
                        "on-off"@,
                        self.identity.node,
                        self.identity.endpoint,
                    ],
                },
            ),
            StageView::Neighbors { after, state, raw } => Some(
                CommandView { program: "ip"@, arguments: seq!["neigh"@] },
            ),
            StageView::Switch => Some(
                CommandView {
                    program: "chip-tool"@,
                    arguments: seq![
                        "onoff"@,
                        position(self.goal == (PowerGoal::Switch { on: true })),
                        self.identity.node,
                        self.identity.endpoint,
                    ],
                },
            ),
            StageView::Ended { result } => None,
        }
    }

    /// The dialogue at another stage.
    pub open spec fn at(self, stage: StageView) -> TaskView {
        TaskView { stage, ..self }
    }

    /// The dialogue, failed.
    pub open spec fn failed(self, error: ErrorView) -> TaskView {
        self.at(StageView::Ended { result: Err(error) })
    }

    /// The dialogue from its beginning.
    pub open spec fn restarted(self) -> TaskView {
        self.at(StageView::Read { after: false })
    }

    /// The dialogue after a query, `after` a switch or before it, found `observation`.
    pub open spec fn concluded(self, after: bool, observation: ObservationView) -> TaskView {
        match self.goal {
            PowerGoal::Query => self.at(StageView::Ended { result: Ok(observation) }),
            PowerGoal::Switch { on } => if !after {
                if observation.identity_verified {
                    self.at(StageView::Switch)
                } else {
                    self.failed(identity_mismatch())
                }
            } else if observation.state == position(on) {
                self.at(StageView::Ended { result: Ok(observation) })
            } else {
                self.failed(
                    fault(
                        ErrorCode::PowerStateUnverified,
                        "power_verify"@,
                        "expected "@ + position(on) + ", observed "@ + observation.state,
                    ),
                )
            },
        }
    }

    /// The dialogue after the reply to its command.
    pub open spec fn next(self, reply: ReplyView) -> TaskView {
        match self.stage {
            StageView::Read { after } => match reply {
                ReplyView::NotRun { reason } => self.failed(
                    fault(ErrorCode::PowerBackendFailed, "power_query"@, reason),
                ),
                ReplyView::Ran { success, stdout, stderr } => {
                    let raw = stdout + stderr;
                    if !success {
                        self.failed(fault(ErrorCode::PowerBackendFailed, "power_query"@, raw))
                    } else if self.identity.mac is Some {
                        self.at(
                            StageView::Neighbors { after, state: reading(raw), raw: excerpt(raw) },
                        )
                    } else {
                        self.concluded(
                            after,
                            ObservationView {
                                state: reading(raw),
                                identity_verified: true,
                                raw: excerpt(raw),
                            },
                        )
                    }
                },
            },
            StageView::Neighbors { after, state, raw } => self.concluded(
                after,
                ObservationView { state, identity_verified: self.finds_mac(reply), raw },
            ),
            StageView::Switch => match reply {
                ReplyView::NotRun { reason } => self.failed(
                    fault(ErrorCode::PowerBackendFailed, "power_change"@, reason),
                ),
                ReplyView::Ran { success, stdout, stderr } => {
                    let raw = stdout + stderr;
                    if success && contains(raw, "SUCCESS"@) {
                        self.at(StageView::Read { after: true })
                    } else {
                        self.failed(fault(ErrorCode::PowerBackendFailed, "power_change"@, raw))
                    }
                },
            },
            StageView::Ended { result } => self,
        }
    }

    /// The reply lists the MAC address of the identity among the host's neighbors.
    pub open spec fn finds_mac(self, reply: ReplyView) -> bool {
        match (self.identity.mac, reply) {
            (Some(mac), ReplyView::Ran { success, stdout, stderr }) => contains(
                lowered(stdout),
                mac,
            ),
            _ => false,
        }
    }

    /// How many commands the dialogue may still run.
    pub open spec fn left(self) -> nat {
        match self.stage {
            StageView::Read { after } => if after {
                2
            } else {
                5
            },
            StageView::Neighbors { after, state, raw } => if after {
                1
            } else {
                4
            },
            StageView::Switch => 3,
            StageView::Ended { result } => 0,
        }
    }
}

impl PowerTask {
    /// Begins a dialogue.
    pub fn new(power: &PowerProfile, goal: PowerGoal) -> (result: Result<Self, Error>)
        ensures
            match task_for(*power, goal) {
                Ok(view) => result matches Ok(task) && task@ == view,
                Err(view) => result matches Err(error) && error@ == view,
            },
    {
        if !same(power.backend.as_str(), "matter") {
            return Err(
                Error::new(
                    ErrorCode::PowerBackendFailed,
                    "power_query",
                    "only the matter backend is implemented".to_owned(),
                ),
            );
        }
        match parse_identity(power.identity.as_str()) {
            Ok(identity) => Ok(
                PowerTask { identity, goal, stage: PowerStage::Read { after: false } },
            ),
            Err(error) => Err(error),
        }
    }

    /// The command that the dialogue waits for.
    pub fn command(&self) -> (command: Option<HostCommand>)
        ensures
            match self@.command() {
                Some(view) => command matches Some(c) && c@ == view,
                None => command is None,
            },
    {
        match &self.stage {
            PowerStage::Read { after: _ } => {
                let mut arguments: Vec<String> = Vec::new();
                arguments.push("onoff".to_owned());
                arguments.push("read".to_owned());
                arguments.push("on-off".to_owned());
                arguments.push(self.identity.node.clone());
                arguments.push(self.identity.endpoint.clone());
                assert(texts(arguments@) == self@.command()->0.arguments);
                Some(HostCommand { program: "chip-tool".to_owned(), arguments })
            },
            PowerStage::Neighbors { after: _, state: _, raw: _ } => {
                let mut arguments: Vec<String> = Vec::new();
                arguments.push("neigh".to_owned());
                assert(texts(arguments@) == self@.command()->0.arguments);
                Some(HostCommand { program: "ip".to_owned(), arguments })
            },
            PowerStage::Switch => {
                let on = match self.goal {
                    PowerGoal::Switch { on } => on,
                    PowerGoal::Query => false,
                };
                let mut arguments: Vec<String> = Vec::new();
                arguments.push("onoff".to_owned());
                arguments.push(position_word(on).to_owned());
                arguments.push(self.identity.node.clone());
                arguments.push(self.identity.endpoint.clone());
                assert(texts(arguments@) == self@.command()->0.arguments);
                Some(HostCommand { program: "chip-tool".to_owned(), arguments })
            },
            PowerStage::Ended { result: _ } => None,
        }
    }

    /// The result, once the dialogue is over.
    pub fn result(&self) -> (result: Option<Result<PowerObservation, Error>>)
        ensures
            match self@.stage {
                StageView::Ended { result: view } => result matches Some(r) && observation_result(
                    r,
                ) == view,
                _ => result is None,
            },
    {
        match &self.stage {
            PowerStage::Ended { result } => match result {
                Ok(observation) => Some(Ok(observation.clone())),
                Err(error) => Some(Err(error.clone())),
            },
            _ => None,
        }
    }

    /// Begins the dialogue anew.
    pub fn restart(&mut self)
        ensures
            final(self)@ == old(self)@.restarted(),
    {
        self.stage = PowerStage::Read { after: false };
    }

    /// Takes the reply to the command of the dialogue.
    pub fn resume(&mut self, reply: CommandReply)
        ensures
            final(self)@ == old(self)@.next(reply@),
    {
        let text = match reply {
            CommandReply::Ran { success, stdout, stderr } => TextReply::Ran {
                success,
                stdout: decode_lossy(stdout.as_slice()),
                stderr: decode_lossy(stderr.as_slice()),
            },
            CommandReply::NotRun { reason } => TextReply::NotRun { reason },
        };
        self.resume_text(text);
    }

    /// Takes the reply to the command of the dialogue, with the command's output as text.
    pub fn resume_text(&mut self, reply: TextReply)
        ensures
            final(self)@ == old(self)@.next(reply@),
    {
        match &self.stage {
            PowerStage::Read { after } => {
                let after = *after;
                match reply {
                    TextReply::NotRun { reason } => {
                        self.fail(ErrorCode::PowerBackendFailed, "power_query", reason);
                    },
                    TextReply::Ran { success, stdout, stderr } => {
                        let mut raw = stdout;
                        raw.append(stderr.as_str());
                        if !success {
                            self.fail(ErrorCode::PowerBackendFailed, "power_query", raw);
                            return;
                        }
                        let state = read_state(raw.as_str());
                        let raw = take_chars(raw.as_str(), 4096);
                        if self.identity.mac.is_some() {
                            self.stage = PowerStage::Neighbors { after, state, raw };
                        } else {
                            self.conclude(
                                after,
                                PowerObservation { state, identity_verified: true, raw },
                            );
                        }
                    },
                }
            },
            PowerStage::Neighbors { after, state, raw } => {
                let identity_verified = match &self.identity.mac {
                    Some(mac) => match &reply {
                        TextReply::Ran { success: _, stdout, stderr: _ } => has(
                            lowercase(stdout.as_str()).as_str(),
                            mac.as_str(),
                        ),
                        TextReply::NotRun { reason: _ } => false,
                    },
                    None => false,
                };
                let after = *after;
                let observation = PowerObservation {
                    state: state.clone(),
                    identity_verified,
                    raw: raw.clone(),
                };
                self.conclude(after, observation);
            },
            PowerStage::Switch => {
                match reply {
                    TextReply::NotRun { reason } => {
                        self.fail(ErrorCode::PowerBackendFailed, "power_change", reason);
                    },
                    TextReply::Ran { success, stdout, stderr } => {
                        let mut raw = stdout;
                        raw.append(stderr.as_str());
                        if success && has(raw.as_str(), "SUCCESS") {
                            self.stage = PowerStage::Read { after: true };
                        } else {
                            self.fail(ErrorCode::PowerBackendFailed, "power_change", raw);
                        }
                    },
                }
            },
            PowerStage::Ended { result: _ } => {},
        }
    }

    fn fail(&mut self, code: ErrorCode, phase: &'static str, message: String)
        ensures
            final(self)@ == old(self)@.failed(fault(code, phase@, message@)),
    {
        self.stage = PowerStage::Ended { result: Err(Error::new(code, phase, message)) };
    }

    fn conclude(&mut self, after: bool, observation: PowerObservation)
        ensures
            final(self)@ == old(self)@.concluded(after, observation@),
    {
        match self.goal {
            PowerGoal::Query => {
                self.stage = PowerStage::Ended { result: Ok(observation) };
            },
            PowerGoal::Switch { on } => {
                if !after {
                    if observation.identity_verified {
                        self.stage = PowerStage::Switch;
                    } else {
                        self.fail(
                            ErrorCode::PowerIdentityMismatch,
                            "power_identity",
                            "configured Matter MAC was not found in the host neighbor table".to_owned(),
                        );
                    }
                } else if same(observation.state.as_str(), position_word(on)) {
                    self.stage = PowerStage::Ended { result: Ok(observation) };
                } else {
                    let mut message = "expected ".to_owned();
                    message.append(position_word(on));
                    message.append(", observed ");
                    message.append(observation.state.as_str());
                    self.fail(ErrorCode::PowerStateUnverified, "power_verify", message);
                }
            },
        }
    }
}

fn position_word(on: bool) -> (word: &'static str)
    ensures
        word@ == position(on),
{
    if on {
        "on"
    } else {
        "off"
    }
}

fn read_state(raw: &str) -> (state: String)
    ensures
        state@ == reading(raw@),
{
    if has(raw, "OnOff: TRUE") {
        "on".to_owned()
    } else if has(raw, "OnOff: FALSE") {
        "off".to_owned()
    } else {
        "unknown".to_owned()
    }
}

/// Power is not switched before the controller's identity is verified: a dialogue comes to the
/// switch only by finding the configured MAC address, where there is one.
pub proof fn switch_needs_verified_identity(task: TaskView, reply: ReplyView)
    requires
        task.stage !is Switch,
        task.next(reply).stage is Switch,
    ensures
        task.goal is Switch,
        task.identity.mac is Some ==> task.stage is Neighbors && task.finds_mac(reply),
{
}

/// An identity that does not match ends a switch with that error, and no command follows.
pub proof fn mismatch_fails_without_switching(task: TaskView, reply: ReplyView)
    requires
        task.goal is Switch,
        task.stage matches StageView::Neighbors { after, state, raw } && !after,
        !task.finds_mac(reply),
    ensures
        task.next(reply) == task.failed(identity_mismatch()),
        task.next(reply).command() is None,
{
}

/// A switch succeeds only on a query that follows it and shows the position asked for.
pub proof fn switch_is_verified_by_a_later_query(task: TaskView, reply: ReplyView)
    requires
        task.stage !is Ended,
        task.next(reply).stage matches StageView::Ended { result } && result is Ok,
    ensures
        task.goal matches PowerGoal::Switch { on } ==> {
            &&& task.next(reply).stage->Ended_result->Ok_0.state == position(on)
            &&& task.stage == StageView::Read { after: true } || (task.stage is Neighbors
                && task.stage->Neighbors_after)
        },
{
}

/// The query after a switch begins only once the controller has reported the switch as done.
pub proof fn later_query_follows_the_switch(task: TaskView, reply: ReplyView)
    requires
        task.next(reply).stage == (StageView::Read { after: true }),
        task.stage != task.next(reply).stage,
    ensures
        task.stage is Switch,
        reply matches ReplyView::Ran { success, stdout, stderr } && success && contains(
            stdout + stderr,
            "SUCCESS"@,
        ),
{
}

/// The dialogue has found no other state than on, off or unknown.
pub open spec fn finds_known_states(task: TaskView) -> bool {
    match task.stage {
        StageView::Neighbors { after, state, raw } => known_state(state),
        StageView::Ended { result: Ok(observation) } => known_state(observation.state),
        _ => true,
    }
}

/// A power state is on, off or unknown.
pub open spec fn known_state(state: Seq<char>) -> bool {
    state == "on"@ || state == "off"@ || state == "unknown"@
}

/// Whatever the controller says, a dialogue finds power on, off or unknown, from its beginning
/// to its end.
pub proof fn power_is_on_off_or_unknown(
    power: PowerProfile,
    goal: PowerGoal,
    task: TaskView,
    reply: ReplyView,
)
    requires
        finds_known_states(task),
    ensures
        task_for(power, goal) matches Ok(begun) ==> finds_known_states(begun),
        finds_known_states(task.next(reply)),
{
}

/// A dialogue runs at most five commands, and is over once it waits for none.
pub proof fn dialogues_are_bounded(task: TaskView, reply: ReplyView)
    ensures
        task.left() <= 5,
        task.command() is None <==> task.stage is Ended,
        task.stage is Ended ==> task.next(reply) == task,
        task.stage !is Ended ==> task.next(reply).left() < task.left(),
{
}

} // verus!
