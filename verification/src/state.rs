//! Board states and their detection from console output.

use std::time::SystemTime;

use vstd::prelude::*;
use vstd::utf8::encode_utf8;

use crate::config::StatePatterns;
use crate::text::{chars_of, copy_bytes, decode_lossy, decoded, last_occurrence, rfind};

verus! {

/// What a board is doing.
#[derive(Debug, Clone, Copy, PartialEq, Eq, Structural)]
pub enum BoardState {
    PoweredOff,
    PoweringOn,
    BootRomOrFirmware,
    UbootCountdown,
    UbootPrompt,
    LinuxBooting,
    LinuxLogin,
    LinuxShell,
    ShutdownInProgress,
    ApplicationRunning,
    Unresponsive,
    Unknown,
}

impl BoardState {
    /// The name by which requests and results call the state.
    pub open spec fn name(self) -> Seq<char> {
        match self {
            BoardState::PoweredOff => "powered_off"@,
            BoardState::PoweringOn => "powering_on"@,
            BoardState::BootRomOrFirmware => "boot_rom_or_firmware"@,
            BoardState::UbootCountdown => "uboot_countdown"@,
            BoardState::UbootPrompt => "uboot_prompt"@,
            BoardState::LinuxBooting => "linux_booting"@,
            BoardState::LinuxLogin => "linux_login"@,
            BoardState::LinuxShell => "linux_shell"@,
            BoardState::ShutdownInProgress => "shutdown_in_progress"@,
            BoardState::ApplicationRunning => "application_running"@,
            BoardState::Unresponsive => "unresponsive"@,
            BoardState::Unknown => "unknown"@,
        }
    }

    /// The name by which the interactive console calls the state.
    pub open spec fn title(self) -> Seq<char> {
        match self {
            BoardState::PoweredOff => "PoweredOff"@,
            BoardState::PoweringOn => "PoweringOn"@,
            BoardState::BootRomOrFirmware => "BootRomOrFirmware"@,
            BoardState::UbootCountdown => "UbootCountdown"@,
            BoardState::UbootPrompt => "UbootPrompt"@,
            BoardState::LinuxBooting => "LinuxBooting"@,
            BoardState::LinuxLogin => "LinuxLogin"@,
            BoardState::LinuxShell => "LinuxShell"@,
            BoardState::ShutdownInProgress => "ShutdownInProgress"@,
            BoardState::ApplicationRunning => "ApplicationRunning"@,
            BoardState::Unresponsive => "Unresponsive"@,
            BoardState::Unknown => "Unknown"@,
        }
    }

    /// The name by which requests and results call the state.
    pub fn state_name(self) -> (name: String)
        ensures
            name@ == self.name(),
    {
        let name = match self {
            BoardState::PoweredOff => "powered_off",
            BoardState::PoweringOn => "powering_on",
            BoardState::BootRomOrFirmware => "boot_rom_or_firmware",
            BoardState::UbootCountdown => "uboot_countdown",
            BoardState::UbootPrompt => "uboot_prompt",
            BoardState::LinuxBooting => "linux_booting",
            BoardState::LinuxLogin => "linux_login",
            BoardState::LinuxShell => "linux_shell",
            BoardState::ShutdownInProgress => "shutdown_in_progress",
            BoardState::ApplicationRunning => "application_running",
            BoardState::Unresponsive => "unresponsive",
            BoardState::Unknown => "unknown",
        };
        name.to_owned()
    }

    /// The name by which the interactive console calls the state.
    pub fn state_title(self) -> (title: String)
        ensures
            title@ == self.title(),
    {
        let title = match self {
            BoardState::PoweredOff => "PoweredOff",
            BoardState::PoweringOn => "PoweringOn",
            BoardState::BootRomOrFirmware => "BootRomOrFirmware",
            BoardState::UbootCountdown => "UbootCountdown",
            BoardState::UbootPrompt => "UbootPrompt",
            BoardState::LinuxBooting => "LinuxBooting",
            BoardState::LinuxLogin => "LinuxLogin",
            BoardState::LinuxShell => "LinuxShell",
            BoardState::ShutdownInProgress => "ShutdownInProgress",
            BoardState::ApplicationRunning => "ApplicationRunning",
            BoardState::Unresponsive => "Unresponsive",
            BoardState::Unknown => "Unknown",
        };
        title.to_owned()
    }
}

/// A state and what it was inferred from. The confidence is in percent.
#[derive(Debug)]
pub struct StateEvidence {
    pub state: BoardState,
    pub confidence_percent: u8,
    pub timestamp: SystemTime,
    pub generation: u64,
    pub evidence: Vec<u8>,
    pub active_probe: bool,
}

/// What an evidence says.
pub struct EvidenceView {
    pub state: BoardState,
    pub confidence_percent: int,
    pub timestamp: SystemTime,
    pub generation: int,
    pub evidence: Seq<u8>,
    pub active_probe: bool,
}

impl View for StateEvidence {
    type V = EvidenceView;

    open spec fn view(&self) -> EvidenceView {
        EvidenceView {
            state: self.state,
            confidence_percent: self.confidence_percent as int,
            timestamp: self.timestamp,
            generation: self.generation as int,
            evidence: self.evidence@,
            active_probe: self.active_probe,
        }
    }
}

impl Clone for StateEvidence {
    fn clone(&self) -> (copy: Self)
        ensures
            copy@ == self@,
    {
        StateEvidence {
            state: self.state,
            confidence_percent: self.confidence_percent,
            timestamp: self.timestamp,
            generation: self.generation,
            evidence: copy_bytes(self.evidence.as_slice()),
            active_probe: self.active_probe,
        }
    }
}

/// The states that patterns show, each with its pattern. An empty pattern shows nothing.
pub open spec fn candidates(patterns: StatePatterns) -> Seq<(BoardState, Seq<char>)> {
    seq![
        (
            BoardState::ShutdownInProgress,
            match patterns.shutdown {
                Some(pattern) => pattern@,
                None => Seq::empty(),
            },
        ),
        (BoardState::LinuxShell, patterns.linux_shell@),
        (BoardState::LinuxLogin, patterns.linux_login@),
        (BoardState::LinuxBooting, patterns.linux_boot@),
        (BoardState::UbootPrompt, patterns.uboot_prompt@),
        (BoardState::UbootCountdown, patterns.uboot_countdown@),
    ]
}

/// Where candidate `i` occurs last in `text`.
pub open spec fn sighting(
    list: Seq<(BoardState, Seq<char>)>,
    text: Seq<char>,
    i: int,
) -> Option<int> {
    if list[i].1.len() == 0 {
        None
    } else {
        last_occurrence(text, list[i].1)
    }
}

/// Candidate `i` is seen in `text`, none is seen later, and none further down the list is seen
/// at the same place.
pub open spec fn seen_last(list: Seq<(BoardState, Seq<char>)>, text: Seq<char>, i: int) -> bool {
    &&& 0 <= i < list.len()
    &&& sighting(list, text, i) is Some
    &&& forall|k: int|
        #![trigger sighting(list, text, k)]
        0 <= k < list.len() && sighting(list, text, k) is Some ==> sighting(list, text, k)->0
            < sighting(list, text, i)->0 || (sighting(list, text, k)->0 == sighting(
            list,
            text,
            i,
        )->0 && k <= i)
}

/// The candidate that is seen last in `text`.
pub open spec fn latest(list: Seq<(BoardState, Seq<char>)>, text: Seq<char>) -> Option<int> {
    if exists|i: int| seen_last(list, text, i) {
        Some(choose|i: int| seen_last(list, text, i))
    } else {
        None
    }
}

/// The state that `text` shows.
pub open spec fn classify(patterns: StatePatterns, text: Seq<char>) -> BoardState {
    match latest(candidates(patterns), text) {
        Some(i) => candidates(patterns)[i].0,
        None => BoardState::Unknown,
    }
}

/// What `text`, received up to `timestamp` in a console generation, shows.
pub open spec fn observed(
    patterns: StatePatterns,
    text: Seq<char>,
    timestamp: SystemTime,
    generation: int,
) -> EvidenceView {
    match latest(candidates(patterns), text) {
        Some(i) => EvidenceView {
            state: candidates(patterns)[i].0,
            confidence_percent: 95,
            timestamp,
            generation,
            evidence: encode_utf8(candidates(patterns)[i].1),
            active_probe: false,
        },
        None => EvidenceView {
            state: BoardState::Unknown,
            confidence_percent: 0,
            timestamp,
            generation,
            evidence: Seq::empty(),
            active_probe: false,
        },
    }
}

/// At most one candidate is seen last.
proof fn seen_last_is_unique(
    list: Seq<(BoardState, Seq<char>)>,
    text: Seq<char>,
    i: int,
    k: int,
)
    requires
        seen_last(list, text, i),
        seen_last(list, text, k),
    ensures
        i == k,
{
    assert(sighting(list, text, i) is Some);
    assert(sighting(list, text, k) is Some);
}

/// Where any candidate is seen, one is seen last: `best` holds it among the first `n`.
spec fn best_of(
    list: Seq<(BoardState, Seq<char>)>,
    text: Seq<char>,
    n: int,
    best: Option<(int, int)>,
) -> bool {
    match best {
        Some((i, offset)) => {
            &&& 0 <= i < n
            &&& sighting(list, text, i) == Some(offset)
            &&& forall|k: int|
                #![trigger sighting(list, text, k)]
                0 <= k < n && sighting(list, text, k) is Some ==> sighting(list, text, k)->0
                    < offset || (sighting(list, text, k)->0 == offset && k <= i)
        },
        None => forall|k: int|
            #![trigger sighting(list, text, k)]
            0 <= k < n ==> sighting(list, text, k) is None,
    }
}

proof fn best_is_latest(
    list: Seq<(BoardState, Seq<char>)>,
    text: Seq<char>,
    best: Option<(int, int)>,
)
    requires
        best_of(list, text, list.len() as int, best),
    ensures
        latest(list, text) == match best {
            Some((i, offset)) => Some(i),
            None => None::<int>,
        },
{
    match best {
        Some((i, offset)) => {
            assert(seen_last(list, text, i));
            seen_last_is_unique(list, text, i, choose|k: int| seen_last(list, text, k));
        },
        None => {},
    }
}

proof fn best_exists(list: Seq<(BoardState, Seq<char>)>, text: Seq<char>, n: int) -> (best: Option<
    (int, int),
>)
    requires
        0 <= n,
    ensures
        best_of(list, text, n, best),
    decreases n,
{
    if n == 0 {
        None
    } else {
        let before = best_exists(list, text, n - 1);
        match sighting(list, text, n - 1) {
            Some(offset) => match before {
                Some((i, other)) => if offset >= other {
                    Some((n - 1, offset))
                } else {
                    before
                },
                None => Some((n - 1, offset)),
            },
            None => before,
        }
    }
}

/// The evidence that appears last decides, and of two patterns that appear last at the same
/// place the one further down the list. The state is unknown exactly where no pattern appears.
pub proof fn most_recent_evidence_decides(patterns: StatePatterns, text: Seq<char>)
    ensures
        match latest(candidates(patterns), text) {
            Some(i) => seen_last(candidates(patterns), text, i) && classify(patterns, text)
                == candidates(patterns)[i].0 && classify(patterns, text) != BoardState::Unknown,
            None => classify(patterns, text) == BoardState::Unknown && forall|k: int|
                0 <= k < candidates(patterns).len() ==> #[trigger] sighting(
                    candidates(patterns),
                    text,
                    k,
                ) is None,
        },
{
    let list = candidates(patterns);
    let best = best_exists(list, text, list.len() as int);
    best_is_latest(list, text, best);
}

/// Without output the state is unknown.
pub proof fn silence_is_unknown(patterns: StatePatterns)
    ensures
        classify(patterns, Seq::empty()) == BoardState::Unknown,
        classify(patterns, decoded(Seq::empty())) == BoardState::Unknown,
{
    assert(decoded(Seq::empty()) == Seq::<char>::empty());
    let list = candidates(patterns);
    let text = Seq::<char>::empty();
    most_recent_evidence_decides(patterns, text);
    match latest(list, text) {
        Some(i) => {
            assert(last_occurrence(text, list[i].1) is None);
        },
        None => {},
    }
}

/// Infers a board's state from what its console shows.
pub struct StateDetector<'a> {
    patterns: &'a StatePatterns,
}

impl<'a> StateDetector<'a> {
    /// The patterns by which states are known.
    pub closed spec fn patterns(self) -> StatePatterns {
        *self.patterns
    }

    /// A detector that goes by the patterns given.
    pub fn new(patterns: &'a StatePatterns) -> (detector: Self)
        ensures
            detector.patterns() == *patterns,
    {
        StateDetector { patterns }
    }

    /// What the bytes, received up to `timestamp` in a console generation, show.
    pub fn observe(&self, bytes: &[u8], timestamp: SystemTime, generation: u64) -> (evidence:
        StateEvidence)
        ensures
            evidence@ == observed(
                self.patterns(),
                decoded(bytes@),
                timestamp,
                generation as int,
            ),
            evidence.state == classify(self.patterns(), decoded(bytes@)),
    {
        let text = decode_lossy(bytes);
        self.observe_text(text.as_str(), timestamp, generation)
    }

    /// What the text, received up to `timestamp` in a console generation, shows.
    pub fn observe_text(&self, text: &str, timestamp: SystemTime, generation: u64) -> (evidence:
        StateEvidence)
        ensures
            evidence@ == observed(self.patterns(), text@, timestamp, generation as int),
            evidence.state == classify(self.patterns(), text@),
    {
        match self.search(text) {
            Some((state, pattern)) => StateEvidence {
                state,
                confidence_percent: 95,
                timestamp,
                generation,
                evidence: copy_bytes(pattern.as_bytes()),
                active_probe: false,
            },
            None => StateEvidence {
                state: BoardState::Unknown,
                confidence_percent: 0,
                timestamp,
                generation,
                evidence: Vec::new(),
                active_probe: false,
            },
        }
    }

    /// The state that the bytes show.
    pub fn state_of(&self, bytes: &[u8]) -> (state: BoardState)
        ensures
            state == classify(self.patterns(), decoded(bytes@)),
    {
        let text = decode_lossy(bytes);
        self.state_of_text(text.as_str())
    }

    /// The state that the text shows.
    pub fn state_of_text(&self, text: &str) -> (state: BoardState)
        ensures
            state == classify(self.patterns(), text@),
    {
        match self.search(text) {
            Some((state, _)) => state,
            None => BoardState::Unknown,
        }
    }

    /// The candidate that is seen last.
    fn search(&self, text: &str) -> (found: Option<(BoardState, &str)>)
        ensures
            match latest(candidates(self.patterns()), text@) {
                Some(i) => found matches Some((state, pattern)) && state == candidates(
                    self.patterns(),
                )[i].0 && pattern@ == candidates(self.patterns())[i].1,
                None => found is None,
            },
    {
        let ghost list = candidates(self.patterns());
        let chars = chars_of(text);
        let shutdown = match &self.patterns.shutdown {
            Some(pattern) => pattern.as_str(),
            None => "",
        };
        proof {
            reveal_strlit("");
            assert(shutdown@ == list[0].1);
        }
        let patterns: [(BoardState, &str); 6] = [
            (BoardState::ShutdownInProgress, shutdown),
            (BoardState::LinuxShell, self.patterns.linux_shell.as_str()),
            (BoardState::LinuxLogin, self.patterns.linux_login.as_str()),
            (BoardState::LinuxBooting, self.patterns.linux_boot.as_str()),
            (BoardState::UbootPrompt, self.patterns.uboot_prompt.as_str()),
            (BoardState::UbootCountdown, self.patterns.uboot_countdown.as_str()),
        ];
        assert(forall|k: int|
            0 <= k < 6 ==> (#[trigger] patterns@[k]).0 == list[k].0 && patterns@[k].1@
                == list[k].1);
        let mut best: Option<(usize, usize)> = None;
        let mut i: usize = 0;
        while i < 6
            invariant
                i <= 6,
                patterns@.len() == 6,
                list.len() == 6,
                chars@ == text@,
                forall|k: int|
                    0 <= k < 6 ==> (#[trigger] patterns@[k]).0 == list[k].0 && patterns@[k].1@
                        == list[k].1,
                best_of(list, text@, i as int, widened(best)),
            decreases 6 - i,
        {
            let pattern = chars_of(patterns[i].1);
            assert(pattern@ == list[i as int].1);
            if pattern.len() > 0 {
                if let Some(place) = rfind(&chars, &pattern) {
                    let later = match best {
                        Some((_, offset)) => place >= offset,
                        None => true,
                    };
                    if later {
                        best = Some((i, place));
                    }
                }
            }
            i += 1;
        }
        proof {
            best_is_latest(list, text@, widened(best));
        }
        match best {
            Some((at, _)) => Some((patterns[at].0, patterns[at].1)),
            None => None,
        }
    }
}

spec fn widened(best: Option<(usize, usize)>) -> Option<(int, int)> {
    match best {
        Some((i, offset)) => Some((i as int, offset as int)),
        None => None,
    }
}

} // verus!
