//! What the rules on commands, profiles and leases allow, and what a report of them says.

use vstd::prelude::*;

use crate::config::{
    backend_problem, invalid_configuration, linux_commands, uboot_commands, valid_id,
    validation_is_exact, BoardProfile, Config,
};
use crate::doctor::{all_board_lines, board_lines, missing, report_lines};
use crate::error::{Error, ErrorCode, ErrorView};
use crate::execution::{ExecutionView, StandingView};
use crate::lease::{acquired, LeaseOutcome, OwnerView};
use crate::observation::not_observed;
use crate::operations::{already_on, not_open, unconfirmed};
use crate::policy::{not_one_line, not_permitted, one_line, permitted};
use crate::power::identity_mismatch;
use crate::procedure::{marker_missing, nonzero_exit, ActionView};
use crate::registry::{board_not_found, console_taken, Board};
use crate::text::{alphanumeric, ascii_white, control, decimal, first_ascii_word, quoted};
use crate::text_laws::{surroundings_hide_nothing, verbs_end_at_whitespace, within};

verus! {

/// A command is one line where it is not empty and holds no control character: none below the
/// space, and none from delete to the end of the second block of them.
pub proof fn commands_of_one_line(command: Seq<char>)
    ensures
        one_line(command) <==> command.len() > 0 && forall|i: int|
            0 <= i < command.len() ==> !(#[trigger] command[i] <= '\u{1f}') && !('\u{7f}'
                <= command[i] <= '\u{9f}'),
{
    if command.len() > 0 && forall|i: int|
        0 <= i < command.len() ==> !(#[trigger] command[i] <= '\u{1f}') && !('\u{7f}' <= command[i]
            <= '\u{9f}') {
        assert forall|i: int| 0 <= i < command.len() implies !control(
            #[trigger] command[i],
        ) by {}
    }
    if one_line(command) {
        assert forall|i: int| 0 <= i < command.len() implies !(#[trigger] command[i] <= '\u{1f}')
            && !('\u{7f}' <= command[i] <= '\u{9f}') by {
            assert(!control(command[i]));
        }
    }
}

/// A command is permitted where the list holds it, or holds its verb; nothing is permitted by an
/// empty list, and a longer list forbids nothing that a shorter one permits.
pub proof fn lists_permit_commands_and_verbs(
    command: Seq<char>,
    allowed: Seq<Seq<char>>,
    more: Seq<Seq<char>>,
)
    ensures
        permitted(command, allowed) <==> allowed.contains(command) || allowed.contains(
            first_ascii_word(command),
        ),
        !permitted(command, Seq::empty()),
        permitted(command, allowed) ==> permitted(command, allowed + more) && permitted(
            command,
            more + allowed,
        ),
{
    if permitted(command, allowed) {
        let i = choose|i: int|
            0 <= i < allowed.len() && (command == #[trigger] allowed[i] || first_ascii_word(command)
                == allowed[i]);
        assert((allowed + more)[i] == allowed[i]);
        assert((more + allowed)[i + more.len()] == allowed[i]);
    }
    if allowed.contains(command) {
        let i = choose|i: int| 0 <= i < allowed.len() && allowed[i] == command;
        assert(command == allowed[i]);
    }
    if allowed.contains(first_ascii_word(command)) {
        let i = choose|i: int| 0 <= i < allowed.len() && allowed[i] == first_ascii_word(command);
        assert(first_ascii_word(command) == allowed[i]);
    }
}

/// A verb that is permitted is permitted with any arguments; a command whose verb and whole text
/// are not on the list is not.
pub proof fn permitted_verbs_take_arguments(
    verb: Seq<char>,
    w: char,
    arguments: Seq<char>,
    allowed: Seq<Seq<char>>,
)
    requires
        verb.len() > 0,
        forall|i: int| 0 <= i < verb.len() ==> !ascii_white(#[trigger] verb[i]),
        ascii_white(w),
    ensures
        allowed.contains(verb) ==> permitted(verb + seq![w] + arguments, allowed),
        !allowed.contains(verb) && !allowed.contains(verb + seq![w] + arguments) ==> !permitted(
            verb + seq![w] + arguments,
            allowed,
        ),
{
    let none = Seq::<char>::empty();
    verbs_end_at_whitespace(none, verb, w, arguments);
    assert(none + (verb + seq![w] + arguments) == verb + seq![w] + arguments);
    lists_permit_commands_and_verbs(verb + seq![w] + arguments, allowed, Seq::empty());
}

/// The commands that are permitted unless a profile says otherwise.
pub proof fn permitted_by_default(command: Seq<char>)
    ensures
        uboot_commands().contains(command) <==> command == "bdinfo"@ || command == "env print"@
            || command == "help"@ || command == "printenv"@ || command == "version"@,
        linux_commands().contains(command) <==> command == "cat"@ || command == "dmesg"@ || command
            == "free"@ || command == "id"@ || command == "ls"@ || command == "ps"@ || command
            == "uname"@ || command == "uptime"@ || command == "whoami"@,
{
    let u = uboot_commands();
    assert(u.len() == 5);
    assert(u[0] == "bdinfo"@ && u[1] == "env print"@ && u[2] == "help"@ && u[3] == "printenv"@
        && u[4] == "version"@);
    let l = linux_commands();
    assert(l.len() == 9);
    assert(l[0] == "cat"@ && l[1] == "dmesg"@ && l[2] == "free"@ && l[3] == "id"@ && l[4] == "ls"@
        && l[5] == "ps"@ && l[6] == "uname"@ && l[7] == "uptime"@ && l[8] == "whoami"@);
}

/// A character that may stand in the id of a board.
pub open spec fn id_character(c: char) -> bool {
    'a' <= c <= 'z' || 'A' <= c <= 'Z' || '0' <= c <= '9' || c == '-' || c == '_'
}

/// A profile is without a problem exactly where its id is made of letters, digits, hyphens and
/// underscores, and everything that has to be there is there and in range.
pub proof fn profiles_are_complete(profile: BoardProfile)
    ensures
        profile.problem() is None <==> {
            &&& profile.board_id@.len() > 0
            &&& forall|i: int|
                0 <= i < profile.board_id@.len() ==> id_character(#[trigger] profile.board_id@[i])
            &&& profile.serial.device@.len() > 0
            &&& profile.serial.baud_rate > 0
            &&& profile.serial.data_bits == 5 || profile.serial.data_bits == 6
                || profile.serial.data_bits == 7 || profile.serial.data_bits == 8
            &&& profile.serial.stop_bits == 1 || profile.serial.stop_bits == 2
            &&& profile.power.backend@.len() > 0
            &&& profile.power.identity@.len() > 0
            &&& profile.timing.operation_timeout_ms > 0
            &&& profile.timing.power_cycle_off_ms > 0
            &&& profile.patterns.uboot_prompt@.len() > 0
            &&& profile.patterns.linux_login@.len() > 0
            &&& profile.patterns.linux_shell@.len() > 0
        },
{
    let id = profile.board_id@;
    if valid_id(id) {
        assert forall|i: int| 0 <= i < id.len() implies id_character(#[trigger] id[i]) by {
            assert(alphanumeric(id[i]) || id[i] == '-' || id[i] == '_');
        }
    }
    if id.len() > 0 && forall|i: int| 0 <= i < id.len() ==> id_character(#[trigger] id[i]) {
        assert forall|i: int| 0 <= i < id.len() implies alphanumeric(#[trigger] id[i])
            || id[i] == '-' || id[i] == '_' by {
            assert(id_character(id[i]));
        }
    }
}

proof fn backends_are_known(boards: Seq<BoardProfile>, n: int)
    requires
        0 <= n <= boards.len(),
    ensures
        backend_problem(boards, n) is None <==> forall|i: int|
            0 <= i < n ==> (#[trigger] boards[i]).power.backend@ == "matter"@,
    decreases n,
{
    if n > 0 {
        backends_are_known(boards, n - 1);
        if backend_problem(boards, n) is None {
            assert forall|i: int| 0 <= i < n implies (#[trigger] boards[i]).power.backend@
                == "matter"@ by {
                if i == n - 1 {
                    assert(boards[n - 1].power.backend@ == "matter"@);
                }
            }
        } else {
            if boards[n - 1].power.backend@ != "matter"@ {
                assert(!(forall|i: int|
                    0 <= i < n ==> (#[trigger] boards[i]).power.backend@ == "matter"@));
            } else {
                let k = choose|i: int|
                    0 <= i < n - 1 && (#[trigger] boards[i]).power.backend@ != "matter"@;
                assert(boards[k].power.backend@ != "matter"@);
            }
        }
    }
}

/// The program starts exactly with a valid configuration all of whose boards have the power
/// backend that can be driven: boards that are each complete and share neither id nor device nor
/// power controller, at least one of them, and room for their output.
pub proof fn only_drivable_configurations_start(config: Config)
    ensures
        config.startup_problem() is None <==> {
            &&& config.boards@.len() > 0
            &&& config.serial_ring_bytes > 0
            &&& forall|i: int|
                0 <= i < config.boards@.len() ==> (#[trigger] config.boards@[i]).problem() is None
                    && config.boards@[i].power.backend@ == "matter"@
            &&& forall|i: int, k: int|
                #![trigger config.boards@[i], config.boards@[k]]
                0 <= i < k < config.boards@.len() ==> config.boards@[i].board_id@
                    != config.boards@[k].board_id@ && config.boards@[i].serial.device@
                    != config.boards@[k].serial.device@ && (config.boards@[i].power.backend@
                    != config.boards@[k].power.backend@ || config.boards@[i].power.identity@
                    != config.boards@[k].power.identity@)
        },
{
    validation_is_exact(config);
    backends_are_known(config.boards@, config.boards@.len() as int);
}

/// A lease that nobody holds is granted to whoever asks. One that is held is not: the asker waits
/// while there is time, and is then told who holds it.
pub proof fn free_leases_are_granted(
    before: Option<OwnerView>,
    owner: OwnerView,
    remaining: int,
    result: Result<LeaseOutcome, Error>,
    after: Option<OwnerView>,
)
    requires
        acquired(before, owner, remaining, result, after),
    ensures
        before is None ==> (result matches Ok(outcome) && outcome matches LeaseOutcome::Granted(
            guard,
        ) && guard@ == owner) && after == Some(owner),
        before is Some ==> after == before,
        before is Some && remaining != 0 ==> (result matches Ok(outcome) && outcome is Wait),
        before is Some && remaining == 0 ==> (result matches Err(error) && error@.code
            == ErrorCode::BoardBusy && error@.message == "board lease is held by operation "@
            + before->0.operation_id),
{
}

/// An execution that asks for a lease gets it exactly where its board is there and nobody holds
/// the lease. Where somebody does, it is refused once its time is up, and told who.
pub proof fn executions_get_free_leases(
    execution: ExecutionView,
    boards: Map<Seq<char>, Board>,
    now_ms: int,
    deadline_ms: int,
)
    requires
        execution.standing == (StandingView::Queued { deadline_ms }),
    ensures
        ({
            let id = execution.operation.board_id;
            let next = execution.asked(boards, now_ms);
            &&& next.standing is Held <==> boards.dom().contains(id) && boards[id].lease@ is None
            &&& !boards.dom().contains(id) ==> (next.standing matches StandingView::Refused {
                error,
            } && error.code == ErrorCode::BoardNotFound)
            &&& boards.dom().contains(id) && boards[id].lease@ is Some && now_ms >= deadline_ms
                ==> (next.standing matches StandingView::Refused { error } && error.code
                == ErrorCode::BoardBusy)
            &&& boards.dom().contains(id) && boards[id].lease@ is Some && now_ms < deadline_ms
                ==> next == execution
        }),
{
}

/// What is to be done next for an execution is to ask for the lease, until the deadline, while it
/// has none; what the operation asks for under the lease; and to take the result where it was
/// refused. It is over where it was refused or its operation is.
pub proof fn executions_ask_first(execution: ExecutionView, deadline_ms: int)
    ensures
        execution.standing == (StandingView::Queued { deadline_ms }) ==> execution.action() == (
        ActionView::Lease { deadline_ms }) && !execution.over(),
        execution.standing is Held ==> execution.action() == execution.operation.action() && (
        execution.over() <==> execution.operation.activity is Ended),
        execution.standing is Refused ==> execution.action() is Finish && execution.over(),
{
}

/// Each refusal has the code that callers know it by, and says what was refused.
pub proof fn refusals_have_their_codes(
    command: Seq<char>,
    board_id: Seq<char>,
    message: Seq<char>,
    phase: Seq<char>,
)
    ensures
        not_one_line().code == ErrorCode::CommandDenied,
        not_permitted(command).code == ErrorCode::CommandDenied,
        within(not_permitted(command).message, quoted(first_ascii_word(command))),
        unconfirmed(message).code == ErrorCode::ConfirmationRequired,
        unconfirmed(message).message == message,
        board_not_found(board_id).code == ErrorCode::BoardNotFound,
        within(board_not_found(board_id).message, quoted(board_id)),
        console_taken(board_id).code == ErrorCode::BoardBusy,
        within(console_taken(board_id).message, quoted(board_id)),
        invalid_configuration(message).code == ErrorCode::InvalidConfiguration,
        invalid_configuration(message).message == message,
        already_on(phase, message).code == ErrorCode::PowerStateUnverified,
        already_on(phase, message).phase == phase,
        not_open().code == ErrorCode::SerialOpenFailed,
        nonzero_exit().code == ErrorCode::CommandExitNonzero,
        marker_missing().code == ErrorCode::CommandTimeout,
        not_observed(true).code == ErrorCode::StateTimeout,
        not_observed(false).code == ErrorCode::StateTimeout,
        identity_mismatch().code == ErrorCode::PowerIdentityMismatch,
{
    surroundings_hide_nothing(
        "command verb "@,
        quoted(first_ascii_word(command)),
        " is not allowed by the board profile"@,
    );
    surroundings_hide_nothing("board "@, quoted(board_id), " is not configured"@);
    surroundings_hide_nothing(
        "board "@,
        quoted(board_id),
        " already has an interactive console"@,
    );
}

/// The line of an error names its code, its phase and its message, in this order.
pub proof fn errors_are_told_in_one_line(error: ErrorView)
    ensures
        ({
            let name = error.code.name();
            let said = error.line();
            &&& said.subrange(0, name.len() as int) == name
            &&& said.subrange(said.len() - error.message.len(), said.len() as int) == error.message
            &&& said == name + " during "@ + error.phase + ": "@ + error.message
        }),
{
    let name = error.code.name();
    let said = error.line();
    assert(said.subrange(0, name.len() as int) == name);
    assert(said.subrange(said.len() - error.message.len(), said.len() as int) == error.message);
}

/// How many of the devices are not there.
pub open spec fn absent(present: Seq<bool>) -> nat
    decreases present.len(),
{
    if present.len() == 0 {
        0
    } else {
        absent(present.drop_last()) + if present.last() {
            0nat
        } else {
            1
        }
    }
}

proof fn missing_is_absent(present: Seq<bool>, n: int)
    requires
        0 <= n <= present.len(),
    ensures
        missing(present, n) == absent(present.take(n)),
    decreases n,
{
    if n > 0 {
        missing_is_absent(present, n - 1);
        assert(present.take(n).drop_last() == present.take(n - 1));
        assert(present.take(n).last() == present[n - 1]);
    } else {
        assert(present.take(0) == Seq::<bool>::empty());
    }
}

proof fn two_lines_each(boards: Seq<&Board>, present: Seq<bool>, n: int, i: int)
    requires
        0 <= i < n <= boards.len(),
    ensures
        all_board_lines(boards, present, n).len() == 2 * n,
        all_board_lines(boards, present, n)[2 * i] == board_lines(*boards[i], present[i])[0],
        all_board_lines(boards, present, n)[2 * i + 1] == board_lines(*boards[i], present[i])[1],
    decreases n,
{
    if n == 1 {
        assert(all_board_lines(boards, present, 0).len() == 0);
    } else if i < n - 1 {
        two_lines_each(boards, present, n - 1, i);
    } else {
        two_lines_each(boards, present, n - 1, 0);
    }
}

/// The report has two lines for each board between two before and two after: whether its device
/// is there, and its power identity. It ends by saying that all is well where every device is
/// there, and with how many warnings where not.
pub proof fn reports_tell_of_every_board(
    path: Seq<char>,
    boards: Seq<&Board>,
    present: Seq<bool>,
    i: int,
)
    requires
        boards.len() == present.len(),
        0 <= i < boards.len(),
    ensures
        ({
            let lines = report_lines(path, boards, present);
            let profile = boards[i].profile;
            let id = profile.board_id@;
            let device = profile.serial.device@;
            &&& lines.len() == 2 * boards.len() + 4
            &&& lines[0] == "ok  configuration: "@ + path
            &&& lines[2 + 2 * i] == if present[i] {
                "ok  "@ + id + " serial device: "@ + device
            } else {
                "warn "@ + id + " serial device is missing: "@ + device
            }
            &&& lines[3 + 2 * i] == "ok  "@ + id + " power identity configured: "@
                + profile.power.backend@ + "/"@ + profile.power.identity@
            &&& absent(present) == 0 ==> lines.last() == "doctor result: healthy"@
            &&& absent(present) > 0 ==> lines.last() == "doctor result: healthy with "@
                + decimal(absent(present)) + " warning(s)"@
        }),
{
    let n = boards.len() as int;
    two_lines_each(boards, present, n, i);
    missing_is_absent(present, n);
    assert(present.take(n) == present);
    let all = all_board_lines(boards, present, n);
    let lines = report_lines(path, boards, present);
    assert(lines[2 + 2 * i] == all[2 * i]);
    assert(lines[3 + 2 * i] == all[2 * i + 1]);
}

} // verus!
