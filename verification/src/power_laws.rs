//! What a power controller's words must hold for its state, and what a dialogue with it comes to.

use vstd::prelude::*;

use crate::config::PowerProfile;
use crate::error::ErrorCode;
use crate::power::{
    excerpt, field, identity_of, numeric, reading, task_for, value_in, CommandView, IdentityView,
    PowerGoal, ReplyView, StageView, TaskView,
};
use crate::text::{before_first, digit, lowered, replaced, split, white};
use crate::text_laws::{
    blank, containing_is_being_around, first_place_is_the_first, lowering_moves_capitals_only,
    replacing_changes_one_character, splitting_goes_by_separators,
    trimming_takes_whitespace_around, within,
};

verus! {

/// Power is on where the report says so anywhere, else off where the report says so anywhere,
/// else unknown.
pub proof fn reports_count_wherever_they_stand(raw: Seq<char>)
    ensures
        within(raw, "OnOff: TRUE"@) ==> reading(raw) == "on"@,
        !within(raw, "OnOff: TRUE"@) && within(raw, "OnOff: FALSE"@) ==> reading(raw) == "off"@,
        !within(raw, "OnOff: TRUE"@) && !within(raw, "OnOff: FALSE"@) ==> reading(raw)
            == "unknown"@,
{
    containing_is_being_around(raw, "OnOff: TRUE"@);
    containing_is_being_around(raw, "OnOff: FALSE"@);
}

/// Text before or after a report never changes the reading: a report of power that is on is read
/// whatever stands around it, and one of power that is off unless one of the other kind stands
/// there too.
pub proof fn surroundings_leave_the_reading(before: Seq<char>, after: Seq<char>)
    ensures
        reading(before + "OnOff: TRUE"@ + after) == "on"@,
        !within(before + "OnOff: FALSE"@ + after, "OnOff: TRUE"@) ==> reading(
            before + "OnOff: FALSE"@ + after,
        ) == "off"@,
{
    reports_count_wherever_they_stand(before + "OnOff: TRUE"@ + after);
    reports_count_wherever_they_stand(before + "OnOff: FALSE"@ + after);
}

/// What is kept of a report is its beginning: all of it up to 4096 characters.
pub proof fn excerpts_are_beginnings(raw: Seq<char>)
    ensures
        raw.len() <= 4096 ==> excerpt(raw) == raw,
        raw.len() > 4096 ==> excerpt(raw).len() == 4096,
        forall|i: int| 0 <= i < excerpt(raw).len() ==> #[trigger] excerpt(raw)[i] == raw[i],
{
}

/// The state that a report of a controller shows, by what stands in it.
pub open spec fn reported_state(raw: Seq<char>) -> Seq<char> {
    if within(raw, "OnOff: TRUE"@) {
        "on"@
    } else if within(raw, "OnOff: FALSE"@) {
        "off"@
    } else {
        "unknown"@
    }
}

proof fn reported_is_read(raw: Seq<char>)
    ensures
        reading(raw) == reported_state(raw),
{
    reports_count_wherever_they_stand(raw);
}

/// A query of a controller without a MAC address ends with what the controller reported, on
/// either stream.
pub proof fn queries_tell_what_was_reported(task: TaskView, stdout: Seq<char>, stderr: Seq<char>)
    requires
        task.goal == PowerGoal::Query,
        task.stage is Read,
        task.identity.mac is None,
    ensures
        task.next(ReplyView::Ran { success: true, stdout, stderr }).stage matches StageView::Ended {
            result,
        } && result matches Ok(observation) && observation.state == reported_state(
            stdout + stderr,
        ) && observation.identity_verified && observation.raw == excerpt(stdout + stderr),
{
    reported_is_read(stdout + stderr);
}

/// A query of a controller with a MAC address ends with what the controller reported, verified
/// exactly where the host lists that address, in either case of letters.
pub proof fn queries_tell_whether_the_address_is_listed(
    task: TaskView,
    mac: Seq<char>,
    stdout: Seq<char>,
    stderr: Seq<char>,
    listing: ReplyView,
)
    requires
        task.goal == PowerGoal::Query,
        task.stage is Read,
        task.identity.mac == Some(mac),
    ensures
        ({
            let asked = task.next(ReplyView::Ran { success: true, stdout, stderr });
            &&& asked.command() == Some(
                CommandView { program: "ip"@, arguments: seq!["neigh"@] },
            )
            &&& asked.next(listing).stage matches StageView::Ended { result }
                && result matches Ok(observation) && observation.state == reported_state(
                stdout + stderr,
            ) && observation.raw == excerpt(stdout + stderr) && (observation.identity_verified
                <==> (listing matches ReplyView::Ran { success, stdout: neighbors, stderr: noise }
                && within(lowered(neighbors), mac)))
        }),
{
    reported_is_read(stdout + stderr);
    match listing {
        ReplyView::Ran { success, stdout: neighbors, stderr: noise } => {
            containing_is_being_around(lowered(neighbors), mac);
        },
        ReplyView::NotRun { reason } => {},
    }
}

/// A controller that cannot be asked, or whose tool fails, ends the dialogue with the error of
/// the backend and the words of the tool.
pub proof fn failing_tools_end_the_dialogue(task: TaskView, reply: ReplyView)
    requires
        task.stage is Read || task.stage is Switch,
        reply matches ReplyView::Ran { success, stdout, stderr } ==> !success,
    ensures
        task.next(reply).stage matches StageView::Ended { result } && result matches Err(error)
            && error.code == ErrorCode::PowerBackendFailed && error.message == match reply {
            ReplyView::Ran { success, stdout, stderr } => stdout + stderr,
            ReplyView::NotRun { reason } => reason,
        } && error.phase == if task.stage is Read {
            "power_query"@
        } else {
            "power_change"@
        },
{
}

/// A switch whose controller is verified, whose command reports success and whose state is then
/// read as asked for succeeds, and ends with that state.
pub proof fn confirmed_switches_succeed(
    task: TaskView,
    on: bool,
    before: Seq<char>,
    change: Seq<char>,
    after: Seq<char>,
)
    requires
        task.goal == (PowerGoal::Switch { on }),
        task.stage == (StageView::Read { after: false }),
        task.identity.mac is None,
        within(change, "SUCCESS"@),
        reported_state(after) == if on {
            "on"@
        } else {
            "off"@
        },
    ensures
        ({
            let none = Seq::<char>::empty();
            let read = task.next(
                ReplyView::Ran { success: true, stdout: before, stderr: none },
            );
            let changed = read.next(
                ReplyView::Ran { success: true, stdout: change, stderr: none },
            );
            let done = changed.next(
                ReplyView::Ran { success: true, stdout: after, stderr: none },
            );
            &&& read.command() == Some(
                CommandView {
                    program: "chip-tool"@,
                    arguments: seq![
                        "onoff"@,
                        if on {
                            "on"@
                        } else {
                            "off"@
                        },
                        task.identity.node,
                        task.identity.endpoint,
                    ],
                },
            )
            &&& done.stage matches StageView::Ended { result } && result matches Ok(observation)
                && observation.state == reported_state(after)
        }),
{
    let none = Seq::<char>::empty();
    assert(before + none == before);
    assert(change + none == change);
    assert(after + none == after);
    reported_is_read(after);
    containing_is_being_around(change, "SUCCESS"@);
    reveal_strlit("on");
    reveal_strlit("off");
}

/// A switch is asked for only of a tool that reports success: another reply ends the dialogue
/// with the error of the backend.
pub proof fn unconfirmed_switches_fail(task: TaskView, stdout: Seq<char>, stderr: Seq<char>)
    requires
        task.stage is Switch,
        !within(stdout + stderr, "SUCCESS"@),
    ensures
        task.next(ReplyView::Ran { success: true, stdout, stderr }).stage matches StageView::Ended {
            result,
        } && result matches Err(error) && error.code == ErrorCode::PowerBackendFailed
            && error.message == stdout + stderr,
{
    containing_is_being_around(stdout + stderr, "SUCCESS"@);
}

/// A switch after which the controller reports another state than the one asked for fails, and
/// the error says both.
pub proof fn contradicted_switches_fail(task: TaskView, on: bool, raw: Seq<char>)
    requires
        task.goal == (PowerGoal::Switch { on }),
        task.stage == (StageView::Read { after: true }),
        task.identity.mac is None,
        reported_state(raw) != if on {
            "on"@
        } else {
            "off"@
        },
    ensures
        task.next(ReplyView::Ran { success: true, stdout: raw, stderr: Seq::empty() }).stage
            matches StageView::Ended { result } && result matches Err(error) && error.code
            == ErrorCode::PowerStateUnverified && error.message == "expected "@ + (if on {
            "on"@
        } else {
            "off"@
        }) + ", observed "@ + reported_state(raw),
{
    assert(raw + Seq::<char>::empty() == raw);
    reported_is_read(raw);
}

/// The state is read by naming the node and the endpoint to the tool.
pub proof fn states_are_read_of_the_node(task: TaskView)
    requires
        task.stage is Read,
    ensures
        task.command() == Some(
            CommandView {
                program: "chip-tool"@,
                arguments: seq![
                    "onoff"@,
                    "read"@,
                    "on-off"@,
                    task.identity.node,
                    task.identity.endpoint,
                ],
            },
        ),
{
}

/// A text of decimal digits.
pub open spec fn digits(s: Seq<char>) -> bool {
    forall|i: int| 0 <= i < s.len() ==> '0' <= #[trigger] s[i] <= '9'
}

/// A text without `c` that neither begins nor ends with whitespace.
pub open spec fn bare(s: Seq<char>, c: char) -> bool {
    &&& forall|i: int| 0 <= i < s.len() ==> #[trigger] s[i] != c
    &&& s.len() > 0 ==> !white(s.first()) && !white(s.last())
}

/// A part gives its value to its key and to no other, whatever whitespace stands around the two.
pub proof fn parts_give_their_value(
    a: Seq<char>,
    key: Seq<char>,
    b: Seq<char>,
    c: Seq<char>,
    value: Seq<char>,
    d: Seq<char>,
    asked: Seq<char>,
)
    requires
        blank(a),
        blank(b),
        blank(c),
        blank(d),
        bare(key, '='),
        value.len() > 0 ==> !white(value.first()) && !white(
            value.last(),
        ),
    ensures
        value_in(a + key + b + seq!['='] + (c + value + d), asked) == if asked == key {
            Some(value)
        } else {
            None
        },
{
    let left = a + key + b;
    let right = c + value + d;
    let part = left + seq!['='] + right;
    assert forall|i: int| 0 <= i < left.len() implies #[trigger] left[i] != '=' by {
        if i < a.len() {
            assert(left[i] == a[i]);
        } else if i < a.len() + key.len() {
            assert(left[i] == key[i - a.len()]);
        } else {
            assert(left[i] == b[i - a.len() - key.len()]);
        }
    }
    let at = before_first(part, '=');
    first_place_is_the_first(part, '=');
    assert(part[left.len() as int] == '=');
    if at < left.len() {
        assert(part[at] == left[at]);
    }
    assert(at == left.len());
    assert(part.take(at) == left);
    assert(part.skip(at + 1) == right);
    trimming_takes_whitespace_around(a, key, b);
    trimming_takes_whitespace_around(c, value, d);
}

/// A part that is added overrides what went before for its key, and leaves every other key.
pub proof fn added_parts_override(text: Seq<char>, part: Seq<char>, key: Seq<char>)
    requires
        forall|i: int| 0 <= i < part.len() ==> #[trigger] part[i] != ';',
    ensures
        field(split(text + seq![';'] + part, ';'), key) == match value_in(part, key) {
            Some(value) => Some(value),
            None => field(split(text, ';'), key),
        },
        field(split(part, ';'), key) == value_in(part, key),
{
    splitting_goes_by_separators(text, ';', part);
    splitting_goes_by_separators(part, ';', part);
    let before = split(text, ';');
    assert((before + seq![part]).drop_last() == before);
    assert((before + seq![part]).last() == part);
    assert(seq![part].drop_last() == Seq::<Seq<char>>::empty());
    assert(seq![part].last() == part);
    assert(field(Seq::<Seq<char>>::empty(), key) is None);
}

/// A MAC address as it is compared: as written, with colons for hyphens and in lower case.
pub open spec fn compared_as(mac: Seq<char>, kept: Seq<char>) -> bool {
    kept.len() == mac.len() && forall|i: int|
        0 <= i < mac.len() ==> if mac[i] == '-' {
            #[trigger] kept[i] == ':'
        } else if 65 <= mac[i] as u32 <= 90 {
            kept[i] as u32 == mac[i] as u32 + 32
        } else {
            kept[i] == mac[i]
        }
}

proof fn macs_are_compared(mac: Seq<char>)
    ensures
        compared_as(mac, lowered(replaced(mac, '-', ':'))),
{
    let middle = replaced(mac, '-', ':');
    let kept = lowered(middle);
    assert forall|i: int| 0 <= i < mac.len() implies (if mac[i] == '-' {
        #[trigger] kept[i] == ':'
    } else if 65 <= mac[i] as u32 <= 90 {
        kept[i] as u32 == mac[i] as u32 + 32
    } else {
        kept[i] == mac[i]
    }) by {
        replacing_changes_one_character(mac, '-', ':', i);
        lowering_moves_capitals_only(middle, i);
    }
}

proof fn keys(node: Seq<char>, endpoint: Seq<char>)
    requires
        digits(node),
        digits(endpoint),
    ensures
        ({
            let first = "node="@ + node;
            let second = "endpoint="@ + endpoint;
            &&& forall|i: int| 0 <= i < first.len() ==> #[trigger] first[i] != ';'
            &&& forall|i: int| 0 <= i < second.len() ==> #[trigger] second[i] != ';'
            &&& value_in(first, "node"@) == Some(node)
            &&& value_in(first, "endpoint"@) is None
            &&& value_in(first, "mac"@) is None
            &&& value_in(second, "node"@) is None
            &&& value_in(second, "endpoint"@) == Some(endpoint)
            &&& value_in(second, "mac"@) is None
        }),
{
    reveal_strlit("node=");
    reveal_strlit("endpoint=");
    reveal_strlit("node");
    reveal_strlit("endpoint");
    reveal_strlit("mac");
    let none = Seq::<char>::empty();
    let first = "node="@ + node;
    let second = "endpoint="@ + endpoint;
    assert(first == none + "node"@ + none + seq!['='] + (none + node + none));
    assert(second == none + "endpoint"@ + none + seq!['='] + (none + endpoint + none));
    assert("node"@.len() == 4);
    assert("endpoint"@.len() == 8);
    assert("mac"@.len() == 3);
    assert(bare("node"@, '='));
    assert(bare("endpoint"@, '='));
    parts_give_their_value(none, "node"@, none, none, node, none, "node"@);
    parts_give_their_value(none, "node"@, none, none, node, none, "endpoint"@);
    parts_give_their_value(none, "node"@, none, none, node, none, "mac"@);
    parts_give_their_value(none, "endpoint"@, none, none, endpoint, none, "node"@);
    parts_give_their_value(none, "endpoint"@, none, none, endpoint, none, "endpoint"@);
    parts_give_their_value(none, "endpoint"@, none, none, endpoint, none, "mac"@);
}

/// An identity that is written out is read back: its node, its endpoint, and its MAC address
/// where it has one.
pub proof fn identities_are_read_back(node: Seq<char>, endpoint: Seq<char>, mac: Seq<char>)
    requires
        digits(node),
        digits(endpoint),
        bare(mac, ';'),
    ensures
        identity_of("node="@ + node + seq![';'] + ("endpoint="@ + endpoint)) == Some(
            IdentityView { node, endpoint, mac: None },
        ),
        identity_of(
            "node="@ + node + seq![';'] + ("endpoint="@ + endpoint) + seq![';'] + ("mac="@ + mac),
        ) matches Some(identity) && identity.node == node && identity.endpoint == endpoint
            && (identity.mac matches Some(kept) && compared_as(mac, kept)),
{
    let first = "node="@ + node;
    let second = "endpoint="@ + endpoint;
    let both = first + seq![';'] + second;
    keys(node, endpoint);
    added_parts_override(first, second, "node"@);
    added_parts_override(first, second, "endpoint"@);
    added_parts_override(first, second, "mac"@);
    added_parts_override(first, second, "node"@);
    added_parts_override(Seq::empty(), first, "node"@);
    added_parts_override(Seq::empty(), first, "endpoint"@);
    added_parts_override(Seq::empty(), first, "mac"@);
    assert(numeric(node));
    assert(numeric(endpoint));
    reveal_strlit("mac=");
    reveal_strlit("mac");
    reveal_strlit("node");
    reveal_strlit("endpoint");
    assert("node"@.len() == 4);
    assert("endpoint"@.len() == 8);
    assert("mac"@.len() == 3);
    let none = Seq::<char>::empty();
    let third = "mac="@ + mac;
    assert(third == none + "mac"@ + none + seq!['='] + (none + mac + none));
    assert(bare("mac"@, '='));
    assert forall|i: int| 0 <= i < third.len() implies #[trigger] third[i] != ';' by {
        if i >= 4 {
            assert(third[i] == mac[i - 4]);
        }
    }
    parts_give_their_value(none, "mac"@, none, none, mac, none, "mac"@);
    parts_give_their_value(none, "mac"@, none, none, mac, none, "node"@);
    parts_give_their_value(none, "mac"@, none, none, mac, none, "endpoint"@);
    added_parts_override(both, third, "node"@);
    added_parts_override(both, third, "endpoint"@);
    added_parts_override(both, third, "mac"@);
    macs_are_compared(mac);
}

/// An identity names a numeric node and endpoint, its MAC address is as it is compared, and a
/// text that names no node or no endpoint, or one that is not numeric, is none.
pub proof fn identities_are_numeric(text: Seq<char>)
    ensures
        identity_of(text) matches Some(identity) ==> field(split(text, ';'), "node"@) == Some(
            identity.node,
        ) && field(split(text, ';'), "endpoint"@) == Some(identity.endpoint) && digits(
            identity.node,
        ) && digits(identity.endpoint) && match field(split(text, ';'), "mac"@) {
            Some(mac) => identity.mac matches Some(kept) && compared_as(mac, kept),
            None => identity.mac is None,
        },
        identity_of(text) is None ==> match (
            field(split(text, ';'), "node"@),
            field(split(text, ';'), "endpoint"@),
        ) {
            (Some(node), Some(endpoint)) => !digits(node) || !digits(endpoint),
            _ => true,
        },
{
    match field(split(text, ';'), "mac"@) {
        Some(mac) => {
            macs_are_compared(mac);
        },
        None => {},
    }
    match identity_of(text) {
        Some(identity) => {
            assert forall|i: int| 0 <= i < identity.node.len() implies '0' <= #[trigger]
                identity.node[i] <= '9' by {
                assert(digit(identity.node[i]));
            }
            assert forall|i: int| 0 <= i < identity.endpoint.len() implies '0' <= #[trigger]
                identity.endpoint[i] <= '9' by {
                assert(digit(identity.endpoint[i]));
            }
        },
        None => {
            match (field(split(text, ';'), "node"@), field(split(text, ';'), "endpoint"@)) {
                (Some(node), Some(endpoint)) => {
                    if digits(node) && digits(endpoint) {
                        assert(numeric(node));
                        assert(numeric(endpoint));
                    }
                },
                _ => {},
            }
        },
    }
}

/// A dialogue begins by reading the state of the node that the profile names, for the goal asked
/// for; it begins exactly with the one backend that is known and an identity that can be read.
pub proof fn dialogues_begin_with_the_profile(power: PowerProfile, goal: PowerGoal)
    ensures
        task_for(power, goal) is Ok <==> power.backend@ == "matter"@ && identity_of(
            power.identity@,
        ) is Some,
        task_for(power, goal) matches Ok(task) ==> Some(task.identity) == identity_of(
            power.identity@,
        ) && task.goal == goal && task.stage == (StageView::Read { after: false }),
        power.backend@ != "matter"@ ==> (task_for(power, goal) matches Err(error) && error.code
            == ErrorCode::PowerBackendFailed),
        power.backend@ == "matter"@ && identity_of(power.identity@) is None ==> (task_for(
            power,
            goal,
        ) matches Err(error) && error.code == ErrorCode::InvalidConfiguration),
{
}

} // verus!
