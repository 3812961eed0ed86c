//! Which commands may be put on a console.

use vstd::prelude::*;

use crate::error::{fault, Error, ErrorCode, ErrorView};
use crate::text::{control, debug_quoted, first_ascii_word, first_word, is_control, quoted, texts};

verus! {

/// A command that is one line: it is not empty and has no control character.
pub open spec fn one_line(command: Seq<char>) -> bool {
    command.len() > 0 && forall|i: int| 0 <= i < command.len() ==> !control(#[trigger] command[i])
}

/// The refusal of a command that is not one line.
pub open spec fn not_one_line() -> ErrorView {
    fault(
        ErrorCode::CommandDenied,
        "policy"@,
        "command must be one nonempty line without control characters"@,
    )
}

/// A command on the list, or whose first word is on the list.
pub open spec fn permitted(command: Seq<char>, allowed: Seq<Seq<char>>) -> bool {
    exists|i: int|
        0 <= i < allowed.len() && (command == #[trigger] allowed[i] || first_ascii_word(command)
            == allowed[i])
}

/// The refusal of a command that no rule permits.
pub open spec fn not_permitted(command: Seq<char>) -> ErrorView {
    fault(
        ErrorCode::CommandDenied,
        "policy"@,
        "command verb "@ + quoted(first_ascii_word(command))
            + " is not allowed by the board profile"@,
    )
}

/// Accepts exactly the commands that are one line.
pub fn validate_one_line(command: &str) -> (result: Result<(), Error>)
    ensures
        result is Ok <==> one_line(command@),
        result matches Err(error) ==> error@ == not_one_line(),
{
    let mut fine = !command.is_empty();
    for c in it: command.chars()
        invariant
            it.seq() == command@,
            fine <==> command@.len() > 0 && forall|i: int|
                0 <= i < it.index() ==> !control(#[trigger] command@[i]),
    {
        if is_control(c) {
            fine = false;
        }
    }
    if fine {
        Ok(())
    } else {
        Err(
            Error::new(
                ErrorCode::CommandDenied,
                "policy",
                "command must be one nonempty line without control characters".to_owned(),
            ),
        )
    }
}

/// Accepts exactly the commands that are one line and that the list permits.
pub fn authorize(command: &str, allowed: &[String]) -> (result: Result<(), Error>)
    ensures
        result is Ok <==> one_line(command@) && permitted(command@, texts(allowed@)),
        result matches Err(error) ==> error@ == if one_line(command@) {
            not_permitted(command@)
        } else {
            not_one_line()
        },
{
    match validate_one_line(command) {
        Ok(()) => {},
        Err(error) => {
            return Err(error);
        },
    }
    let verb = first_word(command);
    let whole = command.to_owned();
    let mut i: usize = 0;
    while i < allowed.len()
        invariant
            i <= allowed@.len(),
            one_line(command@),
            verb@ == first_ascii_word(command@),
            whole@ == command@,
            forall|k: int|
                0 <= k < i ==> command@ != (#[trigger] allowed@[k])@ && verb@ != allowed@[k]@,
        decreases allowed@.len() - i,
    {
        if whole == allowed[i] || verb == allowed[i] {
            assert(texts(allowed@)[i as int] == allowed@[i as int]@);
            return Ok(());
        }
        i += 1;
    }
    assert forall|k: int| 0 <= k < texts(allowed@).len() implies command@ != #[trigger] texts(
        allowed@,
    )[k] && verb@ != texts(allowed@)[k] by {
        assert(texts(allowed@)[k] == allowed@[k]@);
    }
    let mut message = "command verb ".to_owned();
    message.append(debug_quoted(verb.as_str()).as_str());
    message.append(" is not allowed by the board profile");
    Err(Error::new(ErrorCode::CommandDenied, "policy", message))
}

} // verus!
