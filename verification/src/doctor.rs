//! The report on whether a configuration is ready for use.

use vstd::prelude::*;

use crate::registry::Board;
use crate::text::{decimal, number, texts};

verus! {

/// What the report says of a board whose serial device is there or is missing.
pub open spec fn board_lines(board: Board, present: bool) -> Seq<Seq<char>> {
    let id = board.profile.board_id@;
    let device = board.profile.serial.device@;
    let power = board.profile.power;
    seq![
        if present {
            "ok  "@ + id + " serial device: "@ + device
        } else {
            "warn "@ + id + " serial device is missing: "@ + device
        },
        "ok  "@ + id + " power identity configured: "@ + power.backend@ + "/"@ + power.identity@,
    ]
}

/// What the report says of the first `n` boards.
pub open spec fn all_board_lines(boards: Seq<&Board>, present: Seq<bool>, n: int) -> Seq<Seq<char>>
    decreases n,
{
    if n <= 0 {
        Seq::empty()
    } else {
        all_board_lines(boards, present, n - 1) + board_lines(*boards[n - 1], present[n - 1])
    }
}

/// How many of the first `n` serial devices are missing.
pub open spec fn missing(present: Seq<bool>, n: int) -> nat
    decreases n,
{
    if n <= 0 {
        0
    } else if present[n - 1] {
        missing(present, n - 1)
    } else {
        missing(present, n - 1) + 1
    }
}

/// The last line of the report.
pub open spec fn verdict_line(warnings: nat) -> Seq<char> {
    if warnings == 0 {
        "doctor result: healthy"@
    } else {
        "doctor result: healthy with "@ + decimal(warnings) + " warning(s)"@
    }
}

/// The report on the configuration at `path`.
pub open spec fn report_lines(path: Seq<char>, boards: Seq<&Board>, present: Seq<bool>) -> Seq<
    Seq<char>,
> {
    let n = boards.len() as int;
    seq!["ok  configuration: "@ + path, "ok  board profiles: "@ + decimal(boards.len())]
        + all_board_lines(boards, present, n) + seq![
        "ok  MCP transport: stdio"@,
        verdict_line(missing(present, n)),
    ]
}

fn add_line(lines: &mut Vec<String>, line: String)
    ensures
        texts(final(lines)@) == texts(old(lines)@).push(line@),
{
    let ghost before = lines@;
    lines.push(line);
    assert(texts(lines@) == texts(before).push(line@));
}

fn add_board(lines: &mut Vec<String>, board: &Board, present: bool)
    ensures
        texts(final(lines)@) == texts(old(lines)@) + board_lines(*board, present),
{
    let ghost before = texts(lines@);
    let id = board.profile.board_id.as_str();
    let mut first = if present {
        "ok  ".to_owned()
    } else {
        "warn ".to_owned()
    };
    first.append(id);
    first.append(
        if present {
            " serial device: "
        } else {
            " serial device is missing: "
        },
    );
    first.append(board.profile.serial.device.as_str());
    let mut second = "ok  ".to_owned();
    second.append(id);
    second.append(" power identity configured: ");
    second.append(board.profile.power.backend.as_str());
    second.append("/");
    second.append(board.profile.power.identity.as_str());
    add_line(lines, first);
    add_line(lines, second);
    assert(texts(lines@) == before + board_lines(*board, present));
}

/// Reports on the configuration at `path`, where `present` says of each board whether its serial
/// device is there. A missing device is a warning.
pub fn doctor(path: &str, boards: &Vec<&Board>, present: &[bool]) -> (lines: Vec<String>)
    requires
        present@.len() == boards@.len(),
    ensures
        texts(lines@) == report_lines(path@, boards@, present@),
{
    let mut lines: Vec<String> = Vec::new();
    assert(texts(lines@) == Seq::<Seq<char>>::empty());
    let mut first = "ok  configuration: ".to_owned();
    first.append(path);
    add_line(&mut lines, first);
    let mut second = "ok  board profiles: ".to_owned();
    second.append(number(boards.len()).as_str());
    add_line(&mut lines, second);
    let ghost head = texts(lines@);
    let mut warnings: usize = 0;
    let mut i: usize = 0;
    assert(head + all_board_lines(boards@, present@, 0) == head);
    while i < boards.len()
        invariant
            i <= boards@.len(),
            present@.len() == boards@.len(),
            warnings <= i,
            warnings == missing(present@, i as int),
            texts(lines@) == head + all_board_lines(boards@, present@, i as int),
        decreases boards@.len() - i,
    {
        add_board(&mut lines, boards[i], present[i]);
        if !present[i] {
            warnings += 1;
        }
        i += 1;
        assert(texts(lines@) == head + all_board_lines(boards@, present@, i as int));
    }
    add_line(&mut lines, "ok  MCP transport: stdio".to_owned());
    if warnings == 0 {
        add_line(&mut lines, "doctor result: healthy".to_owned());
    } else {
        let mut last = "doctor result: healthy with ".to_owned();
        last.append(number(warnings).as_str());
        last.append(" warning(s)");
        add_line(&mut lines, last);
    }
    assert(texts(lines@) == report_lines(path@, boards@, present@));
    lines
}

} // verus!
