//! The control channel: lines of text by which an operator sets the weight of
//! the first category while the client runs.
//!
//! A line is a decimal number, with or without a `+` before it, and ends with a
//! newline. A line that is no such number, or a number above the total weight,
//! is refused and changes nothing. Reading and accepting connections is left to
//! the caller, who hands each read to `handle_read` and goes on or stops as it
//! says.

use vstd::prelude::*;
use crate::weights::{lemma_set_keeps_total, spec_consistent, spec_set, WeightStore, TOTAL_WEIGHT};

verus! {

/// The byte that ends a line.
pub const NEWLINE: u8 = 10;

/// The sign that may stand before the digits.
pub const PLUS: u8 = 43;

/// The digit 0.
pub const DIGIT_0: u8 = 48;

/// The digit 9.
pub const DIGIT_9: u8 = 57;

/// The position of the category whose weight the control channel sets.
pub const ADMIN_CATEGORY_INDEX: usize = 0;

/// Why a line was refused.
#[derive(Clone, Copy, Debug, PartialEq, Eq, Structural)]
pub enum LineError {
    /// The line is not a number.
    Malformed,
    /// The line is a number above the total weight.
    OutOfRange,
}

/// What a read on a control connection gave.
#[derive(Debug, PartialEq, Eq)]
pub enum AdminEvent {
    /// The bytes up to and with the next newline, or up to the end of the
    /// stream; no bytes at all once the peer has closed the connection.
    Read(Vec<u8>),
    /// The read failed.
    Failed,
}

/// What the handler of a control connection does next.
#[derive(Clone, Copy, Debug, PartialEq, Eq, Structural)]
pub enum AdminAction {
    /// The line gave the first category this weight. The handler reads on.
    Applied(u16),
    /// The line was refused. The handler reads on.
    Rejected(LineError),
    /// The peer is gone or the read failed. The handler ends.
    Stop,
}

/// A line without the newline that ends it.
pub open spec fn spec_content(line: Seq<u8>) -> Seq<u8> {
    if line.len() > 0 && line.last() == NEWLINE {
        line.drop_last()
    } else {
        line
    }
}

/// What is left of a line's content behind a leading `+`.
pub open spec fn spec_digits(content: Seq<u8>) -> Seq<u8> {
    if content.len() > 0 && content.first() == PLUS {
        content.drop_first()
    } else {
        content
    }
}

/// Whether a byte is a decimal digit.
pub open spec fn spec_is_digit(byte: u8) -> bool {
    DIGIT_0 <= byte <= DIGIT_9
}

/// Whether all of the bytes are decimal digits.
pub open spec fn spec_all_digits(bytes: Seq<u8>) -> bool {
    forall|i: int| 0 <= i < bytes.len() ==> spec_is_digit(#[trigger] bytes[i])
}

/// The number that a series of decimal digits stands for.
pub open spec fn spec_value(digits: Seq<u8>) -> nat
    decreases digits.len(),
{
    if digits.len() == 0 {
        0
    } else {
        spec_value(digits.drop_last()) * 10 + (digits.last() - DIGIT_0) as nat
    }
}

/// The weight that a line asks for, or why the line is refused.
pub open spec fn spec_parse_weight(line: Seq<u8>) -> Result<u16, LineError> {
    let digits = spec_digits(spec_content(line));
    if digits.len() == 0 || !spec_all_digits(digits) {
        Err(LineError::Malformed)
    } else if spec_value(digits) > TOTAL_WEIGHT {
        Err(LineError::OutOfRange)
    } else {
        Ok(spec_value(digits) as u16)
    }
}

/// The weights after a line was handled.
pub open spec fn spec_after_line(weights: Seq<u16>, line: Seq<u8>) -> Seq<u16> {
    match spec_parse_weight(line) {
        Ok(weight) => spec_set(weights, ADMIN_CATEGORY_INDEX as int, weight as int),
        Err(_) => weights,
    }
}

/// What the handler does on an event.
pub open spec fn spec_admin_action(event: AdminEvent) -> AdminAction {
    match event {
        AdminEvent::Failed => AdminAction::Stop,
        AdminEvent::Read(bytes) => if bytes@.len() == 0 {
            AdminAction::Stop
        } else {
            match spec_parse_weight(bytes@) {
                Ok(weight) => AdminAction::Applied(weight),
                Err(error) => AdminAction::Rejected(error),
            }
        },
    }
}

/// Reads the weight that a line asks for. The line is taken where, without the
/// newline at its end and a `+` at its start, it is one decimal digit or more
/// and the number they stand for is at most the total weight.
pub fn parse_weight(line: &[u8]) -> (result: Result<u16, LineError>)
    ensures
        result == spec_parse_weight(line@),
{
    let mut end = line.len();
    if end > 0 && line[end - 1] == NEWLINE {
        end -= 1;
    }
    let mut start: usize = 0;
    if end > 0 && line[0] == PLUS {
        start = 1;
    }
    let ghost digits = line@.subrange(start as int, end as int);
    if start == end {
        return Err(LineError::Malformed);
    }
    let mut value: u16 = 0;
    let mut i = start;
    while i < end
        invariant
            start <= i <= end <= line.len(),
            digits == line@.subrange(start as int, end as int),
            digits == spec_digits(spec_content(line@)),
            spec_all_digits(digits.take(i - start)),
            value <= TOTAL_WEIGHT + 1,
            value <= TOTAL_WEIGHT ==> value == spec_value(digits.take(i - start)),
            value > TOTAL_WEIGHT ==> spec_value(digits.take(i - start)) > TOTAL_WEIGHT,
        decreases end - i,
    {
        let byte = line[i];
        if byte < DIGIT_0 || byte > DIGIT_9 {
            assert(!spec_is_digit(digits[i - start]));
            return Err(LineError::Malformed);
        }
        let ghost before = digits.take(i - start);
        let ghost after = digits.take(i - start + 1);
        assert(after.drop_last() =~= before);
        if value <= TOTAL_WEIGHT {
            value = value * 10 + (byte - DIGIT_0) as u16;
            if value > TOTAL_WEIGHT {
                value = TOTAL_WEIGHT + 1;
            }
        }
        i += 1;
    }
    assert(digits.take(end - start) =~= digits);
    if value > TOTAL_WEIGHT {
        Err(LineError::OutOfRange)
    } else {
        Ok(value)
    }
}

/// Handles one line of a control connection: a good line sets the weight of the
/// first category, and with it the other's; a refused line changes nothing.
pub fn handle_line(store: &mut WeightStore, line: &[u8]) -> (result: Result<u16, LineError>)
    requires
        old(store).wf(),
    ensures
        final(store).wf(),
        result == spec_parse_weight(line@),
        final(store)@ == spec_after_line(old(store)@, line@),
        result is Err ==> final(store)@ == old(store)@,
{
    match parse_weight(line) {
        Ok(weight) => {
            let _ = store.set(ADMIN_CATEGORY_INDEX, weight as i64);
            Ok(weight)
        },
        Err(error) => Err(error),
    }
}

/// Handles what one read on a control connection gave. The handler ends when
/// the peer has closed the connection or the read failed, and on nothing else:
/// no line, however bad, ends it, and a refused line leaves the weights as
/// they were.
pub fn handle_read(store: &mut WeightStore, event: &AdminEvent) -> (action: AdminAction)
    requires
        old(store).wf(),
    ensures
        final(store).wf(),
        action == spec_admin_action(*event),
        action == AdminAction::Stop <==> (match *event {
            AdminEvent::Failed => true,
            AdminEvent::Read(bytes) => bytes@.len() == 0,
        }),
        final(store)@ == (match action {
            AdminAction::Applied(weight) => spec_set(
                old(store)@,
                ADMIN_CATEGORY_INDEX as int,
                weight as int,
            ),
            _ => old(store)@,
        }),
{
    match event {
        AdminEvent::Failed => AdminAction::Stop,
        AdminEvent::Read(bytes) => {
            if bytes.len() == 0 {
                AdminAction::Stop
            } else {
                match handle_line(store, bytes.as_slice()) {
                    Ok(weight) => AdminAction::Applied(weight),
                    Err(error) => AdminAction::Rejected(error),
                }
            }
        },
    }
}

/// Whatever a line holds, the weights sum to the total after it. A line that
/// is refused, be it a number out of range or no number at all, leaves every
/// weight as it was; a line that is taken is a number up to the total, which
/// the first category then weighs, the other weighing the rest.
pub proof fn lemma_line_keeps_total(weights: Seq<u16>, line: Seq<u8>)
    requires
        spec_consistent(weights),
    ensures
        spec_consistent(spec_after_line(weights, line)),
        spec_parse_weight(line) is Err ==> spec_after_line(weights, line) == weights,
        spec_parse_weight(line) matches Ok(weight) ==> {
            &&& weight <= TOTAL_WEIGHT
            &&& spec_after_line(weights, line)[0] == weight
            &&& spec_after_line(weights, line)[1] == TOTAL_WEIGHT - weight
        },
{
    if let Ok(weight) = spec_parse_weight(line) {
        lemma_set_keeps_total(weights, ADMIN_CATEGORY_INDEX as int, weight as int);
    }
}

} // verus!
