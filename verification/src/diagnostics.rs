use crate::lexer::{no_symbol, symbol_of, token_to_symbol, LexError, Token};
use crate::lines::{decimal_string, decimal_text, digits_of, index_string};
use crate::machine::{Cause, Details, Direction, Fault};
use crate::memory::{acc_details, Acc};
use vstd::prelude::*;

verus! {

/// How an instruction, or the lack of one, is shown in a message.
pub open spec fn shown(current: Option<Token>) -> Seq<char> {
    match current {
        Some(t) => symbol_of(t),
        None => no_symbol(),
    }
}

/// The message of a fault with cause `cause`, raised while `current` was
/// the instruction under the code cursor.
pub open spec fn message_of(cause: Cause, current: Option<Token>) -> Seq<char> {
    let symbol = shown(current);
    match cause {
        Cause::AlreadyCreatingNumber => "already creating number"@,
        Cause::WentWrong => if current == Some(Token::OutputInt) || current == Some(
            Token::OutputChar,
        ) {
            "something went wrong while executing `"@ + symbol + "`"@
        } else {
            "execution of `"@ + symbol + "` went wrong"@
        },
        Cause::Unmatched => "conditional `"@ + symbol + "` does not have a corresponding `@`"@,
        Cause::DivisionByZero => "division by zero caused by `"@ + symbol + "`"@,
        Cause::Overflow => if current matches Some(Token::Digit(_)) {
            "digit "@ + symbol + " caused overflow"@
        } else {
            "command `"@ + symbol + "` caused overflow"@
        },
        Cause::CodeJump => "code pointer went out of bounds when executing `"@ + symbol + "`"@,
        Cause::DataJump => "data pointer went out of bounds when executing `"@ + symbol + "`"@,
        Cause::NotACharacter => "the current cell's value cannot be represented as a valid UTF-8 character"@,
        Cause::InvalidInput => "invalid input"@,
        Cause::InputTooLong => "input too long; went beyond tape boundaries"@,
        Cause::CodeCursor => "code pointer went out of bounds"@,
        Cause::DataCursor => "data pointer went out of bounds"@,
    }
}

fn framed(before: &str, symbol: &str, after: &str) -> (text: String)
    ensures
        text@ == before@ + symbol@ + after@,
{
    let mut text = String::from_str(before);
    text.append(symbol);
    text.append(after);
    text
}

/// Words the message of `fault`, raised while `current` was the instruction
/// under the code cursor.
pub fn message(fault: &Fault, current: Option<&Token>) -> (text: String)
    ensures
        text@ == message_of(
            fault.cause,
            match current {
                Some(t) => Some(*t),
                None => None,
            },
        ),
{
    let symbol = token_to_symbol(current);
    match fault.cause {
        Cause::AlreadyCreatingNumber => String::from_str("already creating number"),
        Cause::WentWrong => match current {
            Some(Token::OutputInt) | Some(Token::OutputChar) => framed(
                "something went wrong while executing `",
                symbol,
                "`",
            ),
            _ => framed("execution of `", symbol, "` went wrong"),
        },
        Cause::Unmatched => framed("conditional `", symbol, "` does not have a corresponding `@`"),
        Cause::DivisionByZero => framed("division by zero caused by `", symbol, "`"),
        Cause::Overflow => match current {
            Some(Token::Digit(_)) => framed("digit ", symbol, " caused overflow"),
            _ => framed("command `", symbol, "` caused overflow"),
        },
        Cause::CodeJump => framed(
            "code pointer went out of bounds when executing `",
            symbol,
            "`",
        ),
        Cause::DataJump => framed(
            "data pointer went out of bounds when executing `",
            symbol,
            "`",
        ),
        Cause::NotACharacter => String::from_str(
            "the current cell's value cannot be represented as a valid UTF-8 character",
        ),
        Cause::InvalidInput => String::from_str("invalid input"),
        Cause::InputTooLong => String::from_str("input too long; went beyond tape boundaries"),
        Cause::CodeCursor => String::from_str("code pointer went out of bounds"),
        Cause::DataCursor => String::from_str("data pointer went out of bounds"),
    }
}

/// How the content of a cell is shown.
pub open spec fn cell_text(v: Option<isize>) -> Seq<char> {
    match v {
        Some(n) => decimal_text(n as int),
        None => no_symbol(),
    }
}

/// The lines of a state report, in order: the accumulator, the two cursors,
/// the direction, the current and the previous instruction, the current
/// cell and the cell below it.
pub open spec fn details_lines(d: Details) -> Seq<Seq<char>> {
    seq![
        acc_details(d.acc),
        "code pointer index: "@ + digits_of(d.code as nat),
        "data pointer index: "@ + decimal_text(d.data as int),
        "data pointer direction: "@ + (if d.dir == Direction::Positive {
            "positive"@
        } else {
            "negative"@
        }),
        "current command: "@ + shown(d.current),
        "previous command executed: "@ + shown(d.previous),
        "current cell value: "@ + cell_text(d.cell),
        "left cell value: "@ + (match d.left {
            Ok(v) => cell_text(v),
            Err(_) => "<cell does not exist>"@,
        }),
    ]
}

fn labelled(label: &str, value: &str) -> (text: String)
    ensures
        text@ == label@ + value@,
{
    let mut text = String::from_str(label);
    text.append(value);
    text
}

fn cell_string(v: Option<isize>) -> (text: String)
    ensures
        text@ == cell_text(v),
{
    match v {
        Some(n) => decimal_string(n),
        None => String::from_str(token_to_symbol(None)),
    }
}

/// Words a state report, one line for each thing it shows.
pub fn details_text(d: &Details) -> (lines: Vec<String>)
    ensures
        lines@.len() == details_lines(*d).len(),
        forall|i: int| 0 <= i < lines@.len() ==> (#[trigger] lines@[i])@ == details_lines(*d)[i],
{
    let mut acc = Acc::new();
    if let Some(v) = d.acc {
        acc.set_value(v);
    }
    let code = index_string(d.code);
    let data = decimal_string(d.data);
    let cell = cell_string(d.cell);
    let left = match d.left {
        Ok(v) => cell_string(v),
        Err(_) => String::from_str("<cell does not exist>"),
    };
    let mut lines: Vec<String> = Vec::new();
    lines.push(acc.get_details());
    lines.push(labelled("code pointer index: ", code.as_str()));
    lines.push(labelled("data pointer index: ", data.as_str()));
    lines.push(
        labelled(
            "data pointer direction: ",
            match d.dir {
                Direction::Positive => "positive",
                Direction::Negative => "negative",
            },
        ),
    );
    lines.push(labelled("current command: ", token_to_symbol(d.current.as_ref())));
    lines.push(labelled("previous command executed: ", token_to_symbol(d.previous.as_ref())));
    lines.push(labelled("current cell value: ", cell.as_str()));
    lines.push(labelled("left cell value: ", left.as_str()));
    lines
}

/// The message of a fault found while reading a source text: the symbol
/// that is no instruction and its place, counted from zero in the text left
/// after comments and whitespace are gone.
pub open spec fn lexical_message_of(fault: LexError) -> Seq<char> {
    match fault {
        LexError::UnknownSymbol { symbol, index } => "unrecognized symbol "@.push(symbol)
            + " found at index "@ + digits_of(index as nat),
        LexError::Pattern => "the comment pattern was not accepted"@,
    }
}

/// `String::push` of std: puts the character `c` at the end of `text`.
#[verifier::external_body]
fn push_char(text: &mut String, c: char)
    ensures
        final(text)@ == old(text)@.push(c),
{
    text.push(c)
}

/// Words the message of a fault found while reading a source text.
pub fn lexical_message(fault: &LexError) -> (text: String)
    ensures
        text@ == lexical_message_of(*fault),
{
    match fault {
        LexError::UnknownSymbol { symbol, index } => {
            let mut text = String::from_str("unrecognized symbol ");
            push_char(&mut text, *symbol);
            text.append(" found at index ");
            let place = index_string(*index);
            text.append(place.as_str());
            text
        },
        LexError::Pattern => String::from_str("the comment pattern was not accepted"),
    }
}

} // verus!
