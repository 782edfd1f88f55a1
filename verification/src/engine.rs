use crate::errors::Error;
use crate::lexer::Token;
use crate::machine::{
    Cause, Change, Direction, Fault, Input, Machine, Plan, Report, State, Status, Written,
};
use crate::lines::{integer_of, parse_integer, text_len, without_terminator};
use crate::memory::{
    appended, base_ten, cell, decimal_digits, lemma_literal_is_base_ten, Acc, Tape,
};
use vstd::prelude::*;

verus! {

/// The six instructions that open a conditional.
pub open spec fn opens(t: Token) -> bool {
    t == Token::ZeroOrEmpty || t == Token::NotZeroOrEmpty || t == Token::TgtZeroOrEmpty || t
        == Token::TgtNotZeroOrEmpty || t == Token::AccZeroOrEmpty || t == Token::AccNotZeroOrEmpty
}

/// What an instruction adds to the nesting depth: one for an open, minus one
/// for the close, nothing otherwise.
pub open spec fn weight(t: Token) -> int {
    if opens(t) {
        1
    } else if t == Token::DestinationIfTrue {
        -1
    } else {
        0
    }
}

/// The nesting depth after the instructions from `from` to `to`, both
/// included.
pub open spec fn depth(tokens: Seq<Token>, from: int, to: int) -> int
    decreases to - from + 1,
{
    if to < from {
        0
    } else {
        depth(tokens, from, to - 1) + weight(tokens[to])
    }
}

/// `dest` is the first position at or after `from` where the depth counted
/// from `from` is back at zero.
pub open spec fn closes_at(tokens: Seq<Token>, from: int, dest: int) -> bool {
    &&& from <= dest < tokens.len()
    &&& depth(tokens, from, dest) == 0
    &&& forall|k: int| from <= k < dest ==> #[trigger] depth(tokens, from, k) != 0
}

/// No position at or after `from` brings the depth back to zero.
pub open spec fn never_closes(tokens: Seq<Token>, from: int) -> bool {
    forall|k: int| from <= k < tokens.len() ==> #[trigger] depth(tokens, from, k) != 0
}

/// The jump target of a conditional at `from`, if it has one.
pub open spec fn matching_close(tokens: Seq<Token>, from: int) -> Option<usize> {
    if exists|d: int| closes_at(tokens, from, d) {
        Some((choose|d: int| closes_at(tokens, from, d)) as usize)
    } else {
        None
    }
}

/// At most one position closes what `from` opens.
pub proof fn lemma_close_is_unique(tokens: Seq<Token>, from: int, d1: int, d2: int)
    requires
        closes_at(tokens, from, d1),
        closes_at(tokens, from, d2),
    ensures
        d1 == d2,
{
    if d1 < d2 {
        assert(depth(tokens, from, d1) != 0);
    }
    if d2 < d1 {
        assert(depth(tokens, from, d2) != 0);
    }
}

fn weigh(t: &Token) -> (w: i128)
    ensures
        w == weight(*t),
{
    match t {
        Token::ZeroOrEmpty
        | Token::NotZeroOrEmpty
        | Token::TgtZeroOrEmpty
        | Token::TgtNotZeroOrEmpty
        | Token::AccZeroOrEmpty
        | Token::AccNotZeroOrEmpty => 1,
        Token::DestinationIfTrue => -1,
        _ => 0,
    }
}

/// Finds the close that matches the conditional at `code_ptr_index` by
/// counting forward: every open adds one, every close takes one away, and the
/// first position where the count is zero is the target.
pub fn scope_check(code_ptr_index: usize, tokens: &Vec<Token>) -> (r: Option<usize>)
    ensures
        r == matching_close(tokens@, code_ptr_index as int),
        match r {
            Some(d) => closes_at(tokens@, code_ptr_index as int, d as int),
            None => never_closes(tokens@, code_ptr_index as int),
        },
{
    let mut destination: usize = code_ptr_index;
    let mut scope: i128 = 0;
    while destination < tokens.len()
        invariant
            code_ptr_index <= destination,
            scope == depth(tokens@, code_ptr_index as int, destination - 1),
            -(destination - code_ptr_index) <= scope <= destination - code_ptr_index,
            forall|k: int|
                code_ptr_index <= k < destination ==> #[trigger] depth(
                    tokens@,
                    code_ptr_index as int,
                    k,
                ) != 0,
        decreases tokens@.len() - destination,
    {
        scope = scope + weigh(&tokens[destination]);
        if scope == 0 {
            proof {
                let d = destination as int;
                assert(closes_at(tokens@, code_ptr_index as int, d));
                let c = choose|d: int| closes_at(tokens@, code_ptr_index as int, d);
                lemma_close_is_unique(tokens@, code_ptr_index as int, d, c);
            }
            return Some(destination);
        }
        destination += 1;
    }
    proof {
        assert forall|d: int| !closes_at(tokens@, code_ptr_index as int, d) by {
            if closes_at(tokens@, code_ptr_index as int, d) {
                assert(depth(tokens@, code_ptr_index as int, d) != 0);
            }
        }
    }
    None
}

/// How far `to` lies from `from` in direction `dir`; negative when it lies
/// behind.
pub open spec fn ahead(from: int, to: int, dir: Direction) -> int {
    match dir {
        Direction::Positive => to - from,
        Direction::Negative => from - to,
    }
}

/// The first address, going from `from` in direction `dir`, whose cell is
/// full (or empty, for `full` false); `None` when the addresses end first.
pub open spec fn sought(cells: Map<isize, isize>, from: int, dir: Direction, full: bool) -> Option<
    isize,
>
    decreases
        (match dir {
            Direction::Positive => isize::MAX - from,
            Direction::Negative => from - isize::MIN,
        }) + 1,
{
    if from < isize::MIN || from > isize::MAX {
        None
    } else if cells.contains_key(from as isize) == full {
        Some(from as isize)
    } else {
        sought(cells, from + dir.delta(), dir, full)
    }
}

/// What a scan finds is the nearest cell of the wanted kind at or ahead of
/// its start, and it finds none only where there is none ahead.
pub proof fn lemma_sought_is_nearest(
    cells: Map<isize, isize>,
    from: int,
    dir: Direction,
    full: bool,
)
    requires
        isize::MIN <= from <= isize::MAX,
    ensures
        match sought(cells, from, dir, full) {
            Some(a) => {
                &&& cells.contains_key(a) == full
                &&& ahead(from, a as int, dir) >= 0
                &&& forall|b: isize|
                    0 <= ahead(from, b as int, dir) < ahead(from, a as int, dir)
                        ==> #[trigger] cells.contains_key(b) != full
            },
            None => forall|b: isize|
                0 <= ahead(from, b as int, dir) ==> #[trigger] cells.contains_key(b) != full,
        },
    decreases
        (match dir {
            Direction::Positive => isize::MAX - from,
            Direction::Negative => from - isize::MIN,
        }),
{
    let next = from + dir.delta();
    if cells.contains_key(from as isize) != full {
        if isize::MIN <= next <= isize::MAX {
            lemma_sought_is_nearest(cells, next, dir, full);
        } else {
            assert(sought(cells, next, dir, full).is_none());
        }
    }
}

/// Steps from `from` in direction `dir` until a cell is full (or empty, for
/// `full` false). Fails when the next step would leave the addresses.
pub fn seek(tape: &Tape, from: isize, dir: Direction, full: bool) -> (r: Option<isize>)
    ensures
        r == sought(tape@, from as int, dir, full),
        match r {
            Some(a) => {
                &&& tape@.contains_key(a) == full
                &&& ahead(from as int, a as int, dir) >= 0
                &&& forall|b: isize|
                    0 <= ahead(from as int, b as int, dir) < ahead(from as int, a as int, dir)
                        ==> #[trigger] tape@.contains_key(b) != full
            },
            None => forall|b: isize|
                0 <= ahead(from as int, b as int, dir) ==> #[trigger] tape@.contains_key(b) != full,
        },
{
    let mut at: isize = from;
    loop
        invariant
            ahead(from as int, at as int, dir) >= 0,
            sought(tape@, from as int, dir, full) == sought(tape@, at as int, dir, full),
            forall|b: isize|
                0 <= ahead(from as int, b as int, dir) < ahead(from as int, at as int, dir)
                    ==> #[trigger] tape@.contains_key(b) != full,
        decreases
            (match dir {
                Direction::Positive => isize::MAX - at,
                Direction::Negative => at - isize::MIN,
            }),
    {
        if tape.cell_is_full(at) == full {
            return Some(at);
        }
        let next = match dir {
            Direction::Positive => at.checked_add(1),
            Direction::Negative => at.checked_sub(1),
        };
        match next {
            Some(n) => {
                at = n;
            },
            None => {
                assert(sought(tape@, at + dir.delta(), dir, full).is_none());
                return None;
            },
        }
    }
}

/// The thirteen instructions that combine the cell below the data cursor
/// with the cell under it.
pub open spec fn is_binary(t: Token) -> bool {
    match t {
        Token::Add
        | Token::Mul
        | Token::Div
        | Token::Mod
        | Token::Eq
        | Token::NotEq(_)
        | Token::Gt
        | Token::GE(_)
        | Token::Lt
        | Token::LE(_)
        | Token::BitAnd
        | Token::BitOr
        | Token::BitXor => true,
        _ => false,
    }
}

pub open spec fn fits(v: int) -> Option<isize> {
    if isize::MIN <= v <= isize::MAX {
        Some(v as isize)
    } else {
        None
    }
}

pub open spec fn truth(b: bool) -> Option<isize> {
    if b {
        Some(1isize)
    } else {
        Some(0isize)
    }
}

/// The remainder that has the sign of the dividend.
pub open spec fn remainder(a: int, b: int) -> int
    recommends
        b != 0,
{
    let m = if b < 0 {
        -b
    } else {
        b
    };
    if a >= 0 {
        a % m
    } else {
        -((-a) % m)
    }
}

/// The value of a binary instruction on operands `a` (the cell below) and
/// `b` (the current cell): `None` when the value leaves the signed range, and
/// for a division or remainder by zero. Division rounds so that the
/// remainder is not negative; comparisons give 1 or 0.
pub open spec fn binary(t: Token, a: isize, b: isize) -> Option<isize> {
    match t {
        Token::Add => fits(a + b),
        Token::Mul => fits(a * b),
        Token::Div => if b == 0 {
            None
        } else {
            fits(a as int / b as int)
        },
        Token::Mod => if b == 0 || (a == isize::MIN && b == -1) {
            None
        } else {
            fits(remainder(a as int, b as int))
        },
        Token::Eq => truth(a == b),
        Token::NotEq(_) => truth(a != b),
        Token::Gt => truth(a > b),
        Token::GE(_) => truth(a >= b),
        Token::Lt => truth(a < b),
        Token::LE(_) => truth(a <= b),
        Token::BitAnd => Some(a & b),
        Token::BitOr => Some(a | b),
        Token::BitXor => Some(a ^ b),
        _ => None,
    }
}

fn flag(b: bool) -> (r: Option<isize>)
    ensures
        r == truth(b),
{
    if b {
        Some(1)
    } else {
        Some(0)
    }
}

/// Computes a binary instruction on its two operands.
pub fn compute(t: Token, a: isize, b: isize) -> (r: Option<isize>)
    ensures
        r == binary(t, a, b),
{
    match t {
        Token::Add => a.checked_add(b),
        Token::Mul => a.checked_mul(b),
        Token::Div => a.checked_div_euclid(b),
        Token::Mod => a.checked_rem(b),
        Token::Eq => flag(a == b),
        Token::NotEq(_) => flag(a != b),
        Token::Gt => flag(a > b),
        Token::GE(_) => flag(a >= b),
        Token::Lt => flag(a < b),
        Token::LE(_) => flag(a <= b),
        Token::BitAnd => Some(a & b),
        Token::BitOr => Some(a | b),
        Token::BitXor => Some(a ^ b),
        _ => None,
    }
}

/// A cell or an accumulator that is empty or holds zero.
pub open spec fn zero_or_empty(v: Option<isize>) -> bool {
    v.is_none() || v == Some(0isize)
}

/// The two conditionals that test the cell whose address the accumulator
/// holds, and use the accumulator up.
pub open spec fn targets(t: Token) -> bool {
    t == Token::TgtZeroOrEmpty || t == Token::TgtNotZeroOrEmpty
}

/// Whether the conditional `t` jumps in state `s`.
pub open spec fn taken(t: Token, s: State) -> bool {
    match t {
        Token::ZeroOrEmpty => zero_or_empty(cell(s.cells, s.data as int)),
        Token::NotZeroOrEmpty => !zero_or_empty(cell(s.cells, s.data as int)),
        Token::TgtZeroOrEmpty => s.acc.is_some() && zero_or_empty(
            cell(s.cells, s.acc.unwrap() as int),
        ),
        Token::TgtNotZeroOrEmpty => s.acc.is_some() && !zero_or_empty(
            cell(s.cells, s.acc.unwrap() as int),
        ),
        Token::AccZeroOrEmpty => zero_or_empty(s.acc),
        Token::AccNotZeroOrEmpty => !zero_or_empty(s.acc),
        _ => false,
    }
}

/// A Unicode scalar value: a code point that is no surrogate.
pub open spec fn is_scalar(v: int) -> bool {
    0 <= v <= 0xD7FF || 0xE000 <= v <= 0x10FFFF
}

/// The tape after the characters of `text` went to the cells from `at`
/// upwards, one code point each.
pub open spec fn inscribed(cells: Map<isize, isize>, at: int, text: Seq<char>) -> Map<
    isize,
    isize,
> {
    Map::new(
        |a: isize| cells.contains_key(a) || at <= a < at + text.len(),
        |a: isize|
            if at <= a < at + text.len() {
                (text[a - at] as u32) as isize
            } else {
                cells[a]
            },
    )
}

/// The text of the line that `input` carries; empty where it carries none.
pub open spec fn text_of(input: Input) -> Seq<char> {
    match input {
        Input::Line(line) => without_terminator(line@),
        _ => Seq::empty(),
    }
}

/// The tape after a cycle's change at address `at`.
pub open spec fn changed(cells: Map<isize, isize>, at: isize, change: Change, input: Input) -> Map<
    isize,
    isize,
> {
    match change {
        Change::Keep => cells,
        Change::Store(v) => cells.insert(at, v),
        Change::Erase => cells.remove(at),
        Change::Text => inscribed(cells, at as int, text_of(input)),
    }
}

/// The plan of an instruction that changes nothing: the data cursor takes
/// its step and no literal is being built any more.
pub open spec fn idle(s: State) -> Plan {
    Plan {
        code: s.code,
        data: s.data,
        dir: s.dir,
        building: false,
        acc: s.acc,
        change: Change::Keep,
        step: true,
        written: Written::Nothing,
    }
}

pub open spec fn fault(kind: Error, cause: Cause) -> Result<Plan, Fault> {
    Err(Fault { kind, cause })
}

/// What a conditional does: a target conditional needs a full accumulator
/// and empties it; a conditional that is taken moves the code cursor to its
/// matching close, and faults when it has none.
pub open spec fn planned_conditional(s: State, tokens: Seq<Token>, t: Token) -> Result<
    Plan,
    Fault,
> {
    if targets(t) && s.acc.is_none() {
        fault(Error::AccumulatorError, Cause::WentWrong)
    } else {
        let acc = if targets(t) {
            None
        } else {
            s.acc
        };
        if taken(t, s) {
            match matching_close(tokens, s.code as int) {
                None => fault(Error::SyntaxError, Cause::Unmatched),
                Some(d) => Ok(Plan { code: d, acc, ..idle(s) }),
            }
        } else {
            Ok(Plan { acc, ..idle(s) })
        }
    }
}

/// What a binary instruction does: both cells must be full, the divisor of a
/// division or remainder must not be zero, the accumulator must be empty,
/// and the value must fit; then the value goes to the accumulator and
/// nothing else changes.
pub open spec fn planned_binary(s: State, t: Token) -> Result<Plan, Fault> {
    let a = cell(s.cells, s.data - 1);
    let b = cell(s.cells, s.data as int);
    if a.is_none() || b.is_none() {
        fault(Error::OpError, Cause::WentWrong)
    } else if (t == Token::Div || t == Token::Mod) && b.unwrap() == 0 {
        fault(Error::OpError, Cause::DivisionByZero)
    } else if s.acc.is_some() {
        fault(Error::AccumulatorError, Cause::WentWrong)
    } else {
        match binary(t, a.unwrap(), b.unwrap()) {
            None => fault(Error::OverflowError, Cause::Overflow),
            Some(v) => Ok(Plan { acc: Some(v), ..idle(s) }),
        }
    }
}

/// What an input instruction does with what the host handed over.
pub open spec fn planned_input(s: State, t: Token, input: Input) -> Result<Plan, Fault> {
    match input {
        Input::Line(line) => {
            let text = without_terminator(line@);
            if t == Token::InputInt {
                match integer_of(text) {
                    Some(v) => Ok(Plan { acc: Some(v), step: false, ..idle(s) }),
                    None => fault(Error::InputError, Cause::InvalidInput),
                }
            } else if text.len() == 0 || s.data + text.len() <= isize::MAX {
                Ok(Plan { change: Change::Text, step: false, ..idle(s) })
            } else {
                fault(Error::InputError, Cause::InputTooLong)
            }
        },
        _ => fault(Error::InputError, Cause::InvalidInput),
    }
}

/// The effect of the instruction under the code cursor, or the fault that
/// it raises.
pub open spec fn planned(s: State, tokens: Seq<Token>, input: Input) -> Result<Plan, Fault> {
    if s.code >= tokens.len() {
        fault(Error::OutOfBoundsError, Cause::CodeCursor)
    } else {
        let t = tokens[s.code as int];
        let here = cell(s.cells, s.data as int);
        let p = idle(s);
        match t {
            Token::NoOp | Token::DestinationIfTrue | Token::Stop => Ok(p),
            Token::CreatingNumber => if s.building {
                fault(Error::SyntaxError, Cause::AlreadyCreatingNumber)
            } else if s.acc.is_some() {
                fault(Error::AccumulatorError, Cause::WentWrong)
            } else {
                Ok(Plan { building: true, step: false, ..p })
            },
            Token::Digit(n) => if !s.building {
                fault(Error::SyntaxError, Cause::WentWrong)
            } else {
                match appended(s.acc, n) {
                    None => fault(Error::OverflowError, Cause::Overflow),
                    Some(v) => Ok(Plan { building: true, acc: Some(v), step: false, ..p }),
                }
            },
            Token::Unload => match s.acc {
                None => fault(Error::AccumulatorError, Cause::WentWrong),
                Some(v) => Ok(Plan { acc: None, change: Change::Store(v), ..p }),
            },
            Token::Distribute => match s.acc {
                None => fault(Error::AccumulatorError, Cause::WentWrong),
                Some(v) => Ok(Plan { change: Change::Store(v), ..p }),
            },
            Token::Recall => match here {
                None => fault(Error::OpError, Cause::WentWrong),
                Some(v) => Ok(Plan { acc: Some(v), change: Change::Erase, ..p }),
            },
            Token::Copy => match here {
                None => fault(Error::OpError, Cause::WentWrong),
                Some(v) => Ok(Plan { acc: Some(v), ..p }),
            },
            Token::ClearAcc => Ok(Plan { acc: None, ..p }),
            Token::ClearCurrCell => Ok(Plan { change: Change::Erase, ..p }),
            Token::ZeroOrEmpty
            | Token::NotZeroOrEmpty
            | Token::TgtZeroOrEmpty
            | Token::TgtNotZeroOrEmpty
            | Token::AccZeroOrEmpty
            | Token::AccNotZeroOrEmpty => planned_conditional(s, tokens, t),
            Token::JumpCellsC => match s.acc {
                None => fault(Error::OpError, Cause::WentWrong),
                Some(a) => if 0 <= s.code + a < tokens.len() {
                    Ok(Plan { code: (s.code + a) as usize, acc: None, ..p })
                } else {
                    fault(Error::OverflowError, Cause::CodeJump)
                },
            },
            Token::JumpToCellC => match s.acc {
                None => fault(Error::OpError, Cause::WentWrong),
                Some(a) => if 0 <= a < tokens.len() {
                    Ok(Plan { code: a as usize, acc: None, ..p })
                } else {
                    fault(Error::OverflowError, Cause::CodeJump)
                },
            },
            Token::JumpCellsD => match s.acc {
                None => fault(Error::OpError, Cause::WentWrong),
                Some(a) => match fits(s.data + a) {
                    None => fault(Error::OverflowError, Cause::DataJump),
                    Some(d) => Ok(Plan { data: d, acc: None, step: false, ..p }),
                },
            },
            Token::JumpToCellD => match s.acc {
                None => fault(Error::OpError, Cause::WentWrong),
                Some(a) => Ok(Plan { data: a, acc: None, step: false, ..p }),
            },
            Token::FlipD(_) => Ok(Plan { dir: s.dir.opposite(), ..p }),
            Token::MoveDUntilEmpty => match sought(s.cells, s.data as int, s.dir, false) {
                None => fault(Error::OverflowError, Cause::DataJump),
                Some(d) => Ok(Plan { data: d, step: false, ..p }),
            },
            Token::MoveDUntilFull => match sought(s.cells, s.data as int, s.dir, true) {
                None => fault(Error::OverflowError, Cause::DataJump),
                Some(d) => Ok(Plan { data: d, step: false, ..p }),
            },
            Token::Neg => match s.acc {
                None => fault(Error::AccumulatorError, Cause::WentWrong),
                Some(a) => match fits(-a) {
                    None => fault(Error::OverflowError, Cause::Overflow),
                    Some(v) => Ok(Plan { acc: Some(v), ..p }),
                },
            },
            Token::BitNot => match here {
                None => fault(Error::OpError, Cause::WentWrong),
                Some(b) => Ok(Plan { acc: Some((-b - 1) as isize), ..p }),
            },
            Token::OutputInt => match here {
                None => fault(Error::OpError, Cause::WentWrong),
                Some(v) => Ok(Plan { written: Written::Int(v), ..p }),
            },
            Token::OutputChar => match here {
                None => fault(Error::OpError, Cause::WentWrong),
                Some(v) => if is_scalar(v as int) {
                    Ok(Plan { written: Written::Char((v as u32) as char), ..p })
                } else {
                    fault(Error::OpError, Cause::NotACharacter)
                },
            },
            Token::InputInt | Token::InputStr => planned_input(s, t, input),
            _ => planned_binary(s, t),
        }
    }
}

/// Only string input plans a text for the tape, and only for a line that the
/// cells from the data cursor upwards can take; only string input faults
/// with a line too long, and only on a line that reaches the last address.
pub proof fn lemma_lines_in_plans(s: State, tokens: Seq<Token>, input: Input)
    ensures
        planned(s, tokens, input) matches Ok(p) ==> p.change == Change::Text ==> {
            &&& s.code < tokens.len()
            &&& tokens[s.code as int] == Token::InputStr
            &&& p.data == s.data
            &&& input is Line
            &&& text_of(input).len() <= room(s.data)
        },
        planned(s, tokens, input) matches Err(f) ==> f.cause == Cause::InputTooLong ==> {
            &&& s.code < tokens.len()
            &&& tokens[s.code as int] == Token::InputStr
            &&& input is Line
            &&& room(s.data) <= text_of(input).len()
        },
{
}

/// The instructions that read a line.
pub open spec fn reads_line(t: Token) -> bool {
    t == Token::InputInt || t == Token::InputStr
}

/// Where the data cursor stands after the cycle of plan `p`.
pub open spec fn stepped(p: Plan) -> int {
    if p.step {
        p.data + p.dir.delta()
    } else {
        p.data as int
    }
}

/// The state after the instruction of plan `p` has done its work and before
/// the cursors advance: the cursors stand where the instruction left them.
pub open spec fn applied(s: State, p: Plan, input: Input) -> State {
    State {
        code: p.code,
        data: p.data,
        dir: p.dir,
        building: p.building,
        acc: p.acc,
        cells: changed(s.cells, s.data, p.change, input),
        last: s.last,
    }
}

/// The state after the cycle of plan `p` ran to its end on instruction `t`.
pub open spec fn committed(s: State, p: Plan, t: Token, input: Input) -> State {
    State {
        code: (p.code + 1) as usize,
        data: stepped(p) as isize,
        last: Some(t),
        ..applied(s, p, input)
    }
}

/// How many characters the cells from `at` up to the last address take.
pub open spec fn room(at: isize) -> int {
    isize::MAX - at + 1
}

/// The state that a fault of the instruction itself leaves: the state as it
/// was, but for a line too long for the tape, whose characters have gone to
/// the cells up to the last address.
pub open spec fn refused(s: State, f: Fault, input: Input) -> State {
    if f.cause == Cause::InputTooLong {
        State {
            cells: inscribed(s.cells, s.data as int, text_of(input).take(room(s.data))),
            ..s
        }
    } else {
        s
    }
}

pub open spec fn report(written: Written, status: Status, t: Token) -> Report {
    Report { written, status, current: Some(t) }
}

pub open spec fn faulted(written: Written, kind: Error, cause: Cause, t: Token) -> Report {
    Report { written, status: Status::Faulted(Fault { kind, cause }), current: Some(t) }
}

/// One cycle: the state it leaves and what it reports. The instruction is
/// carried out first; then the code cursor must be able to advance inside
/// the sequence, and the data cursor to take its step. Where one of them
/// cannot, the cycle faults with the instruction's work done and the
/// cursors where the instruction left them. A stop, a wait for a line and a
/// fault of the instruction itself leave the state as it was (see
/// `refused` for the one exception).
pub open spec fn cycle(s: State, tokens: Seq<Token>, input: Input) -> (State, Report) {
    if s.code >= tokens.len() {
        (
            s,
            Report {
                written: Written::Nothing,
                status: Status::Faulted(
                    Fault { kind: Error::OutOfBoundsError, cause: Cause::CodeCursor },
                ),
                current: None,
            },
        )
    } else {
        let t = tokens[s.code as int];
        if t == Token::Stop {
            (s, report(Written::Nothing, Status::Stopped, t))
        } else if reads_line(t) && input is Absent {
            (s, report(Written::Nothing, Status::AwaitsLine, t))
        } else {
            match planned(s, tokens, input) {
                Err(f) => (refused(s, f, input), report(Written::Nothing, Status::Faulted(f), t)),
                Ok(p) => if p.code + 1 >= tokens.len() {
                    (
                        applied(s, p, input),
                        faulted(p.written, Error::OutOfBoundsError, Cause::CodeCursor, t),
                    )
                } else if !(isize::MIN <= stepped(p) <= isize::MAX) {
                    (
                        applied(s, p, input),
                        faulted(p.written, Error::OutOfBoundsError, Cause::DataCursor, t),
                    )
                } else {
                    (committed(s, p, t, input), report(p.written, Status::Running, t))
                },
            }
        }
    }
}

fn raise(kind: Error, cause: Cause) -> (r: Result<Plan, Fault>)
    ensures
        r == fault(kind, cause),
{
    Err(Fault { kind, cause })
}

fn held(m: &Machine) -> (r: Option<isize>)
    ensures
        r == m@.acc,
{
    match m.acc.get_value() {
        Ok(v) => Some(v),
        Err(_) => None,
    }
}

fn rest(m: &Machine) -> (p: Plan)
    ensures
        p == idle(m@),
{
    Plan {
        code: m.code,
        data: m.data,
        dir: m.dir,
        building: false,
        acc: held(m),
        change: Change::Keep,
        step: true,
        written: Written::Nothing,
    }
}

fn is_zero_or_empty(v: Option<isize>) -> (b: bool)
    ensures
        b == zero_or_empty(v),
{
    match v {
        None => true,
        Some(n) => n == 0,
    }
}

/// Plans a conditional instruction.
fn branch(m: &Machine, tokens: &Vec<Token>, t: Token) -> (r: Result<Plan, Fault>)
    requires
        opens(t),
    ensures
        r == planned_conditional(m@, tokens@, t),
        r matches Ok(p) ==> p.code == m.code || p.code < tokens@.len(),
{
    let acc = held(m);
    let p = rest(m);
    let jumps = match t {
        Token::ZeroOrEmpty => is_zero_or_empty(m.tape.get(m.data)),
        Token::NotZeroOrEmpty => !is_zero_or_empty(m.tape.get(m.data)),
        Token::AccZeroOrEmpty => is_zero_or_empty(acc),
        Token::AccNotZeroOrEmpty => !is_zero_or_empty(acc),
        Token::TgtZeroOrEmpty => match acc {
            Some(a) => is_zero_or_empty(m.tape.get(a)),
            None => {
                return raise(Error::AccumulatorError, Cause::WentWrong);
            },
        },
        _ => match acc {
            Some(a) => !is_zero_or_empty(m.tape.get(a)),
            None => {
                return raise(Error::AccumulatorError, Cause::WentWrong);
            },
        },
    };
    let left = match t {
        Token::TgtZeroOrEmpty | Token::TgtNotZeroOrEmpty => None,
        _ => acc,
    };
    if jumps {
        match scope_check(m.code, tokens) {
            None => raise(Error::SyntaxError, Cause::Unmatched),
            Some(d) => Ok(Plan { code: d, acc: left, ..p }),
        }
    } else {
        Ok(Plan { acc: left, ..p })
    }
}

/// Plans a binary instruction.
fn operate(m: &Machine, t: Token) -> (r: Result<Plan, Fault>)
    requires
        is_binary(t),
    ensures
        r == planned_binary(m@, t),
{
    let below = match m.tape.left_of(m.data) {
        Ok(v) => v,
        Err(_) => None,
    };
    let a = match below {
        Some(a) => a,
        None => {
            return raise(Error::OpError, Cause::WentWrong);
        },
    };
    let b = match m.tape.get(m.data) {
        Some(b) => b,
        None => {
            return raise(Error::OpError, Cause::WentWrong);
        },
    };
    let divides = match t {
        Token::Div | Token::Mod => true,
        _ => false,
    };
    if divides && b == 0 {
        return raise(Error::OpError, Cause::DivisionByZero);
    }
    if m.acc.is_not_empty() {
        return raise(Error::AccumulatorError, Cause::WentWrong);
    }
    match compute(t, a, b) {
        None => raise(Error::OverflowError, Cause::Overflow),
        Some(v) => Ok(Plan { acc: Some(v), ..rest(m) }),
    }
}

/// Plans an input instruction from what the host handed over.
fn receive(m: &Machine, t: Token, input: &Input) -> (r: Result<Plan, Fault>)
    requires
        reads_line(t),
    ensures
        r == planned_input(m@, t, *input),
{
    match input {
        Input::Line(line) => {
            let n = text_len(line);
            match t {
                Token::InputInt => match parse_integer(line, n) {
                    Some(v) => Ok(Plan { acc: Some(v), step: false, ..rest(m) }),
                    None => raise(Error::InputError, Cause::InvalidInput),
                },
                _ => {
                    if n == 0 || m.data as i128 + n as i128 <= isize::MAX as i128 {
                        Ok(Plan { change: Change::Text, step: false, ..rest(m) })
                    } else {
                        raise(Error::InputError, Cause::InputTooLong)
                    }
                },
            }
        },
        _ => raise(Error::InputError, Cause::InvalidInput),
    }
}

/// `char::from_u32` of std: the character with code point `code`, which
/// exists exactly when `code` is a Unicode scalar value.
#[verifier::external_body]
fn scalar(code: u32) -> (r: Option<char>)
    ensures
        r == (if is_scalar(code as int) {
            Some(code as char)
        } else {
            None::<char>
        }),
{
    char::from_u32(code)
}

/// Plans a literal's begin or one of its digits.
fn plan_literal(m: &Machine, tokens: &Vec<Token>, input: &Input, t: Token) -> (r: Result<
    Plan,
    Fault,
>)
    requires
        m.code < tokens@.len(),
        tokens@[m.code as int] == t,
        t == Token::CreatingNumber || t is Digit,
    ensures
        r == planned(m@, tokens@, *input),
        r matches Ok(p) ==> p.code < tokens@.len(),
{
    let acc = held(m);
    let p = rest(m);
    match t {
        Token::CreatingNumber => {
            if m.building {
                raise(Error::SyntaxError, Cause::AlreadyCreatingNumber)
            } else if acc.is_some() {
                raise(Error::AccumulatorError, Cause::WentWrong)
            } else {
                Ok(Plan { building: true, step: false, ..p })
            }
        },
        Token::Digit(n) => {
            if !m.building {
                raise(Error::SyntaxError, Cause::WentWrong)
            } else {
                let mut scratch = Acc::new();
                if let Some(v) = acc {
                    scratch.set_value(v);
                }
                match scratch.append(n) {
                    Err(_) => raise(Error::OverflowError, Cause::Overflow),
                    Ok(_) => Ok(Plan { building: true, acc: scratch.clear(), step: false, ..p }),
                }
            }
        },
        _ => Ok(p),
    }
}

/// Plans a move between the accumulator and the current cell, or the
/// clearing of one of them.
fn plan_transfer(m: &Machine, tokens: &Vec<Token>, input: &Input, t: Token) -> (r: Result<
    Plan,
    Fault,
>)
    requires
        m.code < tokens@.len(),
        tokens@[m.code as int] == t,
        t == Token::Unload || t == Token::Distribute || t == Token::Recall || t == Token::Copy || t
            == Token::ClearAcc || t == Token::ClearCurrCell,
    ensures
        r == planned(m@, tokens@, *input),
        r matches Ok(p) ==> p.code < tokens@.len(),
{
    let acc = held(m);
    let p = rest(m);
    match t {
        Token::Unload => match acc {
            None => raise(Error::AccumulatorError, Cause::WentWrong),
            Some(v) => Ok(Plan { acc: None, change: Change::Store(v), ..p }),
        },
        Token::Distribute => match acc {
            None => raise(Error::AccumulatorError, Cause::WentWrong),
            Some(v) => Ok(Plan { change: Change::Store(v), ..p }),
        },
        Token::Recall => match m.tape.get(m.data) {
            None => raise(Error::OpError, Cause::WentWrong),
            Some(v) => Ok(Plan { acc: Some(v), change: Change::Erase, ..p }),
        },
        Token::Copy => match m.tape.get(m.data) {
            None => raise(Error::OpError, Cause::WentWrong),
            Some(v) => Ok(Plan { acc: Some(v), ..p }),
        },
        Token::ClearAcc => Ok(Plan { acc: None, ..p }),
        _ => Ok(Plan { change: Change::Erase, ..p }),
    }
}

/// Plans a jump of the code cursor or of the data cursor.
fn plan_jump(m: &Machine, tokens: &Vec<Token>, input: &Input, t: Token) -> (r: Result<Plan, Fault>)
    requires
        m.code < tokens@.len(),
        tokens@[m.code as int] == t,
        t == Token::JumpCellsC || t == Token::JumpToCellC || t == Token::JumpCellsD || t
            == Token::JumpToCellD,
    ensures
        r == planned(m@, tokens@, *input),
        r matches Ok(p) ==> p.code < tokens@.len(),
{
    let acc = held(m);
    let p = rest(m);
    match t {
        Token::JumpCellsC => match acc {
            None => raise(Error::OpError, Cause::WentWrong),
            Some(a) => {
                let target: i128 = m.code as i128 + a as i128;
                if 0 <= target && target < tokens.len() as i128 {
                    Ok(Plan { code: target as usize, acc: None, ..p })
                } else {
                    raise(Error::OverflowError, Cause::CodeJump)
                }
            },
        },
        Token::JumpToCellC => match acc {
            None => raise(Error::OpError, Cause::WentWrong),
            Some(a) => {
                if 0 <= a && (a as i128) < tokens.len() as i128 {
                    Ok(Plan { code: a as usize, acc: None, ..p })
                } else {
                    raise(Error::OverflowError, Cause::CodeJump)
                }
            },
        },
        Token::JumpCellsD => match acc {
            None => raise(Error::OpError, Cause::WentWrong),
            Some(a) => match m.data.checked_add(a) {
                None => raise(Error::OverflowError, Cause::DataJump),
                Some(d) => Ok(Plan { data: d, acc: None, step: false, ..p }),
            },
        },
        _ => match acc {
            None => raise(Error::OpError, Cause::WentWrong),
            Some(a) => Ok(Plan { data: a, acc: None, step: false, ..p }),
        },
    }
}

/// Plans an instruction of one operand, a flip of the direction or a scan.
fn plan_single(m: &Machine, tokens: &Vec<Token>, input: &Input, t: Token) -> (r: Result<
    Plan,
    Fault,
>)
    requires
        m.code < tokens@.len(),
        tokens@[m.code as int] == t,
        t is FlipD || t == Token::MoveDUntilEmpty || t == Token::MoveDUntilFull || t == Token::Neg
            || t == Token::BitNot,
    ensures
        r == planned(m@, tokens@, *input),
        r matches Ok(p) ==> p.code < tokens@.len(),
{
    let acc = held(m);
    let p = rest(m);
    match t {
        Token::FlipD(_) => Ok(Plan { dir: m.dir.flipped(), ..p }),
        Token::MoveDUntilEmpty => match seek(&m.tape, m.data, m.dir, false) {
            None => raise(Error::OverflowError, Cause::DataJump),
            Some(d) => Ok(Plan { data: d, step: false, ..p }),
        },
        Token::MoveDUntilFull => match seek(&m.tape, m.data, m.dir, true) {
            None => raise(Error::OverflowError, Cause::DataJump),
            Some(d) => Ok(Plan { data: d, step: false, ..p }),
        },
        Token::Neg => match acc {
            None => raise(Error::AccumulatorError, Cause::WentWrong),
            Some(a) => match 0isize.checked_sub(a) {
                None => raise(Error::OverflowError, Cause::Overflow),
                Some(v) => Ok(Plan { acc: Some(v), ..p }),
            },
        },
        _ => match m.tape.get(m.data) {
            None => raise(Error::OpError, Cause::WentWrong),
            Some(b) => Ok(Plan { acc: Some(-1 - b), ..p }),
        },
    }
}

/// Plans the writing of the current cell as a number or as a character.
fn plan_output(m: &Machine, tokens: &Vec<Token>, input: &Input, t: Token) -> (r: Result<
    Plan,
    Fault,
>)
    requires
        m.code < tokens@.len(),
        tokens@[m.code as int] == t,
        t == Token::OutputInt || t == Token::OutputChar,
    ensures
        r == planned(m@, tokens@, *input),
        r matches Ok(p) ==> p.code < tokens@.len(),
{
    let acc = held(m);
    let p = rest(m);
    match t {
        Token::OutputInt => match m.tape.get(m.data) {
            None => raise(Error::OpError, Cause::WentWrong),
            Some(v) => Ok(Plan { written: Written::Int(v), ..p }),
        },
        _ => match m.tape.get(m.data) {
            None => raise(Error::OpError, Cause::WentWrong),
            Some(v) => {
                if 0 <= v && v <= 0x10FFFF {
                    match scalar(v as u32) {
                        Some(c) => Ok(Plan { written: Written::Char(c), ..p }),
                        None => raise(Error::OpError, Cause::NotACharacter),
                    }
                } else {
                    raise(Error::OpError, Cause::NotACharacter)
                }
            },
        },
    }
}

/// Plans the instruction under the code cursor without touching the machine.
pub fn plan(m: &Machine, tokens: &Vec<Token>, input: &Input) -> (r: Result<Plan, Fault>)
    ensures
        r == planned(m@, tokens@, *input),
        r matches Ok(p) ==> p.code < tokens@.len(),
        r matches Ok(p) ==> p.change == Change::Text ==> p.data == m.data && input is Line
            && text_of(*input).len() <= room(m.data),
        r matches Err(f) ==> f.cause == Cause::InputTooLong ==> input is Line && room(m.data)
            <= text_of(*input).len(),
{
    proof {
        lemma_lines_in_plans(m@, tokens@, *input);
    }
    if m.code >= tokens.len() {
        return raise(Error::OutOfBoundsError, Cause::CodeCursor);
    }
    let t = tokens[m.code];
    match t {
        Token::NoOp | Token::DestinationIfTrue | Token::Stop => Ok(rest(m)),
        Token::CreatingNumber | Token::Digit(_) => plan_literal(m, tokens, input, t),
        Token::Unload
        | Token::Distribute
        | Token::Recall
        | Token::Copy
        | Token::ClearAcc
        | Token::ClearCurrCell => plan_transfer(m, tokens, input, t),
        Token::ZeroOrEmpty
        | Token::NotZeroOrEmpty
        | Token::TgtZeroOrEmpty
        | Token::TgtNotZeroOrEmpty
        | Token::AccZeroOrEmpty
        | Token::AccNotZeroOrEmpty => branch(m, tokens, t),
        Token::JumpCellsC | Token::JumpToCellC | Token::JumpCellsD | Token::JumpToCellD => plan_jump(
            m,
            tokens,
            input,
            t,
        ),
        Token::FlipD(_)
        | Token::MoveDUntilEmpty
        | Token::MoveDUntilFull
        | Token::Neg
        | Token::BitNot => plan_single(m, tokens, input, t),
        Token::OutputInt | Token::OutputChar => plan_output(m, tokens, input, t),
        Token::InputInt | Token::InputStr => receive(m, t, input),
        _ => operate(m, t),
    }
}

/// Writes the first `n` characters of `line` to the cells from `at` upwards.
fn inscribe(tape: &mut Tape, at: isize, line: &Vec<char>, n: usize)
    requires
        n <= line@.len(),
        n <= room(at),
    ensures
        final(tape)@ == inscribed(old(tape)@, at as int, line@.take(n as int)),
{
    let mut i: usize = 0;
    assert(tape@ =~= inscribed(tape@, at as int, line@.take(0)));
    while i < n
        invariant
            i <= n <= line@.len(),
            n <= room(at),
            tape@ == inscribed(old(tape)@, at as int, line@.take(i as int)),
        decreases n - i,
    {
        let c = line[i];
        let addr: isize = (at as i128 + i as i128) as isize;
        tape.set(addr, (c as u32) as isize);
        i += 1;
        assert(tape@ =~= inscribed(old(tape)@, at as int, line@.take(i as int)));
    }
}

/// Runs one cycle: fetches the instruction under the code cursor, carries it
/// out, checks that both cursors can advance, and advances them. `input` is
/// what the host read for an instruction that reads a line; such an
/// instruction asks for it when it is absent, and any other instruction
/// ignores it. The host writes what the report says was written, and goes on
/// to the next cycle only while the status is `Running`. Where a cursor
/// cannot advance, the machine holds what the instruction did; the report
/// names the instruction that was fetched, for a state report.
pub fn execute(m: &mut Machine, tokens: &Vec<Token>, input: &Input) -> (r: Report)
    ensures
        (final(m)@, r) == cycle(old(m)@, tokens@, *input),
{
    if m.code >= tokens.len() {
        return Report {
            written: Written::Nothing,
            status: Status::Faulted(
                Fault { kind: Error::OutOfBoundsError, cause: Cause::CodeCursor },
            ),
            current: None,
        };
    }
    let t = tokens[m.code];
    let waits = match t {
        Token::InputInt | Token::InputStr => match input {
            Input::Absent => true,
            _ => false,
        },
        _ => false,
    };
    match t {
        Token::Stop => {
            return Report {
                written: Written::Nothing,
                status: Status::Stopped,
                current: Some(t),
            };
        },
        _ => {},
    }
    if waits {
        return Report {
            written: Written::Nothing,
            status: Status::AwaitsLine,
            current: Some(t),
        };
    }
    let p = match plan(m, tokens, input) {
        Ok(p) => p,
        Err(f) => {
            match f.cause {
                Cause::InputTooLong => {
                    if let Input::Line(line) = input {
                        let n = text_len(line);
                        assert(text_of(*input) == line@.take(n as int));
                        assert(room(m.data) <= n);
                        let fits: usize = (isize::MAX as i128 - m.data as i128 + 1) as usize;
                        assert(line@.take(fits as int) =~= line@.take(n as int).take(fits as int));
                        inscribe(&mut m.tape, m.data, line, fits);
                    }
                },
                _ => {},
            }
            return Report {
                written: Written::Nothing,
                status: Status::Faulted(f),
                current: Some(t),
            };
        },
    };
    match p.change {
        Change::Keep => {},
        Change::Store(v) => {
            m.tape.set(m.data, v);
        },
        Change::Erase => {
            m.tape.clear(m.data);
        },
        Change::Text => {
            if let Input::Line(line) = input {
                let n = text_len(line);
                inscribe(&mut m.tape, m.data, line, n);
            }
        },
    }
    match p.acc {
        Some(v) => {
            m.acc.set_value(v);
        },
        None => {
            m.acc.clear();
        },
    }
    m.code = p.code;
    m.data = p.data;
    m.dir = p.dir;
    m.building = p.building;
    if p.code + 1 >= tokens.len() {
        return Report {
            written: p.written,
            status: Status::Faulted(
                Fault { kind: Error::OutOfBoundsError, cause: Cause::CodeCursor },
            ),
            current: Some(t),
        };
    }
    let next = if p.step {
        match p.dir {
            Direction::Positive => p.data.checked_add(1),
            Direction::Negative => p.data.checked_sub(1),
        }
    } else {
        Some(p.data)
    };
    let data = match next {
        Some(d) => d,
        None => {
            return Report {
                written: p.written,
                status: Status::Faulted(
                    Fault { kind: Error::OutOfBoundsError, cause: Cause::DataCursor },
                ),
                current: Some(t),
            };
        },
    };
    m.code = p.code + 1;
    m.data = data;
    m.last = Some(t);
    Report { written: p.written, status: Status::Running, current: Some(t) }
}

/// A cycle on a binary instruction faults with an operation error unless
/// the cell below and the current cell are both full, and with an
/// accumulator error when they are, the divisor is in order and the
/// accumulator is full; these faults and an overflow leave the state as it
/// was. Otherwise the accumulator holds the value that the two cells
/// determine, also where the cycle then faults because a cursor cannot
/// advance. The tape is never changed.
pub proof fn lemma_binary_cycle(s: State, tokens: Seq<Token>, input: Input)
    requires
        s.code < tokens.len(),
        is_binary(tokens[s.code as int]),
    ensures
        ({
            let t = tokens[s.code as int];
            let a = cell(s.cells, s.data - 1);
            let b = cell(s.cells, s.data as int);
            let (next, r) = cycle(s, tokens, input);
            let by_zero = (t == Token::Div || t == Token::Mod) && b == Some(0isize);
            let ready = a.is_some() && b.is_some() && !by_zero && s.acc.is_none();
            &&& next.cells == s.cells
            &&& r.written == Written::Nothing
            &&& a.is_none() || b.is_none() ==> next == s && r.status == Status::Faulted(
                Fault { kind: Error::OpError, cause: Cause::WentWrong },
            )
            &&& a.is_some() && b.is_some() && by_zero ==> next == s && r.status == Status::Faulted(
                Fault { kind: Error::OpError, cause: Cause::DivisionByZero },
            )
            &&& a.is_some() && b.is_some() && !by_zero && s.acc.is_some() ==> next == s && r.status
                == Status::Faulted(Fault { kind: Error::AccumulatorError, cause: Cause::WentWrong })
            &&& ready && binary(t, a.unwrap(), b.unwrap()).is_none() ==> next == s && r.status
                == Status::Faulted(Fault { kind: Error::OverflowError, cause: Cause::Overflow })
            &&& ready && binary(t, a.unwrap(), b.unwrap()).is_some() ==> {
                &&& next.acc == binary(t, a.unwrap(), b.unwrap())
                &&& r.status == (if s.code + 1 >= tokens.len() {
                    Status::Faulted(
                        Fault { kind: Error::OutOfBoundsError, cause: Cause::CodeCursor },
                    )
                } else if !(isize::MIN <= s.data + s.dir.delta() <= isize::MAX) {
                    Status::Faulted(
                        Fault { kind: Error::OutOfBoundsError, cause: Cause::DataCursor },
                    )
                } else {
                    Status::Running
                })
            }
        }),
{
}

/// A cycle on a conditional that is taken moves the code cursor to the
/// matching close and then past it, and faults with a syntax error when
/// there is none; where the close is the last instruction, the cursor stays
/// on it and the cycle faults. A conditional that is not taken falls through
/// to the next instruction. The tape is never changed.
pub proof fn lemma_conditional_cycle(s: State, tokens: Seq<Token>, input: Input, d: int)
    requires
        s.code < tokens.len() <= usize::MAX,
        opens(tokens[s.code as int]),
        targets(tokens[s.code as int]) ==> s.acc.is_some(),
    ensures
        ({
            let t = tokens[s.code as int];
            let (next, r) = cycle(s, tokens, input);
            let steps = isize::MIN <= s.data + s.dir.delta() <= isize::MAX;
            &&& taken(t, s) && never_closes(tokens, s.code as int) ==> r.status == Status::Faulted(
                Fault { kind: Error::SyntaxError, cause: Cause::Unmatched },
            )
            &&& taken(t, s) && closes_at(tokens, s.code as int, d) && d + 1 < tokens.len() && steps
                ==> r.status == Status::Running && next.code == d + 1
            &&& taken(t, s) && closes_at(tokens, s.code as int, d) && d + 1 >= tokens.len()
                ==> r.status == Status::Faulted(
                Fault { kind: Error::OutOfBoundsError, cause: Cause::CodeCursor },
            ) && next.code == d
            &&& !taken(t, s) && s.code + 1 < tokens.len() && steps ==> r.status == Status::Running
                && next.code == s.code + 1
            &&& next.cells == s.cells
        }),
{
    let from = s.code as int;
    if closes_at(tokens, from, d) {
        let c = choose|c: int| closes_at(tokens, from, c);
        lemma_close_is_unique(tokens, from, c, d);
    }
    if never_closes(tokens, from) {
        assert forall|c: int| !closes_at(tokens, from, c) by {
            if closes_at(tokens, from, c) {
                assert(depth(tokens, from, c) != 0);
            }
        }
    }
}

/// Copying a full cell puts its value into the accumulator and leaves the
/// cell as it is; recalling the cell afterwards, from any state with the
/// same tape and the data cursor back on the cell, gives the same value
/// once more and leaves the cell empty.
pub proof fn lemma_copy_then_recall(
    s: State,
    tokens: Seq<Token>,
    later: State,
    later_tokens: Seq<Token>,
    input: Input,
)
    requires
        s.code + 1 < tokens.len(),
        tokens[s.code as int] == Token::Copy,
        cell(s.cells, s.data as int).is_some(),
        isize::MIN <= s.data + s.dir.delta() <= isize::MAX,
        later.cells == cycle(s, tokens, input).0.cells,
        later.data == s.data,
        later.code + 1 < later_tokens.len(),
        later_tokens[later.code as int] == Token::Recall,
        isize::MIN <= later.data + later.dir.delta() <= isize::MAX,
    ensures
        ({
            let v = cell(s.cells, s.data as int);
            let (copied, r1) = cycle(s, tokens, input);
            let (recalled, r2) = cycle(later, later_tokens, input);
            &&& r1.status == Status::Running
            &&& copied.acc == v
            &&& copied.cells == s.cells
            &&& r2.status == Status::Running
            &&& recalled.acc == v
            &&& cell(recalled.cells, s.data as int).is_none()
            &&& recalled.cells == s.cells.remove(s.data)
        }),
{
}

/// What holds of every cycle. It reports the instruction under the code
/// cursor as fetched and writes nothing unless that is an output. A stop, a
/// wait for a line and a fault of the instruction itself leave the state as
/// it was, but for the tape under a line too long. A fault of a cursor
/// leaves the code cursor inside the sequence and the last instruction as
/// it was. A cycle that runs to its end leaves the code cursor inside the
/// sequence, records its instruction, keeps the literal flag up only on a
/// literal's begin and digits, turns the direction only on a flip, and moves
/// the data cursor by one step of the new direction or not at all.
pub proof fn lemma_cycle_keeps_order(s: State, tokens: Seq<Token>, input: Input)
    requires
        tokens.len() <= usize::MAX,
    ensures
        ({
            let (next, r) = cycle(s, tokens, input);
            let t = tokens[s.code as int];
            &&& r.current == (if s.code < tokens.len() {
                Some(t)
            } else {
                None
            })
            &&& r.status != Status::Running ==> next.last == s.last
            &&& r.status == Status::Stopped || r.status == Status::AwaitsLine || s.code
                >= tokens.len() ==> next == s
            &&& r.status matches Status::Faulted(f) ==> {
                &&& f.cause != Cause::CodeCursor && f.cause != Cause::DataCursor && f.cause
                    != Cause::InputTooLong ==> next == s
                &&& f.cause == Cause::InputTooLong ==> next == refused(s, f, input)
                &&& (f.cause == Cause::CodeCursor || f.cause == Cause::DataCursor) && s.code
                    < tokens.len() ==> next.code < tokens.len() && planned(s, tokens, input) is Ok
                    && next == applied(s, planned(s, tokens, input).unwrap(), input)
            }
            &&& r.written != Written::Nothing ==> s.code < tokens.len() && (t == Token::OutputInt
                || t == Token::OutputChar)
            &&& r.status == Status::Running ==> {
                &&& s.code < tokens.len()
                &&& next.code < tokens.len()
                &&& next.last == Some(t)
                &&& next.building == (t == Token::CreatingNumber || t is Digit)
                &&& next.dir == (if t is FlipD {
                    s.dir.opposite()
                } else {
                    s.dir
                })
                &&& (t == Token::CreatingNumber || t is Digit || reads_line(t)) ==> next.data
                    == s.data
                &&& (t == Token::CreatingNumber || t is Digit || reads_line(t) || t
                    == Token::JumpCellsD || t == Token::JumpToCellD || t == Token::MoveDUntilEmpty
                    || t == Token::MoveDUntilFull) || next.data == s.data + next.dir.delta()
            }
        }),
{
    if s.code < tokens.len() && opens(tokens[s.code as int]) {
        let from = s.code as int;
        if exists|d: int| closes_at(tokens, from, d) {
            let c = choose|d: int| closes_at(tokens, from, d);
            assert(c < tokens.len());
        }
    }
}

/// The state after `n` cycles that were given no input.
pub open spec fn after(s: State, tokens: Seq<Token>, n: nat) -> State
    decreases n,
{
    if n == 0 {
        s
    } else {
        cycle(after(s, tokens, (n - 1) as nat), tokens, Input::Absent).0
    }
}

/// A literal builds its number: from a state with an empty accumulator and
/// no literal under way, the begin of a literal and the decimal digits after
/// it leave the accumulator holding the number that the digits spell in base
/// ten, as long as that number is in the signed range. The data cursor and
/// the tape stay as they were.
pub proof fn lemma_literal_cycles(s: State, tokens: Seq<Token>, digits: Seq<isize>)
    requires
        s.code + digits.len() + 1 < tokens.len() <= usize::MAX,
        tokens[s.code as int] == Token::CreatingNumber,
        forall|i: int|
            0 <= i < digits.len() ==> tokens[s.code + 1 + i] == Token::Digit(#[trigger] digits[i]),
        decimal_digits(digits),
        base_ten(digits) <= isize::MAX,
        !s.building,
        s.acc.is_none(),
    ensures
        after(s, tokens, digits.len() + 1) == (State {
            code: (s.code + 1 + digits.len()) as usize,
            building: true,
            acc: if digits.len() == 0 {
                None
            } else {
                Some(base_ten(digits) as isize)
            },
            last: if digits.len() == 0 {
                Some(Token::CreatingNumber)
            } else {
                Some(Token::Digit(digits.last()))
            },
            ..s
        }),
    decreases digits.len(),
{
    if digits.len() == 0 {
        assert(after(s, tokens, 0) == s);
        assert(after(s, tokens, 1) == cycle(s, tokens, Input::Absent).0);
    } else {
        let front = digits.drop_last();
        assert(decimal_digits(front)) by {
            assert forall|i: int| 0 <= i < front.len() implies 0 <= #[trigger] front[i] <= 9 by {
                assert(front[i] == digits[i]);
            }
        }
        assert forall|i: int| 0 <= i < front.len() implies tokens[s.code + 1 + i] == Token::Digit(
            #[trigger] front[i],
        ) by {
            assert(front[i] == digits[i]);
        }
        assert(0 <= digits.last() <= 9);
        if front.len() > 0 {
            lemma_literal_is_base_ten(front);
        }
        assert(base_ten(front) >= 0);
        lemma_literal_cycles(s, tokens, front);
        let before = after(s, tokens, (front.len() + 1) as nat);
        assert(after(s, tokens, digits.len() + 1) == cycle(before, tokens, Input::Absent).0);
        assert(tokens[before.code as int] == Token::Digit(digits.last()));
    }
}

} // verus!
