use crate::errors::Error;
use crate::lexer::Token;
use crate::memory::{cell, Acc, Tape};
use vstd::prelude::*;

verus! {

/// The way the data cursor moves when a cycle advances it.
#[derive(Debug, Clone, Copy, PartialEq, Eq, Structural)]
pub enum Direction {
    Positive,
    Negative,
}

impl Direction {
    /// The signed step of one move: `+1` or `-1`.
    pub open spec fn delta(self) -> int {
        match self {
            Direction::Positive => 1,
            Direction::Negative => -1,
        }
    }

    pub open spec fn opposite(self) -> Direction {
        match self {
            Direction::Positive => Direction::Negative,
            Direction::Negative => Direction::Positive,
        }
    }

    pub fn flipped(self) -> (d: Direction)
        ensures
            d == self.opposite(),
            d.delta() == -self.delta(),
    {
        match self {
            Direction::Positive => Direction::Negative,
            Direction::Negative => Direction::Positive,
        }
    }
}

/// What a fault was about, next to its category. Together with the
/// instruction under the code cursor it determines the message.
#[derive(Debug, Clone, Copy, PartialEq, Eq, Structural)]
pub enum Cause {
    /// A literal was begun while one was being built.
    AlreadyCreatingNumber,
    /// The instruction found the accumulator, a cell or the literal flag in
    /// the wrong state.
    WentWrong,
    /// A conditional that was taken has no matching close.
    Unmatched,
    DivisionByZero,
    /// A digit or an arithmetic instruction left the signed range.
    Overflow,
    /// A code jump aimed outside the instruction sequence.
    CodeJump,
    /// A data jump or a scan left the range of addresses.
    DataJump,
    /// The cell's value is no Unicode scalar value.
    NotACharacter,
    InvalidInput,
    InputTooLong,
    /// The code cursor is, or would step, outside the instruction sequence.
    CodeCursor,
    /// The data cursor would step outside the range of addresses.
    DataCursor,
}

#[derive(Debug, Clone, Copy, PartialEq, Eq, Structural)]
pub struct Fault {
    pub kind: Error,
    pub cause: Cause,
}

/// What a cycle asks the host to write to standard output.
#[derive(Debug, Clone, Copy, PartialEq, Eq, Structural)]
pub enum Written {
    Nothing,
    Int(isize),
    Char(char),
}

/// How a cycle ended.
#[derive(Debug, Clone, Copy, PartialEq, Eq, Structural)]
pub enum Status {
    /// The cycle is done and the cursors have advanced.
    Running,
    /// The instruction was `Stop`. The machine is as it was.
    Stopped,
    /// The instruction reads a line and none was given. The machine is as it
    /// was; the host reads a line and runs the cycle again with it.
    AwaitsLine,
    /// The run is over. Where the instruction itself raised the fault, the
    /// machine is as it was before the cycle, but for a line that was too
    /// long, whose characters are on the tape as far as the addresses go.
    /// Where a cursor could not advance, the instruction has done its work
    /// and the cursors stand where it left them.
    Faulted(Fault),
}

#[derive(Debug, Clone, Copy, PartialEq, Eq, Structural)]
pub struct Report {
    pub written: Written,
    pub status: Status,
    /// The instruction that the cycle fetched; none where the code cursor
    /// stood outside the sequence.
    pub current: Option<Token>,
}

/// What the host hands to a cycle: nothing, a line read from standard input
/// (with its terminator, if it had one), or the news that reading failed.
#[derive(Debug)]
pub enum Input {
    Absent,
    Unreadable,
    Line(Vec<char>),
}

/// What a cycle does to the cell under the data cursor.
#[derive(Debug, Clone, Copy, PartialEq, Eq, Structural)]
pub enum Change {
    Keep,
    Store(isize),
    Erase,
    /// The line's characters go to this cell and the cells above it.
    Text,
}

/// The effect of one instruction before the cursors advance.
#[derive(Debug, Clone, Copy, PartialEq, Eq, Structural)]
pub struct Plan {
    pub code: usize,
    pub data: isize,
    pub dir: Direction,
    pub building: bool,
    pub acc: Option<isize>,
    pub change: Change,
    /// Whether the data cursor takes its step at the end of the cycle.
    pub step: bool,
    pub written: Written,
}

/// The mathematical state of a machine.
pub struct State {
    pub code: usize,
    pub data: isize,
    pub dir: Direction,
    pub building: bool,
    pub acc: Option<isize>,
    pub cells: Map<isize, isize>,
    pub last: Option<Token>,
}

/// The execution context of one run.
pub struct Machine {
    /// Index of the instruction to execute next.
    pub code: usize,
    /// Address of the current cell.
    pub data: isize,
    pub dir: Direction,
    /// True only between a literal's begin and its last digit.
    pub building: bool,
    pub acc: Acc,
    pub tape: Tape,
    /// The instruction of the last cycle that ran to its end.
    pub last: Option<Token>,
}

impl Machine {
    pub open spec fn view(&self) -> State {
        State {
            code: self.code,
            data: self.data,
            dir: self.dir,
            building: self.building,
            acc: self.acc@,
            cells: self.tape@,
            last: self.last,
        }
    }

    /// A machine at the start of a run: cursors at zero, direction positive,
    /// accumulator and tape empty.
    pub fn new() -> (m: Machine)
        ensures
            m@ == (State {
                code: 0,
                data: 0,
                dir: Direction::Positive,
                building: false,
                acc: None,
                cells: Map::empty(),
                last: None,
            }),
    {
        Machine {
            code: 0,
            data: 0,
            dir: Direction::Positive,
            building: false,
            acc: Acc::new(),
            tape: Tape::new(),
            last: None,
        }
    }
}

/// What a state report shows of a machine.
#[derive(Debug, Clone, Copy, PartialEq, Eq)]
pub struct Details {
    pub acc: Option<isize>,
    pub code: usize,
    pub data: isize,
    pub dir: Direction,
    /// The instruction that the last cycle fetched, if it fetched one.
    pub current: Option<Token>,
    /// The instruction of the last cycle that ran to its end.
    pub previous: Option<Token>,
    /// The current cell.
    pub cell: Option<isize>,
    /// The cell one address below; `Err` when there is no such address.
    pub left: Result<Option<isize>, ()>,
}

/// The report of state `s` after a cycle that fetched `current`.
pub open spec fn details_of(s: State, current: Option<Token>) -> Details {
    Details {
        acc: s.acc,
        code: s.code,
        data: s.data,
        dir: s.dir,
        current,
        previous: s.last,
        cell: cell(s.cells, s.data as int),
        left: if s.data > isize::MIN {
            Ok(cell(s.cells, s.data - 1))
        } else {
            Err(())
        },
    }
}

impl Machine {
    /// Gathers what a state report shows after a cycle that fetched
    /// `current`, as the cycle's report names it.
    pub fn details(&self, current: Option<Token>) -> (d: Details)
        ensures
            d == details_of(self@, current),
    {
        Details {
            acc: match self.acc.get_value() {
                Ok(v) => Some(v),
                Err(_) => None,
            },
            code: self.code,
            data: self.data,
            dir: self.dir,
            current,
            previous: self.last,
            cell: self.tape.get(self.data),
            left: self.tape.left_of(self.data),
        }
    }
}

} // verus!
