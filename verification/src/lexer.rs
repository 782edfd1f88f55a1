use crate::errors::Error;
use vstd::prelude::*;

verus! {

/// One instruction. `Digit` carries its decimal value; the flag of `FlipD`,
/// `NotEq`, `GE` and `LE` records whether the upper-case spelling was used and
/// changes nothing but how the instruction is shown.
#[derive(Debug, Clone, Copy, PartialEq, Eq, Structural)]
pub enum Token {
    NoOp,
    Stop,
    CreatingNumber,
    Digit(isize),
    Unload,
    Distribute,
    Recall,
    Copy,
    ClearAcc,
    ClearCurrCell,
    ZeroOrEmpty,
    NotZeroOrEmpty,
    TgtZeroOrEmpty,
    TgtNotZeroOrEmpty,
    AccZeroOrEmpty,
    AccNotZeroOrEmpty,
    DestinationIfTrue,
    JumpCellsC,
    JumpToCellC,
    JumpCellsD,
    JumpToCellD,
    FlipD(bool),
    MoveDUntilEmpty,
    MoveDUntilFull,
    Add,
    Neg,
    Mul,
    Div,
    Mod,
    Eq,
    NotEq(bool),
    Gt,
    GE(bool),
    Lt,
    LE(bool),
    BitAnd,
    BitOr,
    BitNot,
    BitXor,
    OutputInt,
    OutputChar,
    InputInt,
    InputStr,
}

/// Why a source text has no instruction sequence.
#[derive(Debug, Clone, Copy, PartialEq, Eq, Structural)]
pub enum LexError {
    /// `symbol` stands at `index` of the text left after comments and
    /// whitespace are gone, and is no instruction.
    UnknownSymbol { symbol: char, index: usize },
    /// The pattern for comments and whitespace was not accepted.
    Pattern,
}

impl LexError {
    /// The category under which the fault is reported.
    pub fn kind(&self) -> (k: Error)
        ensures
            k == (match *self {
                LexError::UnknownSymbol { .. } => Error::UnknownSymbolError,
                LexError::Pattern => Error::FileError,
            }),
    {
        match self {
            LexError::UnknownSymbol { .. } => Error::UnknownSymbolError,
            LexError::Pattern => Error::FileError,
        }
    }
}

/// The pattern of what a source text may hold besides instructions: a comment
/// between two backticks, as short as possible, or a run of whitespace.
pub const IGNORED: &'static str = "`(.|\\s)*?`|\\s*";

/// A token is well formed when a digit's value is a decimal digit.
pub open spec fn well_formed(t: Token) -> bool {
    t matches Token::Digit(n) ==> 0 <= n <= 9
}

/// The symbol table, read from character to instruction.
pub open spec fn token_of(c: char) -> Option<Token> {
    if '0' <= c <= '9' {
        Some(Token::Digit((c as u32 - '0' as u32) as isize))
    } else if c == '_' {
        Some(Token::NoOp)
    } else if c == '.' {
        Some(Token::Stop)
    } else if c == '#' {
        Some(Token::CreatingNumber)
    } else if c == 'U' {
        Some(Token::Unload)
    } else if c == 'u' {
        Some(Token::Distribute)
    } else if c == 'R' {
        Some(Token::Recall)
    } else if c == 'r' {
        Some(Token::Copy)
    } else if c == 'C' {
        Some(Token::ClearAcc)
    } else if c == 'c' {
        Some(Token::ClearCurrCell)
    } else if c == '?' {
        Some(Token::ZeroOrEmpty)
    } else if c == '!' {
        Some(Token::NotZeroOrEmpty)
    } else if c == 'T' {
        Some(Token::TgtZeroOrEmpty)
    } else if c == 't' {
        Some(Token::TgtNotZeroOrEmpty)
    } else if c == 'A' {
        Some(Token::AccZeroOrEmpty)
    } else if c == 'a' {
        Some(Token::AccNotZeroOrEmpty)
    } else if c == '@' {
        Some(Token::DestinationIfTrue)
    } else if c == 'J' {
        Some(Token::JumpCellsC)
    } else if c == 'j' {
        Some(Token::JumpToCellC)
    } else if c == 'K' {
        Some(Token::JumpCellsD)
    } else if c == 'k' {
        Some(Token::JumpToCellD)
    } else if c == 'F' || c == 'f' {
        Some(Token::FlipD(c == 'F'))
    } else if c == 'M' {
        Some(Token::MoveDUntilEmpty)
    } else if c == 'm' {
        Some(Token::MoveDUntilFull)
    } else if c == '+' {
        Some(Token::Add)
    } else if c == '-' {
        Some(Token::Neg)
    } else if c == '*' {
        Some(Token::Mul)
    } else if c == '/' {
        Some(Token::Div)
    } else if c == '%' {
        Some(Token::Mod)
    } else if c == '=' {
        Some(Token::Eq)
    } else if c == 'N' || c == 'n' {
        Some(Token::NotEq(c == 'N'))
    } else if c == '>' {
        Some(Token::Gt)
    } else if c == 'G' || c == 'g' {
        Some(Token::GE(c == 'G'))
    } else if c == '<' {
        Some(Token::Lt)
    } else if c == 'L' || c == 'l' {
        Some(Token::LE(c == 'L'))
    } else if c == '&' {
        Some(Token::BitAnd)
    } else if c == '|' {
        Some(Token::BitOr)
    } else if c == '~' {
        Some(Token::BitNot)
    } else if c == '^' {
        Some(Token::BitXor)
    } else if c == 'i' {
        Some(Token::OutputInt)
    } else if c == 's' {
        Some(Token::OutputChar)
    } else if c == 'I' {
        Some(Token::InputInt)
    } else if c == 'S' {
        Some(Token::InputStr)
    } else {
        None
    }
}

/// Reads one character by the symbol table.
pub fn decode(c: char) -> (r: Option<Token>)
    ensures
        r == token_of(c),
        r matches Some(t) ==> well_formed(t),
{
    if '0' <= c && c <= '9' {
        let value: u32 = c as u32 - '0' as u32;
        Some(Token::Digit(value as isize))
    } else if c == '_' {
        Some(Token::NoOp)
    } else if c == '.' {
        Some(Token::Stop)
    } else if c == '#' {
        Some(Token::CreatingNumber)
    } else if c == 'U' {
        Some(Token::Unload)
    } else if c == 'u' {
        Some(Token::Distribute)
    } else if c == 'R' {
        Some(Token::Recall)
    } else if c == 'r' {
        Some(Token::Copy)
    } else if c == 'C' {
        Some(Token::ClearAcc)
    } else if c == 'c' {
        Some(Token::ClearCurrCell)
    } else if c == '?' {
        Some(Token::ZeroOrEmpty)
    } else if c == '!' {
        Some(Token::NotZeroOrEmpty)
    } else if c == 'T' {
        Some(Token::TgtZeroOrEmpty)
    } else if c == 't' {
        Some(Token::TgtNotZeroOrEmpty)
    } else if c == 'A' {
        Some(Token::AccZeroOrEmpty)
    } else if c == 'a' {
        Some(Token::AccNotZeroOrEmpty)
    } else if c == '@' {
        Some(Token::DestinationIfTrue)
    } else if c == 'J' {
        Some(Token::JumpCellsC)
    } else if c == 'j' {
        Some(Token::JumpToCellC)
    } else if c == 'K' {
        Some(Token::JumpCellsD)
    } else if c == 'k' {
        Some(Token::JumpToCellD)
    } else if c == 'F' {
        Some(Token::FlipD(true))
    } else if c == 'f' {
        Some(Token::FlipD(false))
    } else if c == 'M' {
        Some(Token::MoveDUntilEmpty)
    } else if c == 'm' {
        Some(Token::MoveDUntilFull)
    } else if c == '+' {
        Some(Token::Add)
    } else if c == '-' {
        Some(Token::Neg)
    } else if c == '*' {
        Some(Token::Mul)
    } else if c == '/' {
        Some(Token::Div)
    } else if c == '%' {
        Some(Token::Mod)
    } else if c == '=' {
        Some(Token::Eq)
    } else if c == 'N' {
        Some(Token::NotEq(true))
    } else if c == 'n' {
        Some(Token::NotEq(false))
    } else if c == '>' {
        Some(Token::Gt)
    } else if c == 'G' {
        Some(Token::GE(true))
    } else if c == 'g' {
        Some(Token::GE(false))
    } else if c == '<' {
        Some(Token::Lt)
    } else if c == 'L' {
        Some(Token::LE(true))
    } else if c == 'l' {
        Some(Token::LE(false))
    } else if c == '&' {
        Some(Token::BitAnd)
    } else if c == '|' {
        Some(Token::BitOr)
    } else if c == '~' {
        Some(Token::BitNot)
    } else if c == '^' {
        Some(Token::BitXor)
    } else if c == 'i' {
        Some(Token::OutputInt)
    } else if c == 's' {
        Some(Token::OutputChar)
    } else if c == 'I' {
        Some(Token::InputInt)
    } else if c == 'S' {
        Some(Token::InputStr)
    } else {
        None
    }
}

/// Whether `r` is the reading of `stream`, a text without comments and
/// whitespace: the instruction of each character in order where every
/// character has one, and otherwise the first character that has none, with
/// its position counted from zero.
pub open spec fn reads_as(stream: Seq<char>, r: Result<Vec<Token>, LexError>) -> bool {
    match r {
        Ok(tokens) => {
            &&& tokens@.len() == stream.len()
            &&& forall|i: int|
                #![trigger tokens@[i]]
                #![trigger stream[i]]
                0 <= i < stream.len() ==> token_of(stream[i]) == Some(tokens@[i])
        },
        Err(LexError::UnknownSymbol { symbol, index }) => {
            &&& index < stream.len()
            &&& stream[index as int] == symbol
            &&& token_of(symbol).is_none()
            &&& forall|j: int| 0 <= j < index ==> (#[trigger] token_of(stream[j])).is_some()
        },
        Err(LexError::Pattern) => false,
    }
}

/// Reads a text that holds instructions only, strictly from left to right.
pub fn scan(stream: &Vec<char>) -> (r: Result<Vec<Token>, LexError>)
    ensures
        reads_as(stream@, r),
        r matches Ok(tokens) ==> forall|i: int|
            0 <= i < tokens@.len() ==> well_formed(#[trigger] tokens@[i]),
{
    let mut tokens: Vec<Token> = Vec::new();
    let mut index: usize = 0;
    while index < stream.len()
        invariant
            index <= stream@.len(),
            tokens@.len() == index,
            forall|i: int| 0 <= i < index ==> token_of(stream@[i]) == Some(#[trigger] tokens@[i]),
            forall|i: int| 0 <= i < index ==> well_formed(#[trigger] tokens@[i]),
            forall|j: int| 0 <= j < index ==> (#[trigger] token_of(stream@[j])).is_some(),
        decreases stream@.len() - index,
    {
        let c = stream[index];
        match decode(c) {
            Some(t) => tokens.push(t),
            None => {
                return Err(LexError::UnknownSymbol { symbol: c, index });
            },
        }
        index += 1;
    }
    Ok(tokens)
}

/// The symbol table, read from instruction to text: the one character that
/// spells the instruction, and nothing for a digit that is no decimal digit.
pub open spec fn symbol_of(t: Token) -> Seq<char> {
    match t {
        Token::NoOp => seq!['_'],
        Token::Stop => seq!['.'],
        Token::CreatingNumber => seq!['#'],
        Token::Digit(n) => if 0 <= n <= 9 {
            seq![('0' as u32 + n) as char]
        } else {
            Seq::empty()
        },
        Token::Unload => seq!['U'],
        Token::Distribute => seq!['u'],
        Token::Recall => seq!['R'],
        Token::Copy => seq!['r'],
        Token::ClearAcc => seq!['C'],
        Token::ClearCurrCell => seq!['c'],
        Token::ZeroOrEmpty => seq!['?'],
        Token::NotZeroOrEmpty => seq!['!'],
        Token::TgtZeroOrEmpty => seq!['T'],
        Token::TgtNotZeroOrEmpty => seq!['t'],
        Token::AccZeroOrEmpty => seq!['A'],
        Token::AccNotZeroOrEmpty => seq!['a'],
        Token::DestinationIfTrue => seq!['@'],
        Token::JumpCellsC => seq!['J'],
        Token::JumpToCellC => seq!['j'],
        Token::JumpCellsD => seq!['K'],
        Token::JumpToCellD => seq!['k'],
        Token::FlipD(upper) => if upper {
            seq!['F']
        } else {
            seq!['f']
        },
        Token::MoveDUntilEmpty => seq!['M'],
        Token::MoveDUntilFull => seq!['m'],
        Token::Add => seq!['+'],
        Token::Neg => seq!['-'],
        Token::Mul => seq!['*'],
        Token::Div => seq!['/'],
        Token::Mod => seq!['%'],
        Token::Eq => seq!['='],
        Token::NotEq(upper) => if upper {
            seq!['N']
        } else {
            seq!['n']
        },
        Token::Gt => seq!['>'],
        Token::GE(upper) => if upper {
            seq!['G']
        } else {
            seq!['g']
        },
        Token::Lt => seq!['<'],
        Token::LE(upper) => if upper {
            seq!['L']
        } else {
            seq!['l']
        },
        Token::BitAnd => seq!['&'],
        Token::BitOr => seq!['|'],
        Token::BitNot => seq!['~'],
        Token::BitXor => seq!['^'],
        Token::OutputInt => seq!['i'],
        Token::OutputChar => seq!['s'],
        Token::InputInt => seq!['I'],
        Token::InputStr => seq!['S'],
    }
}

/// What stands for a missing instruction where instructions are shown.
pub open spec fn no_symbol() -> Seq<char> {
    seq!['<', 'n', 'o', 'n', 'e', '>']
}

/// The text that shows an instruction, or that none is there.
pub fn token_to_symbol(token: Option<&Token>) -> (s: &'static str)
    ensures
        s@ == (match token {
            Some(t) => symbol_of(*t),
            None => no_symbol(),
        }),
{
    let s = match token {
        Some(Token::NoOp) => {
            proof {
                reveal_strlit("_");
            }
            "_"
        },
        Some(Token::Stop) => {
            proof {
                reveal_strlit(".");
            }
            "."
        },
        Some(Token::CreatingNumber) => {
            proof {
                reveal_strlit("#");
            }
            "#"
        },
        Some(Token::Digit(n)) => {
            let n: isize = *n;
            if n == 0 {
                proof {
                    reveal_strlit("0");
                }
                "0"
            } else if n == 1 {
                proof {
                    reveal_strlit("1");
                }
                "1"
            } else if n == 2 {
                proof {
                    reveal_strlit("2");
                }
                "2"
            } else if n == 3 {
                proof {
                    reveal_strlit("3");
                }
                "3"
            } else if n == 4 {
                proof {
                    reveal_strlit("4");
                }
                "4"
            } else if n == 5 {
                proof {
                    reveal_strlit("5");
                }
                "5"
            } else if n == 6 {
                proof {
                    reveal_strlit("6");
                }
                "6"
            } else if n == 7 {
                proof {
                    reveal_strlit("7");
                }
                "7"
            } else if n == 8 {
                proof {
                    reveal_strlit("8");
                }
                "8"
            } else if n == 9 {
                proof {
                    reveal_strlit("9");
                }
                "9"
            } else {
                proof {
                    reveal_strlit("");
                }
                ""
            }
        },
        Some(Token::Unload) => {
            proof {
                reveal_strlit("U");
            }
            "U"
        },
        Some(Token::Distribute) => {
            proof {
                reveal_strlit("u");
            }
            "u"
        },
        Some(Token::Recall) => {
            proof {
                reveal_strlit("R");
            }
            "R"
        },
        Some(Token::Copy) => {
            proof {
                reveal_strlit("r");
            }
            "r"
        },
        Some(Token::ClearAcc) => {
            proof {
                reveal_strlit("C");
            }
            "C"
        },
        Some(Token::ClearCurrCell) => {
            proof {
                reveal_strlit("c");
            }
            "c"
        },
        Some(Token::ZeroOrEmpty) => {
            proof {
                reveal_strlit("?");
            }
            "?"
        },
        Some(Token::NotZeroOrEmpty) => {
            proof {
                reveal_strlit("!");
            }
            "!"
        },
        Some(Token::TgtZeroOrEmpty) => {
            proof {
                reveal_strlit("T");
            }
            "T"
        },
        Some(Token::TgtNotZeroOrEmpty) => {
            proof {
                reveal_strlit("t");
            }
            "t"
        },
        Some(Token::AccZeroOrEmpty) => {
            proof {
                reveal_strlit("A");
            }
            "A"
        },
        Some(Token::AccNotZeroOrEmpty) => {
            proof {
                reveal_strlit("a");
            }
            "a"
        },
        Some(Token::DestinationIfTrue) => {
            proof {
                reveal_strlit("@");
            }
            "@"
        },
        Some(Token::JumpCellsC) => {
            proof {
                reveal_strlit("J");
            }
            "J"
        },
        Some(Token::JumpToCellC) => {
            proof {
                reveal_strlit("j");
            }
            "j"
        },
        Some(Token::JumpCellsD) => {
            proof {
                reveal_strlit("K");
            }
            "K"
        },
        Some(Token::JumpToCellD) => {
            proof {
                reveal_strlit("k");
            }
            "k"
        },
        Some(Token::FlipD(upper)) => {
            proof {
                reveal_strlit("F");
                reveal_strlit("f");
            }
            if *upper {
                "F"
            } else {
                "f"
            }
        },
        Some(Token::MoveDUntilEmpty) => {
            proof {
                reveal_strlit("M");
            }
            "M"
        },
        Some(Token::MoveDUntilFull) => {
            proof {
                reveal_strlit("m");
            }
            "m"
        },
        Some(Token::Add) => {
            proof {
                reveal_strlit("+");
            }
            "+"
        },
        Some(Token::Neg) => {
            proof {
                reveal_strlit("-");
            }
            "-"
        },
        Some(Token::Mul) => {
            proof {
                reveal_strlit("*");
            }
            "*"
        },
        Some(Token::Div) => {
            proof {
                reveal_strlit("/");
            }
            "/"
        },
        Some(Token::Mod) => {
            proof {
                reveal_strlit("%");
            }
            "%"
        },
        Some(Token::Eq) => {
            proof {
                reveal_strlit("=");
            }
            "="
        },
        Some(Token::NotEq(upper)) => {
            proof {
                reveal_strlit("N");
                reveal_strlit("n");
            }
            if *upper {
                "N"
            } else {
                "n"
            }
        },
        Some(Token::Gt) => {
            proof {
                reveal_strlit(">");
            }
            ">"
        },
        Some(Token::GE(upper)) => {
            proof {
                reveal_strlit("G");
                reveal_strlit("g");
            }
            if *upper {
                "G"
            } else {
                "g"
            }
        },
        Some(Token::Lt) => {
            proof {
                reveal_strlit("<");
            }
            "<"
        },
        Some(Token::LE(upper)) => {
            proof {
                reveal_strlit("L");
                reveal_strlit("l");
            }
            if *upper {
                "L"
            } else {
                "l"
            }
        },
        Some(Token::BitAnd) => {
            proof {
                reveal_strlit("&");
            }
            "&"
        },
        Some(Token::BitOr) => {
            proof {
                reveal_strlit("|");
            }
            "|"
        },
        Some(Token::BitNot) => {
            proof {
                reveal_strlit("~");
            }
            "~"
        },
        Some(Token::BitXor) => {
            proof {
                reveal_strlit("^");
            }
            "^"
        },
        Some(Token::OutputInt) => {
            proof {
                reveal_strlit("i");
            }
            "i"
        },
        Some(Token::OutputChar) => {
            proof {
                reveal_strlit("s");
            }
            "s"
        },
        Some(Token::InputInt) => {
            proof {
                reveal_strlit("I");
            }
            "I"
        },
        Some(Token::InputStr) => {
            proof {
                reveal_strlit("S");
            }
            "S"
        },
        None => {
            proof {
                reveal_strlit("<none>");
            }
            "<none>"
        },
    };
    assert(s@ =~= (match token {
        Some(t) => symbol_of(*t),
        None => no_symbol(),
    }));
    s
}

/// Reading the text of a well-formed instruction gives the instruction back,
/// and the text of what a character reads as is that character.
pub proof fn lemma_symbol_round_trip(t: Token, c: char)
    ensures
        well_formed(t) ==> symbol_of(t).len() == 1 && token_of(symbol_of(t)[0]) == Some(t),
        token_of(c) matches Some(u) ==> well_formed(u) && symbol_of(u) == seq![c],
{
    if let Some(u) = token_of(c) {
        assert(symbol_of(u) =~= seq![c]);
    }
}

/// What is left of `text` once every match of `pattern` in it has given way
/// to `with`; `None` where `pattern` is no pattern.
pub uninterp spec fn replaced(pattern: Seq<char>, text: Seq<char>, with: Seq<char>) -> Option<
    Seq<char>,
>;

/// `Regex::new` and `Regex::replace_all` of the crate regex: compiles
/// `pattern` and replaces each of its matches in `text`, found from left to
/// right without overlap, by `with`. The contract only names the outcome; it
/// claims that the outcome depends on the three texts alone.
#[verifier::external_body]
fn replace_all(pattern: &str, text: &str, with: &str) -> (r: Option<Vec<char>>)
    ensures
        match r {
            Some(left) => replaced(pattern@, text@, with@) == Some(left@),
            None => replaced(pattern@, text@, with@).is_none(),
        },
{
    match regex::Regex::new(pattern) {
        Ok(re) => Some(re.replace_all(text, with).chars().collect()),
        Err(_) => None,
    }
}

/// Turns a source text into its instruction sequence: comments and
/// whitespace go first, then what is left is read strictly from left to
/// right.
pub fn tokenize(txt: &str) -> (r: Result<Vec<Token>, LexError>)
    ensures
        match replaced(IGNORED@, txt@, ""@) {
            Some(stream) => reads_as(stream, r),
            None => r matches Err(LexError::Pattern),
        },
        r matches Ok(tokens) ==> forall|i: int|
            0 <= i < tokens@.len() ==> well_formed(#[trigger] tokens@[i]),
{
    match replace_all(IGNORED, txt, "") {
        Some(stream) => scan(&stream),
        None => Err(LexError::Pattern),
    }
}

/// A text has one reading: two results that both read `stream` agree on
/// every instruction, or on the symbol and the place of the fault.
pub proof fn lemma_reading_is_unique(
    stream: Seq<char>,
    r1: Result<Vec<Token>, LexError>,
    r2: Result<Vec<Token>, LexError>,
)
    requires
        reads_as(stream, r1),
        reads_as(stream, r2),
    ensures
        match (r1, r2) {
            (Ok(a), Ok(b)) => a@ == b@,
            (Err(e), Err(f)) => e == f,
            _ => false,
        },
{
    match (r1, r2) {
        (Ok(a), Ok(b)) => {
            assert(a@ =~= b@);
        },
        (Err(LexError::UnknownSymbol { symbol: c, index: i }), Err(LexError::UnknownSymbol { symbol: d, index: j })) => {
            if i < j {
                assert(token_of(stream[i as int]).is_some());
            }
            if j < i {
                assert(token_of(stream[j as int]).is_some());
            }
        },
        (Ok(a), Err(LexError::UnknownSymbol { symbol: d, index: j })) => {
            assert(token_of(stream[j as int]) == Some(a@[j as int]));
        },
        (Err(LexError::UnknownSymbol { symbol: c, index: i }), Ok(b)) => {
            assert(token_of(stream[i as int]) == Some(b@[i as int]));
        },
        _ => {},
    }
}

} // verus!
