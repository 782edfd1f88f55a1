use vstd::prelude::*;

verus! {

/// A line as the program sees it: without the line feed at its end, if it has
/// one.
pub open spec fn without_terminator(line: Seq<char>) -> Seq<char> {
    if line.len() > 0 && line.last() == '\n' {
        line.drop_last()
    } else {
        line
    }
}

pub open spec fn is_digit(c: char) -> bool {
    '0' <= c <= '9'
}

pub open spec fn all_digits(s: Seq<char>) -> bool {
    forall|i: int| 0 <= i < s.len() ==> is_digit(#[trigger] s[i])
}

/// The number that a string of decimal digits spells.
pub open spec fn decimal(digits: Seq<char>) -> int
    decreases digits.len(),
{
    if digits.len() == 0 {
        0
    } else {
        decimal(digits.drop_last()) * 10 + (digits.last() as u32 - '0' as u32)
    }
}

/// The signed integer that `text` spells: an optional `+` or `-`, then one
/// or more decimal digits and nothing else, with a value in the signed range.
pub open spec fn integer_of(text: Seq<char>) -> Option<isize> {
    let signed = text.len() > 0 && (text[0] == '-' || text[0] == '+');
    let digits = if signed {
        text.skip(1)
    } else {
        text
    };
    let value = if signed && text[0] == '-' {
        -decimal(digits)
    } else {
        decimal(digits)
    };
    if digits.len() > 0 && all_digits(digits) && isize::MIN <= value <= isize::MAX {
        Some(value as isize)
    } else {
        None
    }
}

/// A string of digits spells a number that is not negative.
pub proof fn lemma_decimal_not_negative(s: Seq<char>)
    requires
        all_digits(s),
    ensures
        decimal(s) >= 0,
    decreases s.len(),
{
    if s.len() > 0 {
        lemma_decimal_not_negative(s.drop_last());
    }
}

/// A prefix of a string of digits spells no more than the whole string.
pub proof fn lemma_decimal_grows(s: Seq<char>, i: int)
    requires
        all_digits(s),
        0 <= i <= s.len(),
    ensures
        0 <= decimal(s.take(i)) <= decimal(s),
    decreases s.len() - i,
{
    lemma_decimal_not_negative(s.take(i));
    if i == s.len() {
        assert(s.take(i) =~= s);
    } else {
        lemma_decimal_grows(s, i + 1);
        assert(s.take(i + 1).drop_last() =~= s.take(i));
    }
}

/// The length of `line` without its terminator.
pub fn text_len(line: &Vec<char>) -> (n: usize)
    ensures
        n <= line@.len(),
        line@.take(n as int) == without_terminator(line@),
{
    let n = line.len();
    if n > 0 && line[n - 1] == '\n' {
        assert(line@.take(n - 1) =~= line@.drop_last());
        n - 1
    } else {
        assert(line@.take(n as int) =~= line@);
        n
    }
}

/// Reads the first `end` characters of `line` as a signed decimal integer.
pub fn parse_integer(line: &Vec<char>, end: usize) -> (r: Option<isize>)
    requires
        end <= line@.len(),
    ensures
        r == integer_of(line@.take(end as int)),
{
    let ghost text = line@.take(end as int);
    if end == 0 {
        return None;
    }
    let negative = line[0] == '-';
    let start: usize = if line[0] == '-' || line[0] == '+' {
        1
    } else {
        0
    };
    let ghost digits = text.skip(start as int);
    assert(text.skip(0) =~= text);
    if start == end {
        return None;
    }
    let mut value: isize = 0;
    let mut i: usize = start;
    while i < end
        invariant
            start <= i <= end <= line@.len(),
            text == line@.take(end as int),
            digits == text.skip(start as int),
            0 < end,
            start == 0 ==> digits == text,
            text.len() == end,
            digits.len() == end - start,
            negative == (text[0] == '-'),
            start == (if text[0] == '-' || text[0] == '+' {
                1usize
            } else {
                0usize
            }),
            all_digits(digits.take(i - start)),
            value == (if negative {
                -decimal(digits.take(i - start))
            } else {
                decimal(digits.take(i - start))
            }),
        decreases end - i,
    {
        let c = line[i];
        assert(digits[i - start] == c);
        if !('0' <= c && c <= '9') {
            assert(!is_digit(digits[i - start]));
            return None;
        }
        let d: u32 = c as u32 - '0' as u32;
        proof {
            assert(digits.take(i + 1 - start).drop_last() =~= digits.take(i - start));
            assert(digits.take(i + 1 - start).last() == c);
            assert(all_digits(digits.take(i + 1 - start))) by {
                assert forall|k: int| 0 <= k < i + 1 - start implies is_digit(
                    #[trigger] digits.take(i + 1 - start)[k],
                ) by {
                    if k < i - start {
                        assert(digits.take(i - start)[k] == digits[k]);
                    }
                }
            }
            lemma_decimal_not_negative(digits.take(i - start));
            assert(decimal(digits.take(i + 1 - start)) == decimal(digits.take(i - start)) * 10 + d);
            if all_digits(digits) {
                lemma_decimal_grows(digits, i + 1 - start);
            }
        }
        let shifted = match value.checked_mul(10) {
            Some(v) => v,
            None => {
                return None;
            },
        };
        let next = if negative {
            shifted.checked_sub(d as isize)
        } else {
            shifted.checked_add(d as isize)
        };
        match next {
            Some(v) => {
                value = v;
            },
            None => {
                return None;
            },
        }
        i += 1;
    }
    assert(digits.take(end - start) =~= digits);
    Some(value)
}

/// The character of a decimal digit.
pub open spec fn digit_char(d: int) -> char
    recommends
        0 <= d <= 9,
{
    ('0' as u32 + d) as char
}

/// The decimal digits of a number that is not negative, without leading
/// zeros.
pub open spec fn digits_of(m: nat) -> Seq<char>
    decreases m,
{
    if m < 10 {
        seq![digit_char(m as int)]
    } else {
        digits_of(m / 10).push(digit_char(m as int % 10))
    }
}

/// The decimal text of an integer: a minus sign where it is negative, then
/// its digits.
pub open spec fn decimal_text(n: int) -> Seq<char> {
    if n < 0 {
        seq!['-'] + digits_of((-n) as nat)
    } else {
        digits_of(n as nat)
    }
}

fn digit_text(d: i128) -> (text: &'static str)
    requires
        0 <= d <= 9,
    ensures
        text@ == seq![digit_char(d as int)],
{
    let text = if d == 0 {
        proof {
            reveal_strlit("0");
        }
        "0"
    } else if d == 1 {
        proof {
            reveal_strlit("1");
        }
        "1"
    } else if d == 2 {
        proof {
            reveal_strlit("2");
        }
        "2"
    } else if d == 3 {
        proof {
            reveal_strlit("3");
        }
        "3"
    } else if d == 4 {
        proof {
            reveal_strlit("4");
        }
        "4"
    } else if d == 5 {
        proof {
            reveal_strlit("5");
        }
        "5"
    } else if d == 6 {
        proof {
            reveal_strlit("6");
        }
        "6"
    } else if d == 7 {
        proof {
            reveal_strlit("7");
        }
        "7"
    } else if d == 8 {
        proof {
            reveal_strlit("8");
        }
        "8"
    } else {
        proof {
            reveal_strlit("9");
        }
        "9"
    };
    assert(text@ =~= seq![digit_char(d as int)]);
    text
}

fn magnitude_text(m: i128) -> (text: String)
    requires
        0 <= m,
    ensures
        text@ == digits_of(m as nat),
    decreases m,
{
    if m < 10 {
        String::from_str(digit_text(m))
    } else {
        let mut text = magnitude_text(m / 10);
        text.append(digit_text(m % 10));
        assert(text@ =~= digits_of(m as nat));
        text
    }
}

/// Writes an integer in decimal.
pub fn decimal_string(n: isize) -> (text: String)
    ensures
        text@ == decimal_text(n as int),
{
    if n < 0 {
        proof {
            reveal_strlit("-");
        }
        let mut text = String::from_str("-");
        let digits = magnitude_text(-(n as i128));
        text.append(digits.as_str());
        assert(text@ =~= decimal_text(n as int));
        text
    } else {
        magnitude_text(n as i128)
    }
}

/// Writes an index in decimal.
pub fn index_string(n: usize) -> (text: String)
    ensures
        text@ == digits_of(n as nat),
{
    magnitude_text(n as i128)
}

} // verus!
