use crate::lines::{decimal_string, decimal_text};
use std::collections::HashMap;
use vstd::prelude::*;

verus! {

broadcast use vstd::std_specs::hash::group_hash_axioms;

/// What appending a decimal digit to an accumulator gives: the digit itself
/// when the accumulator holds nothing, otherwise ten times the held value plus
/// the digit, or `None` when the product or the sum leaves the signed range.
pub open spec fn appended(held: Option<isize>, digit: isize) -> Option<isize> {
    match held {
        None => Some(digit),
        Some(n) => if isize::MIN <= n * 10 <= isize::MAX && isize::MIN <= n * 10 + digit
            <= isize::MAX {
            Some((n * 10 + digit) as isize)
        } else {
            None
        },
    }
}

/// The content of the cell at `addr`: `None` for an empty cell, which is not
/// the same as a cell that holds zero.
pub open spec fn cell(cells: Map<isize, isize>, addr: int) -> Option<isize> {
    if isize::MIN <= addr <= isize::MAX && cells.contains_key(addr as isize) {
        Some(cells[addr as isize])
    } else {
        None
    }
}

/// What a state report says of an accumulator that holds `held`.
pub open spec fn acc_details(held: Option<isize>) -> Seq<char> {
    match held {
        Some(n) => "accumulator value: "@ + decimal_text(n as int),
        None => "accumulator was empty"@,
    }
}

/// The scratch register: either empty or holding one signed value.
pub struct Acc {
    val: Option<isize>,
}

impl Acc {
    /// The held value, if any.
    pub closed spec fn view(&self) -> Option<isize> {
        self.val
    }

    pub fn new() -> (a: Acc)
        ensures
            a@ == None::<isize>,
    {
        Acc { val: None }
    }

    pub fn get_value(&self) -> (r: Result<isize, ()>)
        ensures
            r == (match self@ {
                Some(n) => Ok::<isize, ()>(n),
                None => Err::<isize, ()>(()),
            }),
    {
        match self.val {
            Some(n) => Ok(n),
            None => Err(()),
        }
    }

    pub fn set_value(&mut self, value: isize)
        ensures
            final(self)@ == Some(value),
    {
        self.val = Some(value);
    }

    pub fn is_empty(&self) -> (b: bool)
        ensures
            b == self@.is_none(),
    {
        self.val.is_none()
    }

    pub fn is_not_empty(&self) -> (b: bool)
        ensures
            b == self@.is_some(),
    {
        self.val.is_some()
    }

    /// Appends a decimal digit. On overflow the accumulator keeps its value.
    pub fn append(&mut self, digit: isize) -> (r: Result<(), ()>)
        ensures
            match appended(old(self)@, digit) {
                Some(v) => r.is_ok() && final(self)@ == Some(v),
                None => r.is_err() && final(self)@ == old(self)@,
            },
    {
        match self.val {
            Some(n) => {
                match n.checked_mul(10) {
                    Some(shifted) => match shifted.checked_add(digit) {
                        Some(v) => {
                            self.val = Some(v);
                            Ok(())
                        },
                        None => Err(()),
                    },
                    None => Err(()),
                }
            },
            None => {
                self.val = Some(digit);
                Ok(())
            },
        }
    }

    /// What a state report says of the accumulator.
    pub fn get_details(&self) -> (text: String)
        ensures
            text@ == acc_details(self@),
    {
        match self.val {
            Some(n) => {
                let mut text = String::from_str("accumulator value: ");
                let number = decimal_string(n);
                text.append(number.as_str());
                text
            },
            None => String::from_str("accumulator was empty"),
        }
    }

    /// Empties the accumulator and hands back what it held.
    pub fn clear(&mut self) -> (r: Option<isize>)
        ensures
            r == old(self)@,
            final(self)@ == None::<isize>,
    {
        let held = self.val;
        self.val = None;
        held
    }
}

/// The sparse tape: a cell is empty until it is written, and again after it
/// is cleared.
pub struct Tape {
    cells: HashMap<isize, isize>,
}

impl Tape {
    /// The written cells, by address.
    pub closed spec fn view(&self) -> Map<isize, isize> {
        self.cells@
    }

    pub fn new() -> (t: Tape)
        ensures
            t@ == Map::<isize, isize>::empty(),
    {
        Tape { cells: HashMap::new() }
    }

    pub fn get(&self, index: isize) -> (r: Option<isize>)
        ensures
            r == cell(self@, index as int),
    {
        match self.cells.get(&index) {
            Some(n) => Some(*n),
            None => None,
        }
    }

    pub fn set(&mut self, index: isize, value: isize)
        ensures
            final(self)@ == old(self)@.insert(index, value),
    {
        self.cells.insert(index, value);
    }

    /// Empties the cell at `index` and hands back what it held.
    pub fn clear(&mut self, index: isize) -> (r: Option<isize>)
        ensures
            r == cell(old(self)@, index as int),
            final(self)@ == old(self)@.remove(index),
    {
        self.cells.remove(&index)
    }

    pub fn cell_is_full(&self, index: isize) -> (b: bool)
        ensures
            b == self@.contains_key(index),
    {
        self.cells.contains_key(&index)
    }

    pub fn cell_is_empty(&self, index: isize) -> (b: bool)
        ensures
            b == !self@.contains_key(index),
    {
        !self.cells.contains_key(&index)
    }

    /// The cell one address below `index`; fails when there is no such
    /// address.
    pub fn left_of(&self, index: isize) -> (r: Result<Option<isize>, ()>)
        ensures
            r == (if index > isize::MIN {
                Ok::<Option<isize>, ()>(cell(self@, index - 1))
            } else {
                Err::<Option<isize>, ()>(())
            }),
    {
        match index.checked_sub(1) {
            Some(left) => Ok(self.get(left)),
            None => Err(()),
        }
    }
}

/// The number that a sequence of decimal digits spells in base ten.
pub open spec fn base_ten(digits: Seq<isize>) -> int
    decreases digits.len(),
{
    if digits.len() == 0 {
        0
    } else {
        base_ten(digits.drop_last()) * 10 + digits.last()
    }
}

/// The accumulator after `digits` were appended one by one to an empty
/// accumulator, or `Err` when one of the appends failed.
pub open spec fn literal(digits: Seq<isize>) -> Result<Option<isize>, ()>
    decreases digits.len(),
{
    if digits.len() == 0 {
        Ok(None)
    } else {
        match literal(digits.drop_last()) {
            Err(_) => Err(()),
            Ok(held) => match appended(held, digits.last()) {
                Some(v) => Ok(Some(v)),
                None => Err(()),
            },
        }
    }
}

pub open spec fn decimal_digits(digits: Seq<isize>) -> bool {
    forall|i: int| 0 <= i < digits.len() ==> 0 <= #[trigger] digits[i] <= 9
}

/// Appending decimal digits to an empty accumulator builds the number that
/// they spell in base ten, and fails exactly when that number is beyond the
/// signed range.
pub proof fn lemma_literal_is_base_ten(digits: Seq<isize>)
    requires
        digits.len() > 0,
        decimal_digits(digits),
    ensures
        base_ten(digits) >= 0,
        literal(digits) == (if base_ten(digits) <= isize::MAX {
            Ok::<Option<isize>, ()>(Some(base_ten(digits) as isize))
        } else {
            Err::<Option<isize>, ()>(())
        }),
    decreases digits.len(),
{
    let front = digits.drop_last();
    assert(decimal_digits(front)) by {
        assert forall|i: int| 0 <= i < front.len() implies 0 <= #[trigger] front[i] <= 9 by {
            assert(front[i] == digits[i]);
        }
    }
    assert(0 <= digits.last() <= 9);
    if front.len() > 0 {
        lemma_literal_is_base_ten(front);
    } else {
        assert(base_ten(front) == 0);
        assert(literal(front) == Ok::<Option<isize>, ()>(None));
    }
}

} // verus!
