//! Diagnostic rendering of interrupt identifiers.
//!
//! An identifier is shown by its class and its index within the class, as in
//! `PPI 3`; a special identifier is shown by its number, as in
//! `Special IntId 1023`. The text is for logs only.

use crate::intid::{IntId, InterruptType};
use vstd::prelude::*;
use vstd::string::*;

verus! {

/// The character that stands for the decimal digit `d`.
pub open spec fn digit(d: nat) -> char
    recommends
        d < 10,
{
    if d == 0 {
        '0'
    } else if d == 1 {
        '1'
    } else if d == 2 {
        '2'
    } else if d == 3 {
        '3'
    } else if d == 4 {
        '4'
    } else if d == 5 {
        '5'
    } else if d == 6 {
        '6'
    } else if d == 7 {
        '7'
    } else if d == 8 {
        '8'
    } else {
        '9'
    }
}

/// The decimal numeral of `n`, most significant digit first, without leading
/// zeros.
pub open spec fn decimal(n: nat) -> Seq<char>
    decreases n,
{
    if n < 10 {
        seq![digit(n)]
    } else {
        decimal(n / 10).push(digit(n % 10))
    }
}

/// The label that a class is shown by, with the blank that follows it.
pub open spec fn class_label(class: Option<InterruptType>) -> Seq<char> {
    match class {
        Some(InterruptType::SGI) => "SGI "@,
        Some(InterruptType::PPI) => "PPI "@,
        Some(InterruptType::SPI) => "SPI "@,
        None => "Special IntId "@,
    }
}

fn digit_str(d: usize) -> (text: &'static str)
    requires
        d < 10,
    ensures
        text@ == seq![digit(d as nat)],
{
    proof {
        reveal_strlit("0");
        reveal_strlit("1");
        reveal_strlit("2");
        reveal_strlit("3");
        reveal_strlit("4");
        reveal_strlit("5");
        reveal_strlit("6");
        reveal_strlit("7");
        reveal_strlit("8");
        reveal_strlit("9");
    }
    let text = if d == 0 {
        "0"
    } else if d == 1 {
        "1"
    } else if d == 2 {
        "2"
    } else if d == 3 {
        "3"
    } else if d == 4 {
        "4"
    } else if d == 5 {
        "5"
    } else if d == 6 {
        "6"
    } else if d == 7 {
        "7"
    } else if d == 8 {
        "8"
    } else {
        "9"
    };
    assert(text@ =~= seq![digit(d as nat)]);
    text
}

fn append_decimal(text: &mut String, n: usize)
    ensures
        final(text)@ == old(text)@ + decimal(n as nat),
    decreases n,
{
    if n >= 10 {
        append_decimal(text, n / 10);
    }
    text.append(digit_str(n % 10));
    assert(text@ =~= old(text)@ + decimal(n as nat));
}

impl IntId {
    /// The text that [`IntId::describe`] gives: the label of the class and
    /// the index within the class, or, for a special identifier, its label
    /// and the identifier's number.
    pub open spec fn description(self) -> Seq<char> {
        match self.classify() {
            Some((class, index)) => class_label(Some(class)) + decimal(index as nat),
            None => class_label(None) + decimal(self@),
        }
    }

    /// Renders the identifier for diagnostics: `SGI n`, `PPI n` or `SPI n`
    /// with its index `n` within the class, or `Special IntId n` with its
    /// number `n`.
    pub fn describe(self) -> (text: String)
        ensures
            text@ == self.description(),
    {
        match self.classify() {
            Some((InterruptType::SGI, index)) => {
                let mut text = String::from_str("SGI ");
                append_decimal(&mut text, index);
                text
            },
            Some((InterruptType::PPI, index)) => {
                let mut text = String::from_str("PPI ");
                append_decimal(&mut text, index);
                text
            },
            Some((InterruptType::SPI, index)) => {
                let mut text = String::from_str("SPI ");
                append_decimal(&mut text, index);
                text
            },
            None => {
                let mut text = String::from_str("Special IntId ");
                append_decimal(&mut text, usize::from(self));
                text
            },
        }
    }
}

} // verus!
