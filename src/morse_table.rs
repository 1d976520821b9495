use vstd::prelude::*;
use crate::symbol::Symbol;
use crate::symbol::Symbol::{Dash, Dot};

verus! {

/// The Morse code of each supported character (A-Z, 0-9 and `. , / ? =`),
/// as its dots and dashes in order; `None` for every other character.
pub open spec fn code_of(c: char) -> Option<Seq<Symbol>> {
    match c {
        'A' => Some(seq![Dot, Dash]),
        'B' => Some(seq![Dash, Dot, Dot, Dot]),
        'C' => Some(seq![Dash, Dot, Dash, Dot]),
        'D' => Some(seq![Dash, Dot, Dot]),
        'E' => Some(seq![Dot]),
        'F' => Some(seq![Dot, Dot, Dash, Dot]),
        'G' => Some(seq![Dash, Dash, Dot]),
        'H' => Some(seq![Dot, Dot, Dot, Dot]),
        'I' => Some(seq![Dot, Dot]),
        'J' => Some(seq![Dot, Dash, Dash, Dash]),
        'K' => Some(seq![Dash, Dot, Dash]),
        'L' => Some(seq![Dot, Dash, Dot, Dot]),
        'M' => Some(seq![Dash, Dash]),
        'N' => Some(seq![Dash, Dot]),
        'O' => Some(seq![Dash, Dash, Dash]),
        'P' => Some(seq![Dot, Dash, Dash, Dot]),
        'Q' => Some(seq![Dash, Dash, Dot, Dash]),
        'R' => Some(seq![Dot, Dash, Dot]),
        'S' => Some(seq![Dot, Dot, Dot]),
        'T' => Some(seq![Dash]),
        'U' => Some(seq![Dot, Dot, Dash]),
        'V' => Some(seq![Dot, Dot, Dot, Dash]),
        'W' => Some(seq![Dot, Dash, Dash]),
        'X' => Some(seq![Dash, Dot, Dot, Dash]),
        'Y' => Some(seq![Dash, Dot, Dash, Dash]),
        'Z' => Some(seq![Dash, Dash, Dot, Dot]),
        '0' => Some(seq![Dash, Dash, Dash, Dash, Dash]),
        '1' => Some(seq![Dot, Dash, Dash, Dash, Dash]),
        '2' => Some(seq![Dot, Dot, Dash, Dash, Dash]),
        '3' => Some(seq![Dot, Dot, Dot, Dash, Dash]),
        '4' => Some(seq![Dot, Dot, Dot, Dot, Dash]),
        '5' => Some(seq![Dot, Dot, Dot, Dot, Dot]),
        '6' => Some(seq![Dash, Dot, Dot, Dot, Dot]),
        '7' => Some(seq![Dash, Dash, Dot, Dot, Dot]),
        '8' => Some(seq![Dash, Dash, Dash, Dot, Dot]),
        '9' => Some(seq![Dash, Dash, Dash, Dash, Dot]),
        '.' => Some(seq![Dot, Dash, Dot, Dash, Dot, Dash]),
        ',' => Some(seq![Dash, Dash, Dot, Dot, Dash, Dash]),
        '/' => Some(seq![Dash, Dot, Dot, Dash, Dot]),
        '?' => Some(seq![Dot, Dot, Dash, Dash, Dot, Dot]),
        '=' => Some(seq![Dash, Dot, Dot, Dot, Dash]),
        _ => None,
    }
}

/// Looks up the Morse code of `c`.
pub fn morse_code(c: char) -> (r: Option<Vec<Symbol>>)
    ensures
        match r {
            Some(v) => code_of(c) == Some(v@),
            None => code_of(c) is None,
        },
{
    let r = match c {
        'A' => Some(vec![Dot, Dash]),
        'B' => Some(vec![Dash, Dot, Dot, Dot]),
        'C' => Some(vec![Dash, Dot, Dash, Dot]),
        'D' => Some(vec![Dash, Dot, Dot]),
        'E' => Some(vec![Dot]),
        'F' => Some(vec![Dot, Dot, Dash, Dot]),
        'G' => Some(vec![Dash, Dash, Dot]),
        'H' => Some(vec![Dot, Dot, Dot, Dot]),
        'I' => Some(vec![Dot, Dot]),
        'J' => Some(vec![Dot, Dash, Dash, Dash]),
        'K' => Some(vec![Dash, Dot, Dash]),
        'L' => Some(vec![Dot, Dash, Dot, Dot]),
        'M' => Some(vec![Dash, Dash]),
        'N' => Some(vec![Dash, Dot]),
        'O' => Some(vec![Dash, Dash, Dash]),
        'P' => Some(vec![Dot, Dash, Dash, Dot]),
        'Q' => Some(vec![Dash, Dash, Dot, Dash]),
        'R' => Some(vec![Dot, Dash, Dot]),
        'S' => Some(vec![Dot, Dot, Dot]),
        'T' => Some(vec![Dash]),
        'U' => Some(vec![Dot, Dot, Dash]),
        'V' => Some(vec![Dot, Dot, Dot, Dash]),
        'W' => Some(vec![Dot, Dash, Dash]),
        'X' => Some(vec![Dash, Dot, Dot, Dash]),
        'Y' => Some(vec![Dash, Dot, Dash, Dash]),
        'Z' => Some(vec![Dash, Dash, Dot, Dot]),
        '0' => Some(vec![Dash, Dash, Dash, Dash, Dash]),
        '1' => Some(vec![Dot, Dash, Dash, Dash, Dash]),
        '2' => Some(vec![Dot, Dot, Dash, Dash, Dash]),
        '3' => Some(vec![Dot, Dot, Dot, Dash, Dash]),
        '4' => Some(vec![Dot, Dot, Dot, Dot, Dash]),
        '5' => Some(vec![Dot, Dot, Dot, Dot, Dot]),
        '6' => Some(vec![Dash, Dot, Dot, Dot, Dot]),
        '7' => Some(vec![Dash, Dash, Dot, Dot, Dot]),
        '8' => Some(vec![Dash, Dash, Dash, Dot, Dot]),
        '9' => Some(vec![Dash, Dash, Dash, Dash, Dot]),
        '.' => Some(vec![Dot, Dash, Dot, Dash, Dot, Dash]),
        ',' => Some(vec![Dash, Dash, Dot, Dot, Dash, Dash]),
        '/' => Some(vec![Dash, Dot, Dot, Dash, Dot]),
        '?' => Some(vec![Dot, Dot, Dash, Dash, Dot, Dot]),
        '=' => Some(vec![Dash, Dot, Dot, Dot, Dash]),
        _ => None,
    };
    r
}

} // verus!
