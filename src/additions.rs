use vstd::prelude::*;
use crate::encoder::encode;
use crate::encoder::encode_spec;
use crate::encoder::lemma_constant_has_no_markers;
use crate::options::SpeedModificationType;
use crate::options::TextAdditions;
use crate::options::TextType;
use crate::symbol::Symbol;
use crate::timing::lemma_markers_concat;
use crate::timing::lemma_markers_push;
use crate::timing::marker_total;
use crate::timing::markers_in;
use crate::symbol::Symbol::{CharacterGap, Dash, Dot, IntraGap, WordGap};

verus! {

/// The training start: `V V V` and `=`, each followed by its gap.
pub open spec fn training_start() -> Seq<Symbol> {
    seq![
        Dot, IntraGap, Dot, IntraGap, Dot, IntraGap, Dash, CharacterGap,
        Dot, IntraGap, Dot, IntraGap, Dot, IntraGap, Dash, CharacterGap,
        Dot, IntraGap, Dot, IntraGap, Dot, IntraGap, Dash, WordGap,
        Dash, IntraGap, Dot, IntraGap, Dot, IntraGap, Dot, IntraGap,
        Dash, WordGap,
    ]
}

fn training_start_vec() -> (r: Vec<Symbol>)
    ensures
        r@ == training_start(),
{
    let r = vec![
        Dot, IntraGap, Dot, IntraGap, Dot, IntraGap, Dash, CharacterGap,
        Dot, IntraGap, Dot, IntraGap, Dot, IntraGap, Dash, CharacterGap,
        Dot, IntraGap, Dot, IntraGap, Dot, IntraGap, Dash, WordGap,
        Dash, IntraGap, Dot, IntraGap, Dot, IntraGap, Dot, IntraGap,
        Dash, WordGap,
    ];
    assert(r@ =~= training_start());
    r
}

/// The competition start for letters and mixed text: five `O`.
pub open spec fn competition_letters_start() -> Seq<Symbol> {
    seq![
        Dash, IntraGap, Dash, IntraGap, Dash, CharacterGap, Dash, IntraGap,
        Dash, IntraGap, Dash, CharacterGap, Dash, IntraGap, Dash, IntraGap,
        Dash, CharacterGap, Dash, IntraGap, Dash, IntraGap, Dash, CharacterGap,
        Dash, IntraGap, Dash, IntraGap, Dash, WordGap,
    ]
}

fn competition_letters_vec() -> (r: Vec<Symbol>)
    ensures
        r@ == competition_letters_start(),
{
    let r = vec![
        Dash, IntraGap, Dash, IntraGap, Dash, CharacterGap, Dash, IntraGap,
        Dash, IntraGap, Dash, CharacterGap, Dash, IntraGap, Dash, IntraGap,
        Dash, CharacterGap, Dash, IntraGap, Dash, IntraGap, Dash, CharacterGap,
        Dash, IntraGap, Dash, IntraGap, Dash, WordGap,
    ];
    assert(r@ =~= competition_letters_start());
    r
}

/// The competition start for digits: five `0`.
pub open spec fn competition_digits_start() -> Seq<Symbol> {
    seq![
        Dash, IntraGap, Dash, IntraGap, Dash, IntraGap, Dash, IntraGap,
        Dash, CharacterGap, Dash, IntraGap, Dash, IntraGap, Dash, IntraGap,
        Dash, IntraGap, Dash, CharacterGap, Dash, IntraGap, Dash, IntraGap,
        Dash, IntraGap, Dash, IntraGap, Dash, CharacterGap, Dash, IntraGap,
        Dash, IntraGap, Dash, IntraGap, Dash, IntraGap, Dash, CharacterGap,
        Dash, IntraGap, Dash, IntraGap, Dash, IntraGap, Dash, IntraGap,
        Dash, WordGap,
    ]
}

fn competition_digits_vec() -> (r: Vec<Symbol>)
    ensures
        r@ == competition_digits_start(),
{
    let r = vec![
        Dash, IntraGap, Dash, IntraGap, Dash, IntraGap, Dash, IntraGap,
        Dash, CharacterGap, Dash, IntraGap, Dash, IntraGap, Dash, IntraGap,
        Dash, IntraGap, Dash, CharacterGap, Dash, IntraGap, Dash, IntraGap,
        Dash, IntraGap, Dash, IntraGap, Dash, CharacterGap, Dash, IntraGap,
        Dash, IntraGap, Dash, IntraGap, Dash, IntraGap, Dash, CharacterGap,
        Dash, IntraGap, Dash, IntraGap, Dash, IntraGap, Dash, IntraGap,
        Dash, WordGap,
    ];
    assert(r@ =~= competition_digits_start());
    r
}

/// The closing signal: a word gap, then `.-.-.`.
pub open spec fn end_of_work() -> Seq<Symbol> {
    seq![
        WordGap, Dot, IntraGap, Dash, IntraGap, Dot, IntraGap, Dash,
        IntraGap, Dot,
    ]
}

fn end_of_work_vec() -> (r: Vec<Symbol>)
    ensures
        r@ == end_of_work(),
{
    let r = vec![
        WordGap, Dot, IntraGap, Dash, IntraGap, Dot, IntraGap, Dash,
        IntraGap, Dot,
    ];
    assert(r@ =~= end_of_work());
    r
}

pub open spec fn digit_char(d: nat) -> char {
    seq!['0', '1', '2', '3', '4', '5', '6', '7', '8', '9'][d as int]
}

/// The decimal digits of `n`, most significant first, without leading zeros.
pub open spec fn digits_of(n: nat) -> Seq<char>
    decreases n,
{
    if n < 10 {
        seq![digit_char(n)]
    } else {
        digits_of(n / 10).push(digit_char(n % 10))
    }
}

fn digit(d: u32) -> (r: char)
    requires
        d < 10,
    ensures
        r == digit_char(d as nat),
{
    match d {
        0 => '0',
        1 => '1',
        2 => '2',
        3 => '3',
        4 => '4',
        5 => '5',
        6 => '6',
        7 => '7',
        8 => '8',
        _ => '9',
    }
}

/// Writes `n` in decimal.
pub fn decimal_digits(n: u32) -> (r: Vec<char>)
    ensures
        r@ == digits_of(n as nat),
    decreases n,
{
    if n < 10 {
        vec![digit(n)]
    } else {
        let mut r = decimal_digits(n / 10);
        r.push(digit(n % 10));
        r
    }
}

/// The symbols of text encoded at one constant speed.
pub open spec fn plain_symbols(text: Seq<char>) -> Seq<Symbol> {
    encode_spec(text, SpeedModificationType::Constant, 10, 100, 100).symbols
}

proof fn lemma_fixed_parts_have_no_markers()
    ensures
        marker_total(training_start()) == 0,
        marker_total(competition_letters_start()) == 0,
        marker_total(competition_digits_start()) == 0,
        marker_total(end_of_work()) == 0,
{
    reveal_with_fuel(markers_in, 51);
}

/// What is played before the text.
pub open spec fn start_part_spec(additions: TextAdditions, text_type: TextType, speed: nat) -> Seq<
    Symbol,
> {
    match additions {
        TextAdditions::Plain => Seq::empty(),
        TextAdditions::Training => training_start(),
        TextAdditions::Competitions => (if text_type == TextType::Digits {
            competition_digits_start()
        } else {
            competition_letters_start()
        }) + plain_symbols(digits_of(speed)) + seq![WordGap] + training_start(),
    }
}

/// What is played around the text has no speed marker.
pub proof fn lemma_additions_have_no_markers(additions: TextAdditions, text_type: TextType, speed: nat)
    ensures
        marker_total(start_part_spec(additions, text_type, speed)) == 0,
        marker_total(end_part_spec(additions)) == 0,
{
    lemma_fixed_parts_have_no_markers();
    assert(marker_total(Seq::<Symbol>::empty()) == 0);
    if additions == TextAdditions::Competitions {
        let head = if text_type == TextType::Digits {
            competition_digits_start()
        } else {
            competition_letters_start()
        };
        let digits = digits_of(speed);
        lemma_constant_has_no_markers(digits, digits.len(), 10, 100, 100);
        let spoken = plain_symbols(digits);
        lemma_markers_concat(head, spoken);
        lemma_markers_push(head + spoken, WordGap);
        assert((head + spoken).push(WordGap) =~= head + spoken + seq![WordGap]);
        lemma_markers_concat(head + spoken + seq![WordGap], training_start());
    }
}

/// What is played after the text.
pub open spec fn end_part_spec(additions: TextAdditions) -> Seq<Symbol> {
    if additions == TextAdditions::Plain {
        Seq::empty()
    } else {
        end_of_work()
    }
}

/// The start of a session: nothing, the training start, or a competition
/// start (five `O`, or five `0` for digits) with the speed spelled out in
/// Morse, a word gap and the training start.
pub fn start_part(additions: TextAdditions, text_type: TextType, speed: u32) -> (r: Vec<Symbol>)
    ensures
        r@ == start_part_spec(additions, text_type, speed as nat),
{
    match additions {
        TextAdditions::Plain => Vec::new(),
        TextAdditions::Training => training_start_vec(),
        TextAdditions::Competitions => {
            let mut r = if text_type == TextType::Digits {
                competition_digits_vec()
            } else {
                competition_letters_vec()
            };
            let digits = decimal_digits(speed);
            match encode(&digits, 100, 100, SpeedModificationType::Constant, 10) {
                Ok((_, mut spoken)) => r.append(&mut spoken),
                Err(_) => {},
            }
            r.push(WordGap);
            let mut tail = training_start_vec();
            r.append(&mut tail);
            r
        },
    }
}

/// The end of a session: the closing signal whenever additions are played.
pub fn end_part(additions: TextAdditions) -> (r: Vec<Symbol>)
    ensures
        r@ == end_part_spec(additions),
{
    if additions == TextAdditions::Plain {
        Vec::new()
    } else {
        end_of_work_vec()
    }
}

} // verus!
