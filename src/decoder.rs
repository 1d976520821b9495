use vstd::prelude::*;
use crate::encoder::encode_prefix;
use crate::encoder::encode_spec;
use crate::encoder::tones_of;
use crate::encoder::with_intra_gaps;
use crate::morse_table::code_of;
use crate::options::SpeedModificationType;
use crate::symbol::Symbol;

verus! {

/// The base-3 digit of a dot (1) or a dash (2); other symbols carry none.
pub open spec fn symbol_digit(s: Symbol) -> int {
    match s {
        Symbol::Dot => 1,
        Symbol::Dash => 2,
        _ => 0,
    }
}

/// The key of the first `k` items of a code: its dots and dashes read as
/// base-3 digits, so that codes of different lengths never share a key.
pub open spec fn code_key(code: Seq<Symbol>, k: int) -> int
    decreases k,
{
    if k <= 0 {
        0
    } else {
        code_key(code, k - 1) * 3 + symbol_digit(code[k - 1])
    }
}

/// The character whose code has key `key`, if any.
pub open spec fn char_of_key(key: int) -> Option<char> {
    if 0 <= key < 729 {
        char_of_small_key(key as u16)
    } else {
        None
    }
}

pub open spec fn char_of_small_key(key: u16) -> Option<char> {
    match key {
        1 => Some('E'),
        2 => Some('T'),
        4 => Some('I'),
        5 => Some('A'),
        7 => Some('N'),
        8 => Some('M'),
        13 => Some('S'),
        14 => Some('U'),
        16 => Some('R'),
        17 => Some('W'),
        22 => Some('D'),
        23 => Some('K'),
        25 => Some('G'),
        26 => Some('O'),
        40 => Some('H'),
        41 => Some('V'),
        43 => Some('F'),
        49 => Some('L'),
        52 => Some('P'),
        53 => Some('J'),
        67 => Some('B'),
        68 => Some('X'),
        70 => Some('C'),
        71 => Some('Y'),
        76 => Some('Z'),
        77 => Some('Q'),
        121 => Some('5'),
        122 => Some('4'),
        125 => Some('3'),
        134 => Some('2'),
        161 => Some('1'),
        202 => Some('6'),
        203 => Some('='),
        205 => Some('/'),
        229 => Some('7'),
        238 => Some('8'),
        241 => Some('9'),
        242 => Some('0'),
        400 => Some('?'),
        455 => Some('.'),
        692 => Some(','),
        _ => None,
    }
}

/// Looks up the character whose code has key `key`.
pub fn char_for_key(key: u16) -> (r: Option<char>)
    ensures
        r == char_of_small_key(key),
{
    match key {
        1 => Some('E'),
        2 => Some('T'),
        4 => Some('I'),
        5 => Some('A'),
        7 => Some('N'),
        8 => Some('M'),
        13 => Some('S'),
        14 => Some('U'),
        16 => Some('R'),
        17 => Some('W'),
        22 => Some('D'),
        23 => Some('K'),
        25 => Some('G'),
        26 => Some('O'),
        40 => Some('H'),
        41 => Some('V'),
        43 => Some('F'),
        49 => Some('L'),
        52 => Some('P'),
        53 => Some('J'),
        67 => Some('B'),
        68 => Some('X'),
        70 => Some('C'),
        71 => Some('Y'),
        76 => Some('Z'),
        77 => Some('Q'),
        121 => Some('5'),
        122 => Some('4'),
        125 => Some('3'),
        134 => Some('2'),
        161 => Some('1'),
        202 => Some('6'),
        203 => Some('='),
        205 => Some('/'),
        229 => Some('7'),
        238 => Some('8'),
        241 => Some('9'),
        242 => Some('0'),
        400 => Some('?'),
        455 => Some('.'),
        692 => Some(','),
        _ => None,
    }
}

/// The key of each character's code leads back to that character.
pub proof fn lemma_key_round_trip(c: char)
    requires
        code_of(c) is Some,
    ensures
        char_of_key(code_key(code_of(c)->0, code_of(c)->0.len() as int)) == Some(c),
{
    reveal_with_fuel(code_key, 7);
}

/// The key of a character's code.
pub open spec fn key_of_char(c: char) -> int {
    code_key(code_of(c)->0, code_of(c)->0.len() as int)
}

/// What the decoder has read: the characters so far and the key of the
/// code being read.
pub struct DecodeState {
    pub out: Seq<char>,
    pub key: int,
}

pub open spec fn fresh() -> DecodeState {
    DecodeState { out: Seq::empty(), key: 0 }
}

/// Ends a code: appends its character, or nothing for an unknown code.
pub open spec fn emit(out: Seq<char>, key: int) -> Seq<char> {
    match char_of_key(key) {
        Some(c) => out.push(c),
        None => out,
    }
}

/// Reads one symbol: dots and dashes extend the key, a character gap ends
/// the code, a word gap ends it and adds a space; other symbols are skipped.
pub open spec fn decode_step(st: DecodeState, s: Symbol) -> DecodeState {
    match s {
        Symbol::Dot | Symbol::Dash => DecodeState { out: st.out, key: st.key * 3 + symbol_digit(s) },
        Symbol::CharacterGap => DecodeState { out: emit(st.out, st.key), key: 0 },
        Symbol::WordGap => DecodeState { out: emit(st.out, st.key).push(' '), key: 0 },
        _ => st,
    }
}

/// The state after reading the first `k` symbols of `syms` from `st`.
pub open spec fn decode_from(st: DecodeState, syms: Seq<Symbol>, k: int) -> DecodeState
    decreases k,
{
    if k <= 0 {
        st
    } else {
        decode_step(decode_from(st, syms, k - 1), syms[k - 1])
    }
}

pub open spec fn read_all(st: DecodeState, syms: Seq<Symbol>) -> DecodeState {
    decode_from(st, syms, syms.len() as int)
}

/// The text that a symbol sequence spells.
pub open spec fn decode_spec(syms: Seq<Symbol>) -> Seq<char> {
    let st = read_all(fresh(), syms);
    emit(st.out, st.key)
}

fn emit_key(out: &mut Vec<char>, key: u16)
    requires
        key <= 729,
    ensures
        final(out)@ == emit(old(out)@, key as int),
{
    if key < 729 {
        match char_for_key(key) {
            Some(c) => out.push(c),
            None => {},
        }
    }
}

/// Reads symbols back into text: each code between gaps becomes its
/// character (nothing for an unknown code), each word gap also a space;
/// intra gaps and speed markers are skipped.
pub fn decode(syms: &Vec<Symbol>) -> (r: Vec<char>)
    ensures
        r@ == decode_spec(syms@),
{
    let mut out: Vec<char> = Vec::new();
    // the key, held at 729 once it is past every code's key
    let mut key: u16 = 0;
    let mut k: usize = 0;
    while k < syms.len()
        invariant
            k <= syms.len(),
            out@ == decode_from(fresh(), syms@, k as int).out,
            decode_from(fresh(), syms@, k as int).key >= 0,
            key as int == if decode_from(fresh(), syms@, k as int).key < 729 {
                decode_from(fresh(), syms@, k as int).key
            } else {
                729
            },
        decreases syms.len() - k,
    {
        match syms[k] {
            Symbol::Dot | Symbol::Dash => {
                let d: u16 = if syms[k] == Symbol::Dot { 1 } else { 2 };
                key = if key >= 243 { 729 } else { key * 3 + d };
            },
            Symbol::CharacterGap => {
                emit_key(&mut out, key);
                key = 0;
            },
            Symbol::WordGap => {
                emit_key(&mut out, key);
                out.push(' ');
                key = 0;
            },
            _ => {},
        }
        k = k + 1;
    }
    emit_key(&mut out, key);
    out
}

proof fn lemma_decode_agree(st: DecodeState, a: Seq<Symbol>, b: Seq<Symbol>, k: int)
    requires
        0 <= k <= a.len(),
        k <= b.len(),
        forall|i: int| 0 <= i < k ==> a[i] == b[i],
    ensures
        decode_from(st, a, k) == decode_from(st, b, k),
    decreases k,
{
    if k > 0 {
        lemma_decode_agree(st, a, b, k - 1);
    }
}

proof fn lemma_read_push(st: DecodeState, s: Seq<Symbol>, x: Symbol)
    ensures
        read_all(st, s.push(x)) == decode_step(read_all(st, s), x),
{
    lemma_decode_agree(st, s, s.push(x), s.len() as int);
}

proof fn lemma_read_concat(st: DecodeState, a: Seq<Symbol>, b: Seq<Symbol>)
    ensures
        read_all(st, a + b) == read_all(read_all(st, a), b),
    decreases b.len(),
{
    if b.len() == 0 {
        assert(a + b =~= a);
    } else {
        let front = b.drop_last();
        lemma_read_concat(st, a, front);
        assert(a + b =~= (a + front).push(b.last()));
        assert(b =~= front.push(b.last()));
        lemma_read_push(st, a + front, b.last());
        lemma_read_push(read_all(st, a), front, b.last());
    }
}

proof fn lemma_key_agree(a: Seq<Symbol>, b: Seq<Symbol>, k: int)
    requires
        0 <= k <= a.len(),
        k <= b.len(),
        forall|i: int| 0 <= i < k ==> a[i] == b[i],
    ensures
        code_key(a, k) == code_key(b, k),
    decreases k,
{
    if k > 0 {
        lemma_key_agree(a, b, k - 1);
    }
}

/// Reading a gapped code from a fresh key leaves the code's key.
proof fn lemma_read_gapped(out: Seq<char>, code: Seq<Symbol>)
    requires
        code.len() >= 1,
        forall|i: int| 0 <= i < code.len() ==> code[i] == Symbol::Dot || code[i] == Symbol::Dash,
    ensures
        read_all(DecodeState { out, key: 0 }, with_intra_gaps(code)) == (DecodeState {
            out,
            key: code_key(code, code.len() as int),
        }),
    decreases code.len(),
{
    let st = DecodeState { out, key: 0 };
    if code.len() == 1 {
        assert(with_intra_gaps(code) == code);
        assert(decode_from(st, code, 0) == st);
        assert(code_key(code, 1) == code_key(code, 0) * 3 + symbol_digit(code[0]));
    } else {
        let front = code.drop_last();
        lemma_read_gapped(out, front);
        let tail = seq![Symbol::IntraGap, code.last()];
        lemma_read_concat(st, with_intra_gaps(front), tail);
        assert(tail =~= seq![Symbol::IntraGap].push(code.last()));
        assert(seq![Symbol::IntraGap] =~= Seq::<Symbol>::empty().push(Symbol::IntraGap));
        let mid = read_all(st, with_intra_gaps(front));
        lemma_read_push(mid, seq![Symbol::IntraGap], code.last());
        lemma_read_push(mid, Seq::empty(), Symbol::IntraGap);
        assert(decode_from(mid, Seq::<Symbol>::empty(), 0) == mid);
        lemma_key_agree(code, front, code.len() - 1);
        assert(code_key(code, code.len() as int) == code_key(code, code.len() - 1) * 3
            + symbol_digit(code.last()));
    }
}

/// Text made of supported characters and single spaces between words.
pub open spec fn words_well_formed(text: Seq<char>) -> bool {
    &&& forall|i: int| 0 <= i < text.len() ==> code_of(#[trigger] text[i]) is Some || text[i] == ' '
    &&& text.len() > 0 ==> text[0] != ' ' && text.last() != ' '
    &&& forall|i: int| 0 < i < text.len() && #[trigger] text[i] == ' ' ==> text[i - 1] != ' '
}

/// What decoding the first `k` encoded characters shows.
pub open spec fn decoded_so_far(
    text: Seq<char>,
    k: nat,
    kind: SpeedModificationType,
    window_len: int,
    min_speed: nat,
    max_speed: nat,
) -> bool {
    let syms = encode_prefix(text, k, kind, window_len, min_speed, max_speed).symbols;
    if k == 0 || text[k - 1] == ' ' {
        read_all(fresh(), syms) == DecodeState { out: text.take(k as int), key: 0 }
    } else if k < text.len() {
        &&& syms.len() >= 1
        &&& syms.last() == Symbol::CharacterGap
        &&& read_all(fresh(), syms.drop_last()) == DecodeState {
            out: text.take(k - 1),
            key: key_of_char(text[k - 1]),
        }
    } else {
        read_all(fresh(), syms) == DecodeState { out: text.take(k - 1), key: key_of_char(text[k - 1]) }
    }
}

proof fn lemma_code_digits(c: char)
    requires
        code_of(c) is Some,
    ensures
        code_of(c)->0.len() >= 1,
        forall|i: int|
            0 <= i < code_of(c)->0.len() ==> code_of(c)->0[i] == Symbol::Dot || code_of(c)->0[i]
                == Symbol::Dash,
{
}

proof fn lemma_decoded_so_far(
    text: Seq<char>,
    k: nat,
    kind: SpeedModificationType,
    window_len: int,
    min_speed: nat,
    max_speed: nat,
)
    requires
        words_well_formed(text),
        k <= text.len(),
    ensures
        decoded_so_far(text, k, kind, window_len, min_speed, max_speed),
    decreases k,
{
    if k == 0 {
        assert(text.take(0) =~= Seq::<char>::empty());
        assert(encode_prefix(text, 0, kind, window_len, min_speed, max_speed).symbols
            =~= Seq::<Symbol>::empty());
        assert(decode_from(fresh(), Seq::<Symbol>::empty(), 0) == fresh());
        return;
    }
    let km = (k - 1) as nat;
    lemma_decoded_so_far(text, km, kind, window_len, min_speed, max_speed);
    let st = encode_prefix(text, km, kind, window_len, min_speed, max_speed);
    let e = encode_prefix(text, k, kind, window_len, min_speed, max_speed);
    let c = text[km as int];
    let active = kind != SpeedModificationType::Constant;
    if c != ' ' {
        // everything before c is fully decoded
        if km > 0 && text[km - 1] != ' ' {
            assert(st.symbols =~= st.symbols.drop_last().push(Symbol::CharacterGap));
            lemma_read_push(fresh(), st.symbols.drop_last(), Symbol::CharacterGap);
            lemma_key_round_trip(text[km - 1]);
            assert(text.take(km - 1).push(text[km - 1]) =~= text.take(km as int));
        }
        assert(read_all(fresh(), st.symbols) == DecodeState { out: text.take(km as int), key: 0 });
        let marked = if active {
            st.symbols.push(Symbol::SpeedMarker)
        } else {
            st.symbols
        };
        lemma_read_push(fresh(), st.symbols, Symbol::SpeedMarker);
        assert(read_all(fresh(), marked) == DecodeState { out: text.take(km as int), key: 0 });
        lemma_code_digits(c);
        let code = code_of(c)->0;
        lemma_read_concat(fresh(), marked, tones_of(c));
        lemma_read_gapped(text.take(km as int), code);
        let toned = marked + tones_of(c);
        assert(read_all(fresh(), toned) == DecodeState {
            out: text.take(km as int),
            key: key_of_char(c),
        });
        if k < text.len() {
            assert(e.symbols == toned.push(Symbol::CharacterGap));
            assert(e.symbols.drop_last() =~= toned);
        } else {
            assert(e.symbols == toned);
        }
    } else {
        assert(km > 0);
        assert(text[km - 1] != ' ');
        assert(k < text.len());
        assert(tones_of(c) =~= Seq::<Symbol>::empty());
        assert(st.symbols + tones_of(c) =~= st.symbols);
        let q = st.symbols.drop_last();
        let l = st.symbols.len();
        lemma_key_round_trip(text[km - 1]);
        assert(text.take(km - 1).push(text[km - 1]).push(' ') =~= text.take(k as int));
        if active && st.counter == 0 {
            assert(e.symbols =~= q.push(Symbol::SpeedMarker).push(Symbol::WordGap));
            lemma_read_push(fresh(), q, Symbol::SpeedMarker);
            lemma_read_push(fresh(), q.push(Symbol::SpeedMarker), Symbol::WordGap);
        } else {
            assert(e.symbols =~= q.push(Symbol::WordGap));
            lemma_read_push(fresh(), q, Symbol::WordGap);
        }
    }
}

/// Decoding recovers the text: for text of supported characters with single
/// spaces between words, reading back the encoder's symbols (speed markers
/// skipped) gives the text again, whatever the speed modification.
pub proof fn lemma_decode_round_trip(
    text: Seq<char>,
    kind: SpeedModificationType,
    window_len: int,
    min_speed: nat,
    max_speed: nat,
)
    requires
        words_well_formed(text),
    ensures
        decode_spec(encode_spec(text, kind, window_len, min_speed, max_speed).symbols) == text,
{
    let n = text.len();
    lemma_decoded_so_far(text, n, kind, window_len, min_speed, max_speed);
    if n == 0 {
        assert(text.take(0) =~= text);
    } else {
        lemma_key_round_trip(text[n - 1]);
        assert(text.take(n - 1).push(text[n - 1]) =~= text);
    }
}

} // verus!
