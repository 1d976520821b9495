use vstd::prelude::*;
use crate::morse_table::code_of;
use crate::morse_table::morse_code;
use crate::options::SpeedModificationType;
use crate::speed::check_window;
use crate::speed::cycle_len;
use crate::speed::speed_at_step;
use crate::speed::speed_for_step;
use crate::speed::whole_speed;
use crate::speed::ConfigError;
use crate::speed::Speed;
use crate::symbol::Symbol;
use crate::timing::lemma_markers_concat;
use crate::timing::lemma_markers_push;
use crate::timing::lemma_markers_update_last;
use crate::timing::marker_total;

verus! {

/// The code of a character with an intra-character gap between successive
/// dots and dashes, and none before the first or after the last.
pub open spec fn with_intra_gaps(code: Seq<Symbol>) -> Seq<Symbol>
    decreases code.len(),
{
    if code.len() <= 1 {
        code
    } else {
        with_intra_gaps(code.drop_last()) + seq![Symbol::IntraGap, code.last()]
    }
}

/// The tone symbols that a character contributes: its gapped code, or
/// nothing for a character outside the table.
pub open spec fn tones_of(c: char) -> Seq<Symbol> {
    match code_of(c) {
        Some(code) => with_intra_gaps(code),
        None => Seq::empty(),
    }
}

/// What the encoder has produced after a prefix of the text: the speed
/// profile, the symbols, and the position in the ramp cycle.
pub struct EncodeState {
    pub profile: Seq<Speed>,
    pub symbols: Seq<Symbol>,
    pub counter: nat,
}

/// Encodes one character `c` after the state `st`; `last` tells whether it
/// ends the text.
pub open spec fn encode_char(
    st: EncodeState,
    c: char,
    last: bool,
    kind: SpeedModificationType,
    n: int,
    min_speed: nat,
    max_speed: nat,
) -> EncodeState {
    let active = kind != SpeedModificationType::Constant;
    let marked = if c != ' ' && active {
        EncodeState {
            profile: st.profile.push(
                speed_at_step(kind, st.counter as int, n, min_speed as int, max_speed as int),
            ),
            symbols: st.symbols.push(Symbol::SpeedMarker),
            counter: if st.counter + 1 == n { 0 } else { (st.counter + 1) as nat },
        }
    } else {
        st
    };
    let toned = EncodeState {
        profile: marked.profile,
        symbols: marked.symbols + tones_of(c),
        counter: marked.counter,
    };
    let len = toned.symbols.len();
    if c != ' ' {
        if last {
            toned
        } else {
            EncodeState {
                profile: toned.profile,
                symbols: toned.symbols.push(Symbol::CharacterGap),
                counter: toned.counter,
            }
        }
    } else if len == 0 {
        // a space before anything was produced has no gap to widen
        toned
    } else if active && toned.counter == 0 {
        // the ramp has just wrapped: the word gap is played at the minimum speed
        EncodeState {
            profile: toned.profile.push(whole_speed(min_speed)),
            symbols: toned.symbols.update(len - 1, Symbol::SpeedMarker).push(Symbol::WordGap),
            counter: toned.counter,
        }
    } else {
        EncodeState {
            profile: toned.profile,
            symbols: toned.symbols.update(len - 1, Symbol::WordGap),
            counter: toned.counter,
        }
    }
}

/// The encoder's state after the first `k` characters of `text`.
pub open spec fn encode_prefix(
    text: Seq<char>,
    k: nat,
    kind: SpeedModificationType,
    window_len: int,
    min_speed: nat,
    max_speed: nat,
) -> EncodeState
    decreases k,
{
    if k == 0 || k > text.len() {
        EncodeState { profile: Seq::empty(), symbols: Seq::empty(), counter: 0 }
    } else {
        encode_char(
            encode_prefix(text, (k - 1) as nat, kind, window_len, min_speed, max_speed),
            text[k - 1],
            k == text.len(),
            kind,
            cycle_len(window_len),
            min_speed,
            max_speed,
        )
    }
}

/// The speed profile and symbol sequence of a whole text.
pub open spec fn encode_spec(
    text: Seq<char>,
    kind: SpeedModificationType,
    window_len: int,
    min_speed: nat,
    max_speed: nat,
) -> EncodeState {
    encode_prefix(text, text.len(), kind, window_len, min_speed, max_speed)
}

/// A gapped code of `n >= 1` items has `2n - 1` symbols: the items at even
/// positions, intra gaps at the odd ones.
pub proof fn lemma_intra_gap_layout(code: Seq<Symbol>)
    requires
        code.len() >= 1,
    ensures
        with_intra_gaps(code).len() == 2 * code.len() - 1,
        forall|j: int|
            0 <= j < with_intra_gaps(code).len() ==> #[trigger] with_intra_gaps(code)[j] == if j % 2
                == 0 {
                code[j / 2]
            } else {
                Symbol::IntraGap
            },
    decreases code.len(),
{
    if code.len() > 1 {
        let front = code.drop_last();
        lemma_intra_gap_layout(front);
        let g = with_intra_gaps(code);
        let wf = with_intra_gaps(front);
        assert(g == wf + seq![Symbol::IntraGap, code.last()]);
        assert forall|j: int| 0 <= j < g.len() implies #[trigger] g[j] == if j % 2 == 0 {
            code[j / 2]
        } else {
            Symbol::IntraGap
        } by {
            if j < wf.len() {
                assert(g[j] == wf[j]);
                if j % 2 == 0 {
                    assert(front[j / 2] == code[j / 2]);
                }
            }
        }
    }
}

/// Encoding a single supported character yields exactly its code, with an
/// intra gap between successive dots and dashes and none at either end;
/// with a speed modification, one speed marker comes first.
pub proof fn lemma_single_character(
    c: char,
    kind: SpeedModificationType,
    window_len: int,
    min_speed: nat,
    max_speed: nat,
)
    requires
        code_of(c) is Some,
    ensures
        ({
            let code = code_of(c)->0;
            let syms = encode_spec(seq![c], kind, window_len, min_speed, max_speed).symbols;
            let tones = if kind == SpeedModificationType::Constant {
                syms
            } else {
                syms.drop_first()
            };
            &&& kind != SpeedModificationType::Constant ==> syms[0] == Symbol::SpeedMarker
            &&& tones == with_intra_gaps(code)
            &&& tones.len() == 2 * code.len() - 1
            &&& forall|j: int|
                0 <= j < tones.len() ==> #[trigger] tones[j] == if j % 2 == 0 {
                    code[j / 2]
                } else {
                    Symbol::IntraGap
                }
        }),
{
    let code = code_of(c)->0;
    assert(code.len() >= 1);
    lemma_intra_gap_layout(code);
    let text = seq![c];
    let e0 = encode_prefix(text, 0, kind, window_len, min_speed, max_speed);
    assert(e0.symbols =~= Seq::<Symbol>::empty());
    let syms = encode_spec(text, kind, window_len, min_speed, max_speed).symbols;
    if kind == SpeedModificationType::Constant {
        assert(syms =~= with_intra_gaps(code));
    } else {
        assert(syms =~= seq![Symbol::SpeedMarker] + with_intra_gaps(code));
        assert(syms.drop_first() =~= with_intra_gaps(code));
    }
}

proof fn lemma_gapped_has_no_markers(code: Seq<Symbol>)
    requires
        forall|i: int| 0 <= i < code.len() ==> code[i] != Symbol::SpeedMarker,
    ensures
        marker_total(with_intra_gaps(code)) == 0,
    decreases code.len(),
{
    if code.len() == 1 {
        lemma_markers_push(Seq::empty(), code[0]);
        assert(Seq::<Symbol>::empty().push(code[0]) =~= code);
    } else if code.len() > 1 {
        let front = code.drop_last();
        lemma_gapped_has_no_markers(front);
        let tail = seq![Symbol::IntraGap, code.last()];
        lemma_markers_concat(with_intra_gaps(front), tail);
        lemma_markers_push(seq![Symbol::IntraGap], code.last());
        lemma_markers_push(Seq::empty(), Symbol::IntraGap);
        assert(Seq::<Symbol>::empty().push(Symbol::IntraGap) =~= seq![Symbol::IntraGap]);
        assert(seq![Symbol::IntraGap].push(code.last()) =~= tail);
    }
}

proof fn lemma_tones_have_no_markers(c: char)
    ensures
        marker_total(tones_of(c)) == 0,
{
    if code_of(c) is Some {
        let code = code_of(c)->0;
        assert(forall|i: int| 0 <= i < code.len() ==> code[i] != Symbol::SpeedMarker);
        lemma_gapped_has_no_markers(code);
    }
}

/// Before the end of the text, the symbols produced so far are empty or end
/// with a character or word gap.
proof fn lemma_ends_with_gap(
    text: Seq<char>,
    k: nat,
    kind: SpeedModificationType,
    window_len: int,
    min_speed: nat,
    max_speed: nat,
)
    requires
        k < text.len(),
    ensures
        ({
            let syms = encode_prefix(text, k, kind, window_len, min_speed, max_speed).symbols;
            syms.len() == 0 || syms.last() == Symbol::CharacterGap || syms.last() == Symbol::WordGap
        }),
{
}

/// The encoder appends one speed to the profile for each speed marker it
/// emits, so the profile always has exactly as many speeds as the symbols
/// have markers.
pub proof fn lemma_profile_matches_markers(
    text: Seq<char>,
    k: nat,
    kind: SpeedModificationType,
    window_len: int,
    min_speed: nat,
    max_speed: nat,
)
    requires
        k <= text.len(),
    ensures
        ({
            let e = encode_prefix(text, k, kind, window_len, min_speed, max_speed);
            e.profile.len() == marker_total(e.symbols)
        }),
    decreases k,
{
    if k > 0 {
        let km = (k - 1) as nat;
        lemma_profile_matches_markers(text, km, kind, window_len, min_speed, max_speed);
        let st = encode_prefix(text, km, kind, window_len, min_speed, max_speed);
        let c = text[k - 1];
        let active = kind != SpeedModificationType::Constant;
        lemma_tones_have_no_markers(c);
        if c != ' ' {
            let marked_syms = if active {
                st.symbols.push(Symbol::SpeedMarker)
            } else {
                st.symbols
            };
            lemma_markers_push(st.symbols, Symbol::SpeedMarker);
            lemma_markers_concat(marked_syms, tones_of(c));
            lemma_markers_push(marked_syms + tones_of(c), Symbol::CharacterGap);
        } else {
            assert(tones_of(c) =~= Seq::<Symbol>::empty());
            assert(st.symbols + tones_of(c) =~= st.symbols);
            if st.symbols.len() > 0 {
                lemma_ends_with_gap(text, km, kind, window_len, min_speed, max_speed);
                let l = st.symbols.len();
                lemma_markers_update_last(st.symbols, Symbol::SpeedMarker);
                lemma_markers_update_last(st.symbols, Symbol::WordGap);
                lemma_markers_push(st.symbols.update(l - 1, Symbol::SpeedMarker), Symbol::WordGap);
            }
        }
    }
}

/// At one constant speed the encoder emits no speed and no speed marker.
pub proof fn lemma_constant_has_no_markers(
    text: Seq<char>,
    k: nat,
    window_len: int,
    min_speed: nat,
    max_speed: nat,
)
    requires
        k <= text.len(),
    ensures
        ({
            let e = encode_prefix(
                text,
                k,
                SpeedModificationType::Constant,
                window_len,
                min_speed,
                max_speed,
            );
            e.profile.len() == 0 && marker_total(e.symbols) == 0
        }),
    decreases k,
{
    if k > 0 {
        lemma_constant_has_no_markers(text, (k - 1) as nat, window_len, min_speed, max_speed);
    }
    lemma_profile_matches_markers(
        text,
        k,
        SpeedModificationType::Constant,
        window_len,
        min_speed,
        max_speed,
    );
}

/// Appends `code` to `symbols` with intra-character gaps between its items.
fn append_with_gaps(symbols: &mut Vec<Symbol>, code: &Vec<Symbol>)
    ensures
        final(symbols)@ == old(symbols)@ + with_intra_gaps(code@),
{
    let mut k: usize = 0;
    while k < code.len()
        invariant
            k <= code.len(),
            symbols@ == old(symbols)@ + with_intra_gaps(code@.take(k as int)),
        decreases code.len() - k,
    {
        if k > 0 {
            symbols.push(Symbol::IntraGap);
        }
        symbols.push(code[k]);
        proof {
            let t = code@.take(k + 1);
            assert(t.drop_last() =~= code@.take(k as int));
            if k == 0 {
                assert(with_intra_gaps(code@.take(0)) =~= Seq::<Symbol>::empty());
                assert(with_intra_gaps(t) == t);
            }
            assert(symbols@ =~= old(symbols)@ + with_intra_gaps(t));
        }
        k = k + 1;
    }
    assert(code@.take(code.len() as int) =~= code@);
}

/// Turns text into its speed profile and symbol sequence.
///
/// Each non-space character gets, when a speed modification is active, the
/// next ramp speed and a speed marker; then its gapped Morse code (nothing
/// for a character outside the table); then a character gap unless it ends
/// the text. A space turns the last gap into a word gap; where the ramp has
/// just wrapped it also appends the minimum speed and marks that gap with a
/// speed marker before the word gap. The window must hold at least one
/// character when a modification is active.
pub fn encode(
    text: &Vec<char>,
    min_speed: u32,
    max_speed: u32,
    kind: SpeedModificationType,
    window_len: i32,
) -> (r: Result<(Vec<Speed>, Vec<Symbol>), ConfigError>)
    ensures
        r is Err <==> (kind != SpeedModificationType::Constant && cycle_len(window_len as int) < 2),
        r matches Ok((p, s)) ==> {
            let e = encode_spec(text@, kind, window_len as int, min_speed as nat, max_speed as nat);
            p@ == e.profile && s@ == e.symbols
        },
{
    if check_window(kind, window_len).is_err() {
        return Err(ConfigError::DegenerateWindow);
    }
    let active = kind != SpeedModificationType::Constant;
    let n: u64 = if window_len >= 1 { window_len as u64 * 5 } else { 5 };
    let mut profile: Vec<Speed> = Vec::new();
    let mut symbols: Vec<Symbol> = Vec::new();
    let mut counter: u64 = 0;
    let mut i: usize = 0;
    while i < text.len()
        invariant
            i <= text.len(),
            active == (kind != SpeedModificationType::Constant),
            active ==> n == cycle_len(window_len as int),
            5 <= n < 0x1_0000_0000_0000,
            counter < n,
            encode_prefix(text@, i as nat, kind, window_len as int, min_speed as nat, max_speed as nat)
                == (EncodeState { profile: profile@, symbols: symbols@, counter: counter as nat }),
        decreases text.len() - i,
    {
        let c = text[i];
        let last = i + 1 == text.len();
        let ghost st = EncodeState { profile: profile@, symbols: symbols@, counter: counter as nat };
        if c != ' ' && active {
            profile.push(speed_for_step(kind, counter, n, min_speed, max_speed));
            symbols.push(Symbol::SpeedMarker);
            counter = counter + 1;
            if counter == n {
                counter = 0;
            }
        }
        let ghost marked = EncodeState { profile: profile@, symbols: symbols@, counter: counter as nat };
        match morse_code(c) {
            Some(code) => append_with_gaps(&mut symbols, &code),
            None => {},
        }
        assert(symbols@ =~= marked.symbols + tones_of(c));
        if c != ' ' {
            if !last {
                symbols.push(Symbol::CharacterGap);
            }
        } else if symbols.len() > 0 {
            let l = symbols.len();
            if active && counter == 0 {
                profile.push(Speed { num: min_speed as i128, den: 1 });
                symbols.set(l - 1, Symbol::SpeedMarker);
                symbols.push(Symbol::WordGap);
            } else {
                symbols.set(l - 1, Symbol::WordGap);
            }
        }
        proof {
            let e = encode_char(st, c, last, kind, cycle_len(window_len as int), min_speed as nat,
                max_speed as nat);
            assert(e.profile =~= profile@);
            assert(e.symbols =~= symbols@);
        }
        i = i + 1;
    }
    Ok((profile, symbols))
}

} // verus!
