use vstd::prelude::*;

verus! {

/// One token of the timing sequence, in playback order.
#[derive(Clone, Copy, Debug, PartialEq, Eq, Structural)]
pub enum Symbol {
    Dot,
    Dash,
    IntraGap,
    CharacterGap,
    WordGap,
    SpeedMarker,
}

/// What a symbol does during playback.
#[derive(Clone, Copy, Debug, PartialEq, Eq, Structural)]
pub enum SymbolCategory {
    Tone,
    Silence,
    SpeedChange,
}

pub open spec fn category_of(s: Symbol) -> SymbolCategory {
    match s {
        Symbol::Dot | Symbol::Dash => SymbolCategory::Tone,
        Symbol::IntraGap | Symbol::CharacterGap | Symbol::WordGap => SymbolCategory::Silence,
        Symbol::SpeedMarker => SymbolCategory::SpeedChange,
    }
}

impl Symbol {
    pub fn category(self) -> (r: SymbolCategory)
        ensures
            r == category_of(self),
    {
        match self {
            Symbol::Dot | Symbol::Dash => SymbolCategory::Tone,
            Symbol::IntraGap | Symbol::CharacterGap | Symbol::WordGap => SymbolCategory::Silence,
            Symbol::SpeedMarker => SymbolCategory::SpeedChange,
        }
    }
}

/// Word gap length, in units, for a given character-gap delay: the delay
/// times 2.33, rounded to the nearest integer (halves round up).
pub open spec fn word_gap_for_delay(delay: nat) -> nat {
    (delay * 233 + 50) / 100
}

/// Duration of each symbol in tone units. A speed marker always lasts zero
/// units, so every symbol has an entry.
#[derive(Clone, Copy, Debug, PartialEq, Eq, Structural)]
pub struct ActionTimingTable {
    pub dot: u64,
    pub dash: u64,
    pub intra_gap: u64,
    pub character_gap: u64,
    pub word_gap: u64,
}

impl ActionTimingTable {
    pub open spec fn units_of(self, s: Symbol) -> nat {
        match s {
            Symbol::Dot => self.dot as nat,
            Symbol::Dash => self.dash as nat,
            Symbol::IntraGap => self.intra_gap as nat,
            Symbol::CharacterGap => self.character_gap as nat,
            Symbol::WordGap => self.word_gap as nat,
            Symbol::SpeedMarker => 0,
        }
    }

    /// The standard table: dot 1, dash 3, intra gap 1, character gap 3,
    /// word gap 7.
    pub open spec fn new_spec() -> ActionTimingTable {
        ActionTimingTable { dot: 1, dash: 3, intra_gap: 1, character_gap: 3, word_gap: 7 }
    }

    pub fn new() -> (r: ActionTimingTable)
        ensures
            r == Self::new_spec(),
    {
        ActionTimingTable { dot: 1, dash: 3, intra_gap: 1, character_gap: 3, word_gap: 7 }
    }

    pub fn units(&self, s: Symbol) -> (r: u64)
        ensures
            r == self.units_of(s),
    {
        match s {
            Symbol::Dot => self.dot,
            Symbol::Dash => self.dash,
            Symbol::IntraGap => self.intra_gap,
            Symbol::CharacterGap => self.character_gap,
            Symbol::WordGap => self.word_gap,
            Symbol::SpeedMarker => 0,
        }
    }

    /// Overrides the character gap with `delay` units and the word gap with
    /// `delay` times 2.33, rounded.
    pub fn set_delay(&mut self, delay: u32)
        ensures
            final(self).character_gap == delay,
            final(self).word_gap == word_gap_for_delay(delay as nat),
            final(self).dot == old(self).dot,
            final(self).dash == old(self).dash,
            final(self).intra_gap == old(self).intra_gap,
    {
        let d = delay as u64;
        self.character_gap = d;
        self.word_gap = (d * 233 + 50) / 100;
    }
}

} // verus!
