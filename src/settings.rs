use vstd::prelude::*;
use crate::additions::end_part;
use crate::additions::end_part_spec;
use crate::additions::lemma_additions_have_no_markers;
use crate::additions::start_part;
use crate::additions::start_part_spec;
use crate::encoder::encode;
use crate::encoder::encode_spec;
use crate::encoder::lemma_profile_matches_markers;
use crate::encoder::EncodeState;
use crate::options::SpeedModificationType;
use crate::options::TextAdditions;
use crate::options::TextType;
use crate::options::WaveType;
use crate::scheduler::flush_points;
use crate::scheduler::is_flush_point;
use crate::speed::cycle_len;
use crate::speed::whole_speed;
use crate::speed::ConfigError;
use crate::speed::Speed;
use crate::symbol::word_gap_for_delay;
use crate::symbol::ActionTimingTable;
use crate::symbol::Symbol;
use crate::timing::checkpoints_of;
use crate::timing::compute_timing;
use crate::timing::elapsed_ns;
use crate::timing::lemma_elapsed_faster_start;
use crate::timing::lemma_elapsed_monotone;
use crate::timing::lemma_elapsed_marker_free_prefix;
use crate::timing::lemma_markers_concat;
use crate::timing::symbol_ns;
use crate::timing::timing_error;
use crate::timing::Timing;
use crate::timing::TimingError;

verus! {

/// Why a configuration cannot be timed or played.
#[derive(Clone, Copy, Debug, PartialEq, Eq, Structural)]
pub enum PlayError {
    Config(ConfigError),
    Timing(TimingError),
}

/// An `u64` outcome that equals a mathematical one.
pub open spec fn same_outcome(r: Result<u64, PlayError>, s: Result<nat, PlayError>) -> bool {
    match (r, s) {
        (Ok(a), Ok(b)) => a == b,
        (Err(a), Err(b)) => a == b,
        _ => false,
    }
}

/// Everything that is played for one session, with its timing.
pub struct Session {
    /// Start part, encoded text and end part, in playback order.
    pub symbols: Vec<Symbol>,
    /// The speeds that the speed markers select, in order.
    pub profile: Vec<Speed>,
    /// The speed in effect before the first marker.
    pub start_speed: Speed,
    /// Duration of each symbol, total and checkpoints.
    pub timing: Timing,
    /// The indices at which a chunk is handed to the sink.
    pub chunk_ends: Vec<usize>,
    /// Duration of the start part.
    pub start_part_ns: u64,
    pub wave_type: WaveType,
    pub frequency: i32,
}

/// The configuration of a player. Every setter stores its value as given;
/// the queries recompute everything from the current values.
pub struct PlayerSettings {
    pub text: Vec<char>,
    pub text_type: TextType,
    pub speed: u32,
    pub modification: SpeedModificationType,
    pub min_speed: u32,
    pub max_speed: u32,
    pub modification_len: i32,
    pub table: ActionTimingTable,
    pub additions: TextAdditions,
    pub wave_type: WaveType,
    pub frequency: i32,
}

impl PlayerSettings {
    /// The modification window is usable.
    pub open spec fn window_ok(self) -> bool {
        !(self.modification != SpeedModificationType::Constant && cycle_len(
            self.modification_len as int,
        ) < 2)
    }

    /// The encoding of the text alone.
    pub open spec fn text_encoding(self) -> EncodeState {
        encode_spec(
            self.text@,
            self.modification,
            self.modification_len as int,
            self.min_speed as nat,
            self.max_speed as nat,
        )
    }

    /// The speed at which a session starts: the minimum for a rising ramp,
    /// the maximum for a falling one, else the configured speed.
    pub open spec fn session_speed(self) -> nat {
        match self.modification {
            SpeedModificationType::Speedup | SpeedModificationType::Zigzag => self.min_speed as nat,
            SpeedModificationType::Slowing => self.max_speed as nat,
            SpeedModificationType::Constant => self.speed as nat,
        }
    }

    pub open spec fn text_duration_spec(self) -> Result<nat, PlayError> {
        if !self.window_ok() {
            Err(PlayError::Config(ConfigError::DegenerateWindow))
        } else {
            let e = self.text_encoding();
            let start = whole_speed(self.speed as nat);
            match timing_error(e.symbols, self.table, self.text_type, start, e.profile) {
                Some(err) => Err(PlayError::Timing(err)),
                None => Ok(
                    elapsed_ns(
                        e.symbols,
                        e.symbols.len() as int,
                        self.table,
                        self.text_type,
                        start,
                        e.profile,
                    ),
                ),
            }
        }
    }

    pub open spec fn start_part_symbols(self) -> Seq<Symbol> {
        start_part_spec(self.additions, self.text_type, self.session_speed())
    }

    pub open spec fn start_part_duration_spec(self) -> Result<nat, PlayError> {
        let syms = self.start_part_symbols();
        let start = whole_speed(self.session_speed());
        match timing_error(syms, self.table, self.text_type, start, Seq::empty()) {
            Some(err) => Err(PlayError::Timing(err)),
            None => Ok(
                elapsed_ns(syms, syms.len() as int, self.table, self.text_type, start, Seq::empty()),
            ),
        }
    }

    /// The symbols of a whole session.
    pub open spec fn session_symbols(self) -> Seq<Symbol> {
        self.start_part_symbols() + self.text_encoding().symbols + end_part_spec(self.additions)
    }

    /// The default configuration: no text, letters at speed 100, no speed
    /// modification (bounds 100 and 110, window 10), the standard timing
    /// table, training additions, a square wave at 750 Hz.
    pub fn new() -> (r: PlayerSettings)
        ensures
            r.text@.len() == 0,
            r.text_type == TextType::Letters,
            r.speed == 100,
            r.modification == SpeedModificationType::Constant,
            r.min_speed == 100,
            r.max_speed == 110,
            r.modification_len == 10,
            r.table == ActionTimingTable::new_spec(),
            r.additions == TextAdditions::Training,
            r.wave_type == WaveType::Square,
            r.frequency == 750,
    {
        PlayerSettings {
            text: Vec::new(),
            text_type: TextType::Letters,
            speed: 100,
            modification: SpeedModificationType::Constant,
            min_speed: 100,
            max_speed: 110,
            modification_len: 10,
            table: ActionTimingTable::new(),
            additions: TextAdditions::Training,
            wave_type: WaveType::Square,
            frequency: 750,
        }
    }

    fn session_speed_exec(&self) -> (r: u32)
        ensures
            r == self.session_speed(),
    {
        match self.modification {
            SpeedModificationType::Speedup | SpeedModificationType::Zigzag => self.min_speed,
            SpeedModificationType::Slowing => self.max_speed,
            SpeedModificationType::Constant => self.speed,
        }
    }

    /// Duration of the text alone, in nanoseconds.
    pub fn get_text_duration(&self) -> (r: Result<u64, PlayError>)
        ensures
            same_outcome(r, self.text_duration_spec()),
            r != Err::<u64, PlayError>(PlayError::Timing(TimingError::ProfileTooShort)),
    {
        proof {
            lemma_profile_matches_markers(
                self.text@,
                self.text@.len(),
                self.modification,
                self.modification_len as int,
                self.min_speed as nat,
                self.max_speed as nat,
            );
        }
        match encode(&self.text, self.min_speed, self.max_speed, self.modification, self.modification_len) {
            Err(c) => Err(PlayError::Config(c)),
            Ok((profile, symbols)) => {
                let start = Speed { num: self.speed as i128, den: 1 };
                match compute_timing(&symbols, &self.table, self.text_type, start, &profile) {
                    Err(e) => Err(PlayError::Timing(e)),
                    Ok(t) => Ok(t.total_ns),
                }
            },
        }
    }

    /// Duration of the start part, in nanoseconds, at the session's starting
    /// speed.
    pub fn get_start_part_duration(&self) -> (r: Result<u64, PlayError>)
        ensures
            same_outcome(r, self.start_part_duration_spec()),
    {
        let speed = self.session_speed_exec();
        let syms = start_part(self.additions, self.text_type, speed);
        let start = Speed { num: speed as i128, den: 1 };
        let none: Vec<Speed> = Vec::new();
        match compute_timing(&syms, &self.table, self.text_type, start, &none) {
            Err(e) => Err(PlayError::Timing(e)),
            Ok(t) => Ok(t.total_ns),
        }
    }

    /// The checkpoints of the text, in nanoseconds: 0, then the elapsed time
    /// after each character and word gap.
    pub fn get_char_timings(&self) -> (r: Result<Vec<u64>, PlayError>)
        ensures
            !self.window_ok() ==> r == Err::<Vec<u64>, PlayError>(
                PlayError::Config(ConfigError::DegenerateWindow),
            ),
            self.window_ok() ==> {
                let e = self.text_encoding();
                let start = whole_speed(self.speed as nat);
                let err = timing_error(e.symbols, self.table, self.text_type, start, e.profile);
                let cps = checkpoints_of(
                    e.symbols,
                    e.symbols.len() as int,
                    self.table,
                    self.text_type,
                    start,
                    e.profile,
                );
                &&& r is Err <==> err is Some
                &&& r matches Err(x) ==> err matches Some(te) && x == PlayError::Timing(te)
                &&& r matches Ok(v) ==> v@.len() == cps.len() && forall|i: int|
                    0 <= i < v@.len() ==> v@[i] == cps[i]
            },
    {
        match encode(&self.text, self.min_speed, self.max_speed, self.modification, self.modification_len) {
            Err(c) => Err(PlayError::Config(c)),
            Ok((profile, symbols)) => {
                let start = Speed { num: self.speed as i128, den: 1 };
                match compute_timing(&symbols, &self.table, self.text_type, start, &profile) {
                    Err(e) => Err(PlayError::Timing(e)),
                    Ok(t) => Ok(t.checkpoints_ns),
                }
            },
        }
    }

    /// The speed before the first marker of a session.
    pub open spec fn session_start(self) -> Speed {
        whole_speed(self.session_speed())
    }

    /// Derives a session: the start part, the encoded text and the end
    /// part, with the text's speed profile, the timing of every symbol from
    /// the session's starting speed, the chunk ends and the duration of the
    /// start part.
    pub fn session(&self) -> (r: Result<Session, PlayError>)
        ensures
            !self.window_ok() ==> (r matches Err(x) && x == PlayError::Config(
                ConfigError::DegenerateWindow,
            )),
            self.window_ok() ==> {
                let syms = self.session_symbols();
                let prof = self.text_encoding().profile;
                let start = self.session_start();
                let err = timing_error(syms, self.table, self.text_type, start, prof);
                &&& r is Err <==> err is Some
                &&& r matches Err(x) ==> err matches Some(te) && x == PlayError::Timing(te)
                &&& err != Some(TimingError::ProfileTooShort)
                &&& r matches Ok(s) ==> {
                    &&& s.symbols@ == syms
                    &&& s.profile@ == prof
                    &&& s.start_speed == start
                    &&& s.timing.total_ns == elapsed_ns(
                        syms,
                        syms.len() as int,
                        self.table,
                        self.text_type,
                        start,
                        prof,
                    )
                    &&& s.timing.symbol_ns@.len() == syms.len()
                    &&& forall|k: int|
                        0 <= k < syms.len() ==> s.timing.symbol_ns@[k] == symbol_ns(
                            syms,
                            k,
                            self.table,
                            self.text_type,
                            start,
                            prof,
                        )
                    &&& s.start_part_ns == elapsed_ns(
                        self.start_part_symbols(),
                        self.start_part_symbols().len() as int,
                        self.table,
                        self.text_type,
                        start,
                        Seq::empty(),
                    )
                    &&& forall|c: int|
                        0 <= c < s.chunk_ends@.len() ==> is_flush_point(
                            syms,
                            #[trigger] s.chunk_ends@[c] as int,
                        )
                    &&& forall|c: int, d: int|
                        0 <= c < d < s.chunk_ends@.len() ==> s.chunk_ends@[c] < s.chunk_ends@[d]
                    &&& forall|i: int| is_flush_point(syms, i) ==> s.chunk_ends@.contains(i as usize)
                    &&& s.wave_type == self.wave_type
                    &&& s.frequency == self.frequency
                }
            },
    {
        let (profile, mut text_syms) = match encode(
            &self.text,
            self.min_speed,
            self.max_speed,
            self.modification,
            self.modification_len,
        ) {
            Err(c) => {
                return Err(PlayError::Config(c));
            },
            Ok(x) => x,
        };
        let speed = self.session_speed_exec();
        let mut symbols = start_part(self.additions, self.text_type, speed);
        let start_len = symbols.len();
        symbols.append(&mut text_syms);
        let mut end = end_part(self.additions);
        symbols.append(&mut end);
        let ghost syms = symbols@;
        let ghost start_spec = self.session_start();
        assert(syms =~= self.session_symbols());
        proof {
            let text_syms = self.text_encoding().symbols;
            let head = self.start_part_symbols();
            lemma_profile_matches_markers(
                self.text@,
                self.text@.len(),
                self.modification,
                self.modification_len as int,
                self.min_speed as nat,
                self.max_speed as nat,
            );
            lemma_additions_have_no_markers(self.additions, self.text_type, self.session_speed());
            lemma_markers_concat(head, text_syms);
            lemma_markers_concat(head + text_syms, end_part_spec(self.additions));
            let rest = text_syms + end_part_spec(self.additions);
            assert(syms =~= head + rest);
            lemma_elapsed_marker_free_prefix(
                head,
                rest,
                head.len() as int,
                self.table,
                self.text_type,
                start_spec,
                profile@,
                Seq::empty(),
            );
        }
        let start = Speed { num: speed as i128, den: 1 };
        let timing = match compute_timing(&symbols, &self.table, self.text_type, start, &profile) {
            Err(e) => {
                return Err(PlayError::Timing(e));
            },
            Ok(t) => t,
        };
        let mut start_part_ns: u64 = 0;
        let mut k: usize = 0;
        while k < start_len
            invariant
                syms == symbols@,
                k <= start_len <= syms.len(),
                timing.symbol_ns@.len() == syms.len(),
                forall|i: int|
                    0 <= i < syms.len() ==> timing.symbol_ns@[i] == symbol_ns(
                        syms,
                        i,
                        self.table,
                        self.text_type,
                        start,
                        profile@,
                    ),
                timing.total_ns == elapsed_ns(
                    syms,
                    syms.len() as int,
                    self.table,
                    self.text_type,
                    start,
                    profile@,
                ),
                start_part_ns == elapsed_ns(syms, k as int, self.table, self.text_type, start, profile@),
            decreases start_len - k,
        {
            proof {
                lemma_elapsed_monotone(
                    syms,
                    k + 1,
                    syms.len() as int,
                    self.table,
                    self.text_type,
                    start,
                    profile@,
                );
            }
            start_part_ns = start_part_ns + timing.symbol_ns[k];
            k = k + 1;
        }
        let chunk_ends = flush_points(&symbols);
        Ok(
            Session {
                symbols,
                profile,
                start_speed: start,
                timing,
                chunk_ends,
                start_part_ns,
                wave_type: self.wave_type,
                frequency: self.frequency,
            },
        )
    }

    pub fn set_text(&mut self, text: &Vec<char>)
        ensures
            final(self).text@ == text@,
            *final(self) == (PlayerSettings { text: final(self).text, ..*old(self) }),
    {
        self.text = text.clone();
    }

    pub fn set_text_type(&mut self, text_type: TextType)
        ensures
            *final(self) == (PlayerSettings { text_type, ..*old(self) }),
    {
        self.text_type = text_type;
    }

    pub fn set_speed(&mut self, speed: u32)
        ensures
            *final(self) == (PlayerSettings { speed, ..*old(self) }),
    {
        self.speed = speed;
    }

    pub fn set_min_speed(&mut self, min_speed: u32)
        ensures
            *final(self) == (PlayerSettings { min_speed, ..*old(self) }),
    {
        self.min_speed = min_speed;
    }

    pub fn set_max_speed(&mut self, max_speed: u32)
        ensures
            *final(self) == (PlayerSettings { max_speed, ..*old(self) }),
    {
        self.max_speed = max_speed;
    }

    pub fn set_modification(&mut self, modification: SpeedModificationType)
        ensures
            *final(self) == (PlayerSettings { modification, ..*old(self) }),
    {
        self.modification = modification;
    }

    /// Sets the character gap to `delay` units and the word gap to `delay`
    /// times 2.33, rounded.
    pub fn set_delay(&mut self, delay: u32)
        ensures
            final(self).table.character_gap == delay,
            final(self).table.word_gap == word_gap_for_delay(delay as nat),
            final(self).table.dot == old(self).table.dot,
            final(self).table.dash == old(self).table.dash,
            final(self).table.intra_gap == old(self).table.intra_gap,
            *final(self) == (PlayerSettings { table: final(self).table, ..*old(self) }),
    {
        self.table.set_delay(delay);
    }

    pub fn set_modification_length(&mut self, length: i32)
        ensures
            *final(self) == (PlayerSettings { modification_len: length, ..*old(self) }),
    {
        self.modification_len = length;
    }

    pub fn set_frequency(&mut self, frequency: i32)
        ensures
            *final(self) == (PlayerSettings { frequency, ..*old(self) }),
    {
        self.frequency = frequency;
    }

    pub fn set_wave_type(&mut self, wave_type: WaveType)
        ensures
            *final(self) == (PlayerSettings { wave_type, ..*old(self) }),
    {
        self.wave_type = wave_type;
    }

    pub fn set_text_additions(&mut self, text_additions: TextAdditions)
        ensures
            *final(self) == (PlayerSettings { additions: text_additions, ..*old(self) }),
    {
        self.additions = text_additions;
    }
}

/// Raising the speed never lengthens the text: when the text has a duration
/// at the configured speed, it has one at every higher speed, and that one
/// is no longer.
pub proof fn lemma_text_duration_non_increasing(cfg: PlayerSettings, faster: u32)
    requires
        cfg.speed <= faster,
        cfg.text_duration_spec() is Ok,
    ensures
        ({
            let fast = PlayerSettings { speed: faster, ..cfg };
            &&& fast.text_duration_spec() is Ok
            &&& fast.text_duration_spec()->Ok_0 <= cfg.text_duration_spec()->Ok_0
        }),
{
    let fast = PlayerSettings { speed: faster, ..cfg };
    let e = cfg.text_encoding();
    assert(fast.text_encoding() == e);
    lemma_elapsed_faster_start(
        e.symbols,
        e.symbols.len() as int,
        cfg.table,
        cfg.text_type,
        whole_speed(cfg.speed as nat),
        whole_speed(faster as nat),
        e.profile,
    );
}

} // verus!
