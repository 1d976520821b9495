use morse_player::additions::decimal_digits;
use morse_player::additions::start_part;
use morse_player::decoder::decode;
use morse_player::encoder::encode;
use morse_player::morse_table::morse_code;
use morse_player::scheduler::chunk_range;
use morse_player::scheduler::fade_lengths;
use morse_player::scheduler::flush_points;
use morse_player::scheduler::sample_count;
use morse_player::scheduler::PlaybackScheduler;
use morse_player::scheduler::PlaybackState;
use morse_player::scheduler::SchedulerAction;
use morse_player::settings::PlayError;
use morse_player::settings::PlayerSettings;
use morse_player::speed::speed_for_step;
use morse_player::speed::ConfigError;
use morse_player::speed::Speed;
use morse_player::timing::compute_timing;
use morse_player::timing::unit_duration_ns;
use morse_player::timing::TimingError;
use morse_player::ActionTimingTable;
use morse_player::SpeedModificationType;
use morse_player::Symbol;
use morse_player::Symbol::{CharacterGap, Dash, Dot, IntraGap, SpeedMarker, WordGap};
use morse_player::TextAdditions;
use morse_player::TextType;

const TABLE: [(char, &str); 41] = [
    ('A', ".-"), ('B', "-..."), ('C', "-.-."), ('D', "-.."), ('E', "."),
    ('F', "..-."), ('G', "--."), ('H', "...."), ('I', ".."), ('J', ".---"),
    ('K', "-.-"), ('L', ".-.."), ('M', "--"), ('N', "-."), ('O', "---"),
    ('P', ".--."), ('Q', "--.-"), ('R', ".-."), ('S', "..."), ('T', "-"),
    ('U', "..-"), ('V', "...-"), ('W', ".--"), ('X', "-..-"), ('Y', "-.--"),
    ('Z', "--.."), ('0', "-----"), ('1', ".----"), ('2', "..---"), ('3', "...--"),
    ('4', "....-"), ('5', "....."), ('6', "-...."), ('7', "--..."), ('8', "---.."),
    ('9', "----."), ('.', ".-.-.-"), (',', "--..--"), ('/', "-..-."), ('?', "..--.."),
    ('=', "-...-"),
];

fn chars(s: &str) -> Vec<char> {
    s.chars().collect()
}

fn plain(text: &str) -> Vec<Symbol> {
    encode(&chars(text), 100, 110, SpeedModificationType::Constant, 10).unwrap().1
}

fn gapped(code: &str) -> Vec<Symbol> {
    let mut v = Vec::new();
    for (i, c) in code.chars().enumerate() {
        if i > 0 {
            v.push(IntraGap);
        }
        v.push(if c == '.' { Dot } else { Dash });
    }
    v
}

fn settings_for(text: &str) -> PlayerSettings {
    let mut s = PlayerSettings::new();
    s.set_text(&chars(text));
    s.set_text_additions(TextAdditions::Plain);
    s
}

#[test]
fn single_character_matches_table() {
    for (c, code) in TABLE.iter() {
        assert_eq!(plain(&c.to_string()), gapped(code), "character {}", c);
        let marked = encode(&vec![*c], 100, 110, SpeedModificationType::Speedup, 2).unwrap().1;
        let mut expected = vec![SpeedMarker];
        expected.extend(gapped(code));
        assert_eq!(marked, expected);
    }
}

#[test]
fn unsupported_characters_have_no_code() {
    assert!(morse_code('a').is_none());
    assert!(morse_code(' ').is_none());
    assert!(morse_code('#').is_none());
    assert_eq!(morse_code('Q'), Some(vec![Dash, Dash, Dot, Dash]));
}

#[test]
fn sos_end_to_end() {
    let expected = vec![
        Dot, IntraGap, Dot, IntraGap, Dot, CharacterGap, Dash, IntraGap, Dash, IntraGap, Dash,
        CharacterGap, Dot, IntraGap, Dot, IntraGap, Dot,
    ];
    assert_eq!(plain("SOS"), expected);
    let s = settings_for("SOS");
    assert_eq!(unit_duration_ns(TextType::Letters, Speed { num: 100, den: 1 }), 50_000_000);
    // 27 units of 50 ms
    assert_eq!(s.get_text_duration(), Ok(1_350_000_000));
    assert_eq!(s.get_char_timings().unwrap(), vec![0, 400_000_000, 1_100_000_000]);
}

#[test]
fn word_gap_replaces_character_gap() {
    assert_eq!(plain("E E"), vec![Dot, WordGap, Dot]);
    assert_eq!(plain("E  E"), vec![Dot, WordGap, Dot]);
    assert_eq!(plain(" E"), vec![Dot]);
    assert_eq!(plain(""), Vec::<Symbol>::new());
}

#[test]
fn unknown_character_keeps_its_gap() {
    assert_eq!(plain("E#E"), vec![Dot, CharacterGap, CharacterGap, Dot]);
    let (profile, syms) = encode(&chars("#"), 100, 110, SpeedModificationType::Speedup, 1).unwrap();
    assert_eq!(syms, vec![SpeedMarker]);
    assert_eq!(profile.len(), 1);
}

#[test]
fn speedup_profile_example() {
    let text = chars("EEEEEEEEEEE");
    let (profile, syms) = encode(&text, 100, 110, SpeedModificationType::Speedup, 2).unwrap();
    assert_eq!(profile.len(), 11);
    assert_eq!(syms.iter().filter(|s| **s == SpeedMarker).count(), 11);
    let value = |s: &Speed| (s.num, s.den as i128);
    let (n0, d0) = value(&profile[0]);
    assert_eq!(n0, 100 * d0);
    let (n9, d9) = value(&profile[9]);
    assert_eq!(n9, 110 * d9);
    let (n10, d10) = value(&profile[10]);
    assert_eq!(n10, 100 * d10);
    assert_eq!(profile[1], Speed { num: 910, den: 9 });
}

#[test]
fn slowing_and_zigzag_ramps() {
    assert_eq!(speed_for_step(SpeedModificationType::Slowing, 0, 10, 100, 110), Speed { num: 990, den: 9 });
    assert_eq!(speed_for_step(SpeedModificationType::Slowing, 9, 10, 100, 110), Speed { num: 900, den: 9 });
    assert_eq!(speed_for_step(SpeedModificationType::Zigzag, 0, 10, 100, 110), Speed { num: 400, den: 4 });
    assert_eq!(speed_for_step(SpeedModificationType::Zigzag, 4, 10, 100, 110), Speed { num: 440, den: 4 });
    assert_eq!(speed_for_step(SpeedModificationType::Zigzag, 5, 10, 100, 110), Speed { num: 440, den: 4 });
    assert_eq!(speed_for_step(SpeedModificationType::Zigzag, 9, 10, 100, 110), Speed { num: 400, den: 4 });
}

#[test]
fn ramp_wrap_at_space_pins_minimum() {
    let (profile, syms) = encode(&chars("EEEEE E"), 100, 110, SpeedModificationType::Speedup, 1).unwrap();
    assert_eq!(profile.len(), 7);
    assert_eq!(profile[5], Speed { num: 100, den: 1 });
    assert_eq!(
        syms,
        vec![
            SpeedMarker, Dot, CharacterGap, SpeedMarker, Dot, CharacterGap, SpeedMarker, Dot,
            CharacterGap, SpeedMarker, Dot, CharacterGap, SpeedMarker, Dot, SpeedMarker, WordGap,
            SpeedMarker, Dot,
        ]
    );
}

#[test]
fn degenerate_window_is_a_config_error() {
    assert_eq!(
        encode(&chars("E"), 100, 110, SpeedModificationType::Speedup, 0).unwrap_err(),
        ConfigError::DegenerateWindow
    );
    assert!(encode(&chars("E"), 100, 110, SpeedModificationType::Constant, 0).is_ok());
    let mut s = settings_for("E");
    s.set_modification(SpeedModificationType::Zigzag);
    s.set_modification_length(-3);
    assert_eq!(s.get_text_duration(), Err(PlayError::Config(ConfigError::DegenerateWindow)));
    assert!(s.session().is_err());
}

#[test]
fn duration_non_increasing_with_speed() {
    let mut last = u64::MAX;
    for speed in [20u32, 50, 99, 100, 101, 150, 300, 1000] {
        let mut s = settings_for("HELLO WORLD");
        s.set_speed(speed);
        let d = s.get_text_duration().unwrap();
        assert!(d <= last);
        last = d;
    }
}

#[test]
fn symbol_durations_sum_to_total() {
    let mut s = settings_for("PARIS 73");
    s.set_modification(SpeedModificationType::Zigzag);
    s.set_modification_length(1);
    let session = s.session().unwrap();
    let sum: u64 = session.timing.symbol_ns.iter().sum();
    assert_eq!(sum, session.timing.total_ns);
    assert_eq!(session.timing.symbol_ns.len(), session.symbols.len());
}

#[test]
fn timing_errors() {
    let table = ActionTimingTable::new();
    let start = Speed { num: 100, den: 1 };
    assert_eq!(
        compute_timing(&vec![SpeedMarker, Dot], &table, TextType::Letters, start, &vec![]).err(),
        Some(TimingError::ProfileTooShort)
    );
    assert_eq!(
        compute_timing(&vec![Dot], &table, TextType::Letters, Speed { num: 0, den: 1 }, &vec![]).err(),
        Some(TimingError::InvalidSpeed)
    );
    assert_eq!(
        compute_timing(&vec![SpeedMarker, Dot], &table, TextType::Letters, start, &vec![Speed { num: -5, den: 4 }])
            .err(),
        Some(TimingError::InvalidSpeed)
    );
    let mut big = ActionTimingTable::new();
    big.dot = u64::MAX;
    assert_eq!(
        compute_timing(&vec![Dot], &big, TextType::Letters, start, &vec![]).err(),
        Some(TimingError::Overflow)
    );
    let t = compute_timing(&vec![SpeedMarker, Dash], &table, TextType::Digits, start, &vec![Speed { num: 200, den: 1 }])
        .unwrap();
    assert_eq!(t.symbol_ns, vec![0, 51_000_000]);
    assert_eq!(t.checkpoints_ns, vec![0]);
}

#[test]
fn base_units_by_text_type() {
    let s = Speed { num: 100, den: 1 };
    assert_eq!(unit_duration_ns(TextType::Digits, s), 34_000_000);
    assert_eq!(unit_duration_ns(TextType::Mixed, s), 42_000_000);
    assert_eq!(unit_duration_ns(TextType::Letters, Speed { num: 200, den: 1 }), 25_000_000);
    assert_eq!(unit_duration_ns(TextType::Letters, Speed { num: 910, den: 9 }), 49_450_549);
}

#[test]
fn delay_sets_both_gaps() {
    let mut t = ActionTimingTable::new();
    assert_eq!((t.dot, t.dash, t.intra_gap, t.character_gap, t.word_gap), (1, 3, 1, 3, 7));
    t.set_delay(100);
    assert_eq!((t.character_gap, t.word_gap), (100, 233));
    t.set_delay(5);
    assert_eq!((t.character_gap, t.word_gap), (5, 12));
    t.set_delay(0);
    assert_eq!((t.character_gap, t.word_gap), (0, 0));
    let mut s = settings_for("E E");
    s.set_delay(3);
    assert_eq!(s.get_text_duration(), Ok(9 * 50_000_000));
}

#[test]
fn training_and_competition_parts() {
    let training = start_part(TextAdditions::Training, TextType::Letters, 100);
    assert_eq!(training.len(), 34);
    let mut expected = plain("VVV =");
    expected.push(WordGap);
    assert_eq!(training, expected);
    assert!(start_part(TextAdditions::Plain, TextType::Letters, 100).is_empty());

    let comp = start_part(TextAdditions::Competitions, TextType::Letters, 120);
    let mut expected = plain("OOOOO ");
    expected.extend(plain("120"));
    expected.push(WordGap);
    expected.extend(training.clone());
    assert_eq!(comp, expected);

    let digits = start_part(TextAdditions::Competitions, TextType::Digits, 7);
    let mut expected = plain("00000 ");
    expected.extend(plain("7"));
    expected.push(WordGap);
    expected.extend(training);
    assert_eq!(digits, expected);
}

#[test]
fn decimal_digits_of_speeds() {
    assert_eq!(decimal_digits(0), vec!['0']);
    assert_eq!(decimal_digits(100), vec!['1', '0', '0']);
    assert_eq!(decimal_digits(4294967295), chars("4294967295"));
}

#[test]
fn session_wraps_text_in_additions() {
    let mut s = PlayerSettings::new();
    s.set_text(&chars("E"));
    let session = s.session().unwrap();
    let mut expected = plain("VVV =");
    expected.push(WordGap);
    expected.push(Dot);
    expected.extend(vec![WordGap, Dot, IntraGap, Dash, IntraGap, Dot, IntraGap, Dash, IntraGap, Dot]);
    assert_eq!(session.symbols, expected);
    assert_eq!(Ok(session.start_part_ns), s.get_start_part_duration());
    assert_eq!(session.chunk_ends, vec![23, 33, 35, 44]);
}

#[test]
fn session_speed_follows_modification() {
    let mut s = settings_for("E");
    s.set_speed(80);
    s.set_min_speed(60);
    s.set_max_speed(90);
    s.set_modification(SpeedModificationType::Speedup);
    assert_eq!(s.session().unwrap().start_speed, Speed { num: 60, den: 1 });
    s.set_modification(SpeedModificationType::Slowing);
    assert_eq!(s.session().unwrap().start_speed, Speed { num: 90, den: 1 });
    s.set_modification(SpeedModificationType::Constant);
    assert_eq!(s.session().unwrap().start_speed, Speed { num: 80, den: 1 });
}

#[test]
fn chunks_end_at_word_gaps_and_last_symbol() {
    let syms = plain("E E");
    let points = flush_points(&syms);
    assert_eq!(points, vec![1, 2]);
    assert_eq!(chunk_range(&points, 0), (0, 1));
    assert_eq!(chunk_range(&points, 1), (2, 2));
    assert!(flush_points(&vec![]).is_empty());
}

#[test]
fn sample_counts() {
    assert_eq!(sample_count(50_000_000), 2400);
    assert_eq!(sample_count(0), 0);
    assert_eq!(fade_lengths(1000), (19, 9));
    assert_eq!(fade_lengths(5), (5, 5));
    assert_eq!(fade_lengths(12), (12, 9));
}

/// A sink that plays one chunk every `drain_every` polls.
struct TestSink {
    pending: usize,
    polls: usize,
    drain_every: usize,
    max_pending_at_append: usize,
    appended: usize,
}

impl TestSink {
    fn poll(&mut self) -> usize {
        self.polls += 1;
        if self.polls % self.drain_every == 0 && self.pending > 0 {
            self.pending -= 1;
        }
        self.pending
    }
}

fn run(chunks: usize, sink: &mut TestSink, cancel_after_appends: Option<usize>) -> PlaybackState {
    let mut sched = PlaybackScheduler::new(chunks);
    for _ in 0..100_000 {
        let cancelled = cancel_after_appends.map_or(false, |n| sink.appended >= n);
        let pending = sink.poll();
        match sched.step(pending, cancelled) {
            SchedulerAction::Append { chunk } => {
                assert_eq!(chunk, sink.appended);
                sink.max_pending_at_append = sink.max_pending_at_append.max(pending);
                sink.pending += 1;
                sink.appended += 1;
            }
            SchedulerAction::Wait => {}
            SchedulerAction::Finish => return sched.state,
        }
    }
    panic!("scheduler did not finish");
}

#[test]
fn backpressure_caps_pending_chunks() {
    let mut sink = TestSink { pending: 0, polls: 0, drain_every: 7, max_pending_at_append: 0, appended: 0 };
    let end = run(20, &mut sink, None);
    assert_eq!(end, PlaybackState::Done);
    assert_eq!(sink.appended, 20);
    assert_eq!(sink.max_pending_at_append, 3);
    assert_eq!(sink.pending, 0);

    let mut sched = PlaybackScheduler::new(5);
    assert_eq!(sched.step(4, false), SchedulerAction::Wait);
    assert_eq!(sched.step(9, false), SchedulerAction::Wait);
    assert_eq!(sched.step(3, false), SchedulerAction::Append { chunk: 0 });
}

#[test]
fn cancellation_stops_appending() {
    let mut sink = TestSink { pending: 0, polls: 0, drain_every: 1_000_000, max_pending_at_append: 0, appended: 0 };
    let end = run(20, &mut sink, Some(2));
    assert_eq!(end, PlaybackState::Cancelled);
    assert_eq!(sink.appended, 2);

    let mut sched = PlaybackScheduler::new(1);
    assert_eq!(sched.step(0, false), SchedulerAction::Append { chunk: 0 });
    assert_eq!(sched.state, PlaybackState::Draining);
    assert_eq!(sched.step(2, false), SchedulerAction::Wait);
    assert_eq!(sched.step(2, true), SchedulerAction::Finish);
    assert_eq!(sched.state, PlaybackState::Cancelled);
    assert_eq!(sched.step(0, false), SchedulerAction::Finish);
}

#[test]
fn empty_session_drains_at_once() {
    let mut sched = PlaybackScheduler::new(0);
    assert_eq!(sched.step(0, false), SchedulerAction::Finish);
    assert_eq!(sched.state, PlaybackState::Done);
}

#[test]
fn decoding_recovers_text() {
    for text in ["SOS", "HELLO WORLD", "CQ CQ DE K1ABC", "73, 88. = ? /", "E", ""] {
        assert_eq!(decode(&plain(text)), chars(text), "text {:?}", text);
        for kind in [SpeedModificationType::Speedup, SpeedModificationType::Slowing, SpeedModificationType::Zigzag] {
            let syms = encode(&chars(text), 100, 110, kind, 1).unwrap().1;
            assert_eq!(decode(&syms), chars(text), "text {:?}", text);
        }
    }
    let all: String = TABLE.iter().map(|(c, _)| *c).collect();
    assert_eq!(decode(&plain(&all)), chars(&all));
}

#[test]
fn decoding_skips_unknown_codes() {
    assert_eq!(decode(&vec![Dot, Dot, Dot, Dot, Dot, Dot, Dot]), Vec::<char>::new());
    assert_eq!(decode(&vec![CharacterGap, Dash, WordGap, Dot]), vec!['T', ' ', 'E']);
    let long: Vec<Symbol> = std::iter::repeat(Dash).take(40).collect();
    assert_eq!(decode(&long), Vec::<char>::new());
}
