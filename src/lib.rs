//! Morse code playback core: the symbolic timing model, the Morse table and
//! encoder, speed ramps, the timing calculator and the playback scheduler.

pub mod additions;
pub mod decoder;
pub mod encoder;
pub mod morse_table;
pub mod options;
pub mod scheduler;
pub mod settings;
pub mod speed;
pub mod symbol;
pub mod timing;

pub use options::SpeedModificationType;
pub use options::TextAdditions;
pub use options::TextType;
pub use options::WaveType;
pub use symbol::ActionTimingTable;
pub use symbol::Symbol;
pub use symbol::SymbolCategory;
