//! Core of a terminal emulator: a byte-level escape-sequence parser, the
//! terminal-buffer state machine it drives, and the scheduling decisions that
//! pace redraws.  Bytes become actions, actions become grid mutations and a
//! damage set, and the embedding program only performs the I/O around it.

mod action;
mod cell;
mod parser;
mod scheduler;
mod session;
mod term;
mod util;

pub use action::Action;
pub use action::ActionV;
pub use cell::Cell;
pub use cell::Charset;
pub use cell::Color;
pub use cell::Line;
pub use cell::Pen;
pub use cell::StyleFlags;
pub use parser::ParseState;
pub use parser::Parser;
pub use parser::ParserV;
pub use scheduler::encode_arrow;
pub use scheduler::encode_paste;
pub use scheduler::ArrowKey;
pub use scheduler::SchedDecision;
pub use scheduler::SchedEvent;
pub use scheduler::Scheduler;
pub use session::level_enabled;
pub use session::setup_logs_by_filter_level;
pub use session::split_env_pair;
pub use session::terminfo_name;
pub use session::LevelFilter;
pub use session::LoggerRegistry;
pub use session::SetLoggerError;
