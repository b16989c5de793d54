//! A line-oriented console-input helper, verified with Verus.
//!
//! A [`reader::Input`] is bound to a fixed prompt string and offers one typed
//! read operation per logical input request: integers, trimmed strings,
//! single characters, booleans, optional and defaulted values, and a
//! restricted choice among caller-supplied words.  Each operation walks a
//! transcript of raw input lines, rejecting lines until one satisfies the
//! requested rule, exactly as an interactive prompt/validate/retry loop
//! would.  The surrounding program performs the actual console I/O and hands
//! the raw lines in as plain strings.

pub mod choice;
pub mod keywords;
pub mod messages;
pub mod numeric;
pub mod reader;
pub mod session;
pub mod text;

pub use reader::Input;
pub use reader::input;
