//! Safe, read-only access to terminal capability data.
//!
//! A terminal description exposes three fixed capability spaces (boolean,
//! numeric and string), each a closed enumeration bracketed by `begin` and
//! `end` sentinels, plus per-terminal extended capability tables indexed
//! densely from zero.  This crate holds the logic of that access layer on
//! plain values: the sentinel-exclusive enumeration of the fixed identifier
//! spaces, the dense enumeration of the extended tables, the validation of a
//! terminal name into a null-terminated byte string, the error taxonomy of
//! terminal resolution, and the escaping of raw capability text into a
//! printable form.
//!
//! The native terminal-description handle itself is an opaque foreign
//! resource; the thin layer that owns it and queries it lives outside this
//! crate and feeds its answers through the functions here.

mod ascii;
mod caps;
mod error;
mod escape;
mod render;
mod term;

pub use ascii::all_ascii;
pub use ascii::ascii_chars;
pub use caps::BOOLEAN_BEGIN;
pub use caps::BOOLEAN_END;
pub use caps::NUMERIC_BEGIN;
pub use caps::NUMERIC_END;
pub use caps::STRING_BEGIN;
pub use caps::STRING_END;
pub use caps::boolean_ids;
pub use caps::capability_ids;
pub use caps::extended_indices;
pub use caps::id_range;
pub use caps::index_range;
pub use caps::lemma_capability_ids_deterministic;
pub use caps::numeric_ids;
pub use caps::string_ids;
pub use caps::supported_from_raw;
pub use escape::caret_mark;
pub use escape::contains_seq;
pub use escape::esc_hex_escape;
pub use escape::escape_byte;
pub use escape::escape_bytes;
pub use escape::escape_string;
pub use escape::escaped;
pub use escape::hex_digit;
pub use escape::lemma_escaped_caret;
pub use escape::lemma_escaped_no_esc_hex;
pub use escape::lemma_escaped_text_caret;
pub use escape::occurs_at;
pub use escape::raw_escaped;
pub use escape::replace_esc;
pub use render::bool_caption;
pub use render::caption;
pub use render::dec_digits;
pub use render::decimal_bytes;
pub use render::numeric_caption;
pub use error::TermError;
pub use error::TermVar;
pub use error::message_of;
pub use term::term_name_bytes;
