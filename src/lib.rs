//! Reorders the sections of benchmark prompt documents, and plans the runs
//! that send prompts to an inference helper.
//!
//! A document carries a system prompt, a requirement document, a device output
//! block and an optional expected-output-format block, each found by a marker.
//! The library extracts them and lays them out again, either as plain blocks
//! separated by blank lines or wrapped in a chat-turn template. `laws` states
//! and proves what holds of every document.
pub mod text;
pub mod sections;
pub mod laws;
pub mod bench;

pub use text::{chars_of, find, is_whitespace_char, trimmed_bounds};
pub use sections::{SYSTEM_TERMINATOR, REQUIREMENT_MARKER, DEVICE_OUTPUT_MARKER, EXPECTED_OUTPUT_MARKER};
pub use sections::{BLOCK_SEPARATOR, LINE_BREAK, SYSTEM_TURN_OPEN, USER_TURN_OPEN, ASSISTANT_TURN_OPEN};
pub use sections::{ReformatError, SectionTexts, Sections, extract_sections, format_plain, format_chat};
pub use sections::{reorder_plain, reorder_chat};
pub use bench::{ROUND_SIZE, QuantityError, rounds_for, user_turn, request_order, total};
pub use bench::{CASE_TAG, is_case_file, insert_at, numbered_system_prompt, case_prompt};
