use vstd::prelude::*;
use vstd::string::StrSliceExecFns;
use vstd::string::StringExecFns;
use crate::text::{chars_of, find, find_first, trim, trimmed_bounds};

verus! {

/// Ends the system prompt; the system section runs up to and including it.
pub const SYSTEM_TERMINATOR: &'static str = "explain exactly why.\n\n";

/// Opens the requirement document section.
pub const REQUIREMENT_MARKER: &'static str = "Requirement Document:";

/// Opens the device output section.
pub const DEVICE_OUTPUT_MARKER: &'static str = "Device Output:";

/// Opens the optional expected output format section.
pub const EXPECTED_OUTPUT_MARKER: &'static str = "Expected Output Format:";

/// Separates the blocks of the plain layout.
pub const BLOCK_SEPARATOR: &'static str = "\n\n";

/// Separates the parts of the system turn in the chat layout.
pub const LINE_BREAK: &'static str = "\n";

/// Opens the system turn of the chat layout.
pub const SYSTEM_TURN_OPEN: &'static str = "<|im_start|>system<|im_sep|>\n";

/// Closes the system turn and opens the user turn of the chat layout.
pub const USER_TURN_OPEN: &'static str = "\n<|im_end|>\n<|im_start|>user<|im_sep|>\n";

/// Closes the user turn and opens the empty assistant turn of the chat layout.
pub const ASSISTANT_TURN_OPEN: &'static str = "<|im_end|>\n<|im_start|>assistant<|im_sep|>";

/// Why a document could not be reordered.
#[derive(Debug, Clone, Copy, PartialEq, Eq, Structural)]
pub enum ReformatError {
    /// The system prompt terminator, the requirement marker or the device
    /// output marker does not occur in the document.
    MissingSection,
    /// The markers occur, but not in the order system prompt, requirement
    /// document, device output, expected output format.
    OutOfOrderSections,
}

/// The four section texts of a document, each trimmed.
pub struct SectionTexts {
    pub system: Seq<char>,
    pub requirement: Seq<char>,
    pub device_output: Seq<char>,
    pub expected_output: Seq<char>,
}

/// The four sections extracted from a document.
pub struct Sections {
    pub system: String,
    pub requirement: String,
    pub device_output: String,
    pub expected_output: String,
}

impl View for Sections {
    type V = SectionTexts;

    open spec fn view(&self) -> SectionTexts {
        SectionTexts {
            system: self.system@,
            requirement: self.requirement@,
            device_output: self.device_output@,
            expected_output: self.expected_output@,
        }
    }
}

/// Where the untrimmed sections of `s` start and end, given that all three
/// mandatory markers occur: system end, requirement start, device output
/// start, device output end (the expected output start, or the end of `s`).
pub open spec fn section_bounds(s: Seq<char>) -> (int, int, int, int) {
    let t = find_first(s, SYSTEM_TERMINATOR@)->0;
    let e = find_first(s, EXPECTED_OUTPUT_MARKER@);
    (
        t + SYSTEM_TERMINATOR@.len(),
        find_first(s, REQUIREMENT_MARKER@)->0,
        find_first(s, DEVICE_OUTPUT_MARKER@)->0,
        if e is Some { e->0 } else { s.len() as int },
    )
}

/// Whether all three mandatory markers occur in `s`.
pub open spec fn has_mandatory_markers(s: Seq<char>) -> bool {
    find_first(s, SYSTEM_TERMINATOR@) is Some && find_first(s, REQUIREMENT_MARKER@) is Some
        && find_first(s, DEVICE_OUTPUT_MARKER@) is Some
}

/// Whether the markers of `s` stand in document order.
pub open spec fn markers_in_order(s: Seq<char>) -> bool {
    let (te, rs, ds, de) = section_bounds(s);
    te <= rs && rs <= ds && ds <= de
}

/// The untrimmed sections of a document whose markers all occur in order.
pub open spec fn raw_sections(s: Seq<char>) -> SectionTexts {
    let (te, rs, ds, de) = section_bounds(s);
    SectionTexts {
        system: s.subrange(0, te),
        requirement: s.subrange(rs, ds),
        device_output: s.subrange(ds, de),
        expected_output: s.subrange(de, s.len() as int),
    }
}

/// The sections of a document, or why it has none.
pub open spec fn extract_spec(s: Seq<char>) -> Result<SectionTexts, ReformatError> {
    if !has_mandatory_markers(s) {
        Err(ReformatError::MissingSection)
    } else if !markers_in_order(s) {
        Err(ReformatError::OutOfOrderSections)
    } else {
        let raw = raw_sections(s);
        Ok(
            SectionTexts {
                system: trim(raw.system),
                requirement: trim(raw.requirement),
                device_output: trim(raw.device_output),
                expected_output: trim(raw.expected_output),
            },
        )
    }
}

/// The plain layout: system prompt, expected output format when it is not
/// empty, requirement document and device output, separated by blank lines.
pub open spec fn plain_layout(x: SectionTexts) -> Seq<char> {
    if x.expected_output.len() > 0 {
        x.system + BLOCK_SEPARATOR@ + x.expected_output + BLOCK_SEPARATOR@ + x.requirement
            + BLOCK_SEPARATOR@ + x.device_output
    } else {
        x.system + BLOCK_SEPARATOR@ + x.requirement + BLOCK_SEPARATOR@ + x.device_output
    }
}

/// The chat layout: a system turn with the system prompt, the requirement
/// document and the expected output format on lines of their own, a user turn
/// with the device output, and an empty assistant turn.
pub open spec fn chat_layout(x: SectionTexts) -> Seq<char> {
    SYSTEM_TURN_OPEN@ + x.system + LINE_BREAK@ + x.requirement + LINE_BREAK@ + x.expected_output
        + USER_TURN_OPEN@ + x.device_output + ASSISTANT_TURN_OPEN@
}

/// A document in the plain layout, or why it cannot be laid out.
pub open spec fn reorder_plain_spec(s: Seq<char>) -> Result<Seq<char>, ReformatError> {
    match extract_spec(s) {
        Ok(x) => Ok(plain_layout(x)),
        Err(e) => Err(e),
    }
}

/// A document in the chat layout, or why it cannot be laid out.
pub open spec fn reorder_chat_spec(s: Seq<char>) -> Result<Seq<char>, ReformatError> {
    match extract_spec(s) {
        Ok(x) => Ok(chat_layout(x)),
        Err(e) => Err(e),
    }
}

/// The trimmed text of `s[a..b]`, where `v` holds the characters of `s`.
fn trimmed_slice(s: &str, v: &Vec<char>, a: usize, b: usize) -> (r: String)
    requires
        v@ == s@,
        a <= b <= v@.len(),
    ensures
        r@ == trim(s@.subrange(a as int, b as int)),
{
    let (lo, hi) = trimmed_bounds(v, a, b);
    s.substring_char(lo, hi).to_owned()
}

/// Finds the sections of `content` by their markers and trims each.
pub fn extract_sections(content: &str) -> (r: Result<Sections, ReformatError>)
    ensures
        match r {
            Ok(x) => extract_spec(content@) == Ok::<SectionTexts, ReformatError>(x@),
            Err(e) => extract_spec(content@) == Err::<SectionTexts, ReformatError>(e),
        },
{
    proof {
        reveal_strlit("explain exactly why.\n\n");
        reveal_strlit("Requirement Document:");
        reveal_strlit("Device Output:");
        reveal_strlit("Expected Output Format:");
    }
    let v = chars_of(content);
    let terminator = chars_of(SYSTEM_TERMINATOR);
    let t = find(&v, &terminator);
    let rs = find(&v, &chars_of(REQUIREMENT_MARKER));
    let ds = find(&v, &chars_of(DEVICE_OUTPUT_MARKER));
    let es = find(&v, &chars_of(EXPECTED_OUTPUT_MARKER));
    let (t, rs, ds) = match (t, rs, ds) {
        (Some(t), Some(rs), Some(ds)) => (t, rs, ds),
        _ => {
            return Err(ReformatError::MissingSection);
        },
    };
    let n = v.len();
    assert(t + terminator@.len() <= n);
    let te = t + terminator.len();
    let de = match es {
        Some(e) => e,
        None => v.len(),
    };
    if te > rs || rs > ds || ds > de {
        return Err(ReformatError::OutOfOrderSections);
    }
    let system = trimmed_slice(content, &v, 0, te);
    let requirement = trimmed_slice(content, &v, rs, ds);
    let device_output = trimmed_slice(content, &v, ds, de);
    let expected_output = trimmed_slice(content, &v, de, v.len());
    Ok(Sections { system, requirement, device_output, expected_output })
}

/// Lays out `x` as plain blocks separated by blank lines.
pub fn format_plain(x: &Sections) -> (r: String)
    ensures
        r@ == plain_layout(x@),
{
    let mut r = x.system.clone();
    r.append(BLOCK_SEPARATOR);
    if !x.expected_output.as_str().is_empty() {
        r.append(x.expected_output.as_str());
        r.append(BLOCK_SEPARATOR);
    }
    r.append(x.requirement.as_str());
    r.append(BLOCK_SEPARATOR);
    r.append(x.device_output.as_str());
    r
}

/// Lays out `x` as a chat-turn template.
pub fn format_chat(x: &Sections) -> (r: String)
    ensures
        r@ == chat_layout(x@),
{
    let mut r = String::from_str(SYSTEM_TURN_OPEN);
    r.append(x.system.as_str());
    r.append(LINE_BREAK);
    r.append(x.requirement.as_str());
    r.append(LINE_BREAK);
    r.append(x.expected_output.as_str());
    r.append(USER_TURN_OPEN);
    r.append(x.device_output.as_str());
    r.append(ASSISTANT_TURN_OPEN);
    r
}

/// Reorders `content` into the plain layout.
pub fn reorder_plain(content: &str) -> (r: Result<String, ReformatError>)
    ensures
        match r {
            Ok(t) => reorder_plain_spec(content@) == Ok::<Seq<char>, ReformatError>(t@),
            Err(e) => reorder_plain_spec(content@) == Err::<Seq<char>, ReformatError>(e),
        },
{
    match extract_sections(content) {
        Ok(x) => Ok(format_plain(&x)),
        Err(e) => Err(e),
    }
}

/// Reorders `content` into the chat layout.
pub fn reorder_chat(content: &str) -> (r: Result<String, ReformatError>)
    ensures
        match r {
            Ok(t) => reorder_chat_spec(content@) == Ok::<Seq<char>, ReformatError>(t@),
            Err(e) => reorder_chat_spec(content@) == Err::<Seq<char>, ReformatError>(e),
        },
{
    match extract_sections(content) {
        Ok(x) => Ok(format_chat(&x)),
        Err(e) => Err(e),
    }
}

} // verus!
