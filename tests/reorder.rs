use prompt_processor::{
    extract_sections, find, format_chat, format_plain, is_whitespace_char, reorder_chat,
    reorder_plain, trimmed_bounds, chars_of, ReformatError, Sections,
};

const SHORT_DOC: &str = "...explain exactly why.\n\nRequirement Document: R\nDevice Output: D";

const FULL_DOC: &str = "You are a network auditor. Tell me if it passes and explain exactly why.\n\n  \
Requirement Document: keep telnet disabled\n\nDevice Output: telnet enabled\n\
Expected Output Format: PASS or FAIL\n\n";

#[test]
fn plain_layout_without_expected_output() {
    assert_eq!(
        reorder_plain(SHORT_DOC),
        Ok(String::from("...explain exactly why.\n\nRequirement Document: R\n\nDevice Output: D"))
    );
}

#[test]
fn chat_layout_without_expected_output() {
    assert_eq!(
        reorder_chat(SHORT_DOC),
        Ok(String::from(
            "<|im_start|>system<|im_sep|>\n...explain exactly why.\nRequirement Document: R\n\n\
<|im_end|>\n<|im_start|>user<|im_sep|>\nDevice Output: D<|im_end|>\n<|im_start|>assistant<|im_sep|>"
        ))
    );
}

#[test]
fn plain_layout_moves_expected_output_after_system() {
    assert_eq!(
        reorder_plain(FULL_DOC),
        Ok(String::from(
            "You are a network auditor. Tell me if it passes and explain exactly why.\n\n\
Expected Output Format: PASS or FAIL\n\nRequirement Document: keep telnet disabled\n\n\
Device Output: telnet enabled"
        ))
    );
}

#[test]
fn chat_layout_with_expected_output() {
    assert_eq!(
        reorder_chat(FULL_DOC),
        Ok(String::from(
            "<|im_start|>system<|im_sep|>\nYou are a network auditor. Tell me if it passes and explain exactly why.\n\
Requirement Document: keep telnet disabled\nExpected Output Format: PASS or FAIL\n\
<|im_end|>\n<|im_start|>user<|im_sep|>\nDevice Output: telnet enabled<|im_end|>\n\
<|im_start|>assistant<|im_sep|>"
        ))
    );
}

#[test]
fn extracted_sections_are_trimmed() {
    let x = extract_sections(FULL_DOC).unwrap();
    assert_eq!(x.system, "You are a network auditor. Tell me if it passes and explain exactly why.");
    assert_eq!(x.requirement, "Requirement Document: keep telnet disabled");
    assert_eq!(x.device_output, "Device Output: telnet enabled");
    assert_eq!(x.expected_output, "Expected Output Format: PASS or FAIL");
}

#[test]
fn sections_cover_document_from_requirement_marker() {
    let doc = "a b explain exactly why.\n\nnote\nRequirement Document: r1\n r2 \nDevice Output: d1\nExpected Output Format: e1";
    let x = extract_sections(doc).unwrap();
    let start = doc.find("Requirement Document:").unwrap();
    let rest: String = doc[start..].chars().filter(|c| !c.is_whitespace()).collect();
    let joined: String = format!("{}{}{}", x.requirement, x.device_output, x.expected_output)
        .chars()
        .filter(|c| !c.is_whitespace())
        .collect();
    assert_eq!(joined, rest);
    assert_eq!(x.system, "a b explain exactly why.");
}

#[test]
fn missing_terminator_is_refused() {
    let doc = "Explain why.\n\nRequirement Document: R\nDevice Output: D";
    assert_eq!(reorder_plain(doc), Err(ReformatError::MissingSection));
    assert_eq!(reorder_chat(doc), Err(ReformatError::MissingSection));
}

#[test]
fn escaped_newlines_do_not_terminate_system_prompt() {
    let doc = "explain exactly why.\\n\\nRequirement Document: R\nDevice Output: D";
    assert_eq!(reorder_plain(doc), Err(ReformatError::MissingSection));
}

#[test]
fn missing_requirement_is_refused() {
    let doc = "explain exactly why.\n\nDevice Output: D";
    assert_eq!(reorder_plain(doc), Err(ReformatError::MissingSection));
    assert_eq!(reorder_chat(doc), Err(ReformatError::MissingSection));
}

#[test]
fn missing_device_output_is_refused() {
    let doc = "explain exactly why.\n\nRequirement Document: R\nExpected Output Format: E";
    assert_eq!(reorder_plain(doc), Err(ReformatError::MissingSection));
    assert_eq!(extract_sections(doc).err(), Some(ReformatError::MissingSection));
}

#[test]
fn empty_document_is_refused() {
    assert_eq!(reorder_plain(""), Err(ReformatError::MissingSection));
}

#[test]
fn device_output_before_requirement_is_refused() {
    let doc = "explain exactly why.\n\nDevice Output: D\nRequirement Document: R";
    assert_eq!(reorder_plain(doc), Err(ReformatError::OutOfOrderSections));
    assert_eq!(reorder_chat(doc), Err(ReformatError::OutOfOrderSections));
}

#[test]
fn expected_output_before_device_output_is_refused() {
    let doc = "explain exactly why.\n\nRequirement Document: R\nExpected Output Format: E\nDevice Output: D";
    assert_eq!(reorder_plain(doc), Err(ReformatError::OutOfOrderSections));
}

#[test]
fn requirement_before_terminator_is_refused() {
    let doc = "Requirement Document: R\nexplain exactly why.\n\nDevice Output: D";
    assert_eq!(reorder_plain(doc), Err(ReformatError::OutOfOrderSections));
}

#[test]
fn plain_reorder_is_idempotent_without_expected_output() {
    let doc = "  Intro; explain exactly why.\n\n\nextra\nRequirement Document: R\n\n\nDevice Output: D \n";
    let once = reorder_plain(doc).unwrap();
    let twice = reorder_plain(&once).unwrap();
    assert_eq!(once, twice);
    assert_eq!(once, "Intro; explain exactly why.\n\nRequirement Document: R\n\nDevice Output: D");
}

#[test]
fn plain_reorder_twice_refuses_moved_expected_output() {
    let once = reorder_plain(FULL_DOC).unwrap();
    assert_eq!(reorder_plain(&once), Err(ReformatError::OutOfOrderSections));
}

#[test]
fn three_blocks_without_expected_output() {
    let out = reorder_plain(SHORT_DOC).unwrap();
    assert_eq!(out.split("\n\n").count(), 3);
}

#[test]
fn unicode_whitespace_is_trimmed() {
    let doc = "\u{3000}explain exactly why.\n\nRequirement Document: R\u{a0}\u{2009}Device Output: D\u{85}";
    let x = extract_sections(doc).unwrap();
    assert_eq!(x.system, "explain exactly why.");
    assert_eq!(x.requirement, "Requirement Document: R");
    assert_eq!(x.device_output, "Device Output: D");
    assert_eq!(x.expected_output, "");
}

#[test]
fn multibyte_text_is_kept_whole() {
    let doc = "Prüfe: explain exactly why.\n\nRequirement Document: Grüße\nDevice Output: ✓ ok";
    assert_eq!(
        reorder_plain(doc),
        Ok(String::from("Prüfe: explain exactly why.\n\nRequirement Document: Grüße\n\nDevice Output: ✓ ok"))
    );
}

#[test]
fn whitespace_test_agrees_with_std() {
    for u in 0u32..0x3100 {
        if let Some(c) = char::from_u32(u) {
            assert_eq!(is_whitespace_char(c), c.is_whitespace(), "code point {:x}", u);
        }
    }
}

#[test]
fn find_reports_first_occurrence() {
    let s = chars_of("abcabc");
    assert_eq!(find(&s, &chars_of("bc")), Some(1));
    assert_eq!(find(&s, &chars_of("cab")), Some(2));
    assert_eq!(find(&s, &chars_of("abcd")), None);
    assert_eq!(find(&s, &chars_of("x")), None);
}

#[test]
fn trimmed_bounds_skip_whitespace() {
    let s = chars_of("  ab c \n");
    assert_eq!(trimmed_bounds(&s, 0, 8), (2, 6));
    assert_eq!(trimmed_bounds(&s, 0, 2), (2, 2));
    assert_eq!(trimmed_bounds(&s, 3, 5), (3, 4));
}

#[test]
fn formatters_lay_out_given_sections() {
    let x = Sections {
        system: String::from("S"),
        requirement: String::from("R"),
        device_output: String::from("D"),
        expected_output: String::from("E"),
    };
    assert_eq!(format_plain(&x), "S\n\nE\n\nR\n\nD");
    assert_eq!(
        format_chat(&x),
        "<|im_start|>system<|im_sep|>\nS\nR\nE\n<|im_end|>\n<|im_start|>user<|im_sep|>\nD<|im_end|>\n<|im_start|>assistant<|im_sep|>"
    );
}
