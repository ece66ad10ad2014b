use prompt_processor::{
    case_prompt, insert_at, is_case_file, numbered_system_prompt, request_order, rounds_for, total,
    user_turn, QuantityError,
};

#[test]
fn whole_rounds_are_accepted() {
    assert_eq!(rounds_for(100), Ok(2));
    assert_eq!(rounds_for(50), Ok(1));
    assert_eq!(rounds_for(0), Ok(0));
}

#[test]
fn partial_round_is_refused() {
    assert_eq!(rounds_for(75), Err(QuantityError::NotMultipleOfRound));
    assert_eq!(rounds_for(1), Err(QuantityError::NotMultipleOfRound));
}

#[test]
fn user_turn_wraps_prompt() {
    assert_eq!(user_turn("hi"), "user: hi\nassistant: ");
    assert_eq!(user_turn(""), "user: \nassistant: ");
}

#[test]
fn request_order_repeats_list_per_round() {
    assert_eq!(request_order(3, 2), vec![0, 1, 2, 0, 1, 2]);
    assert_eq!(request_order(2, 0), Vec::<usize>::new());
    assert_eq!(request_order(0, 4), Vec::<usize>::new());
}

#[test]
fn total_adds_counts() {
    assert_eq!(total(&vec![]), 0);
    assert_eq!(total(&vec![3, 4, 5]), 12);
    assert_eq!(total(&vec![u64::MAX, u64::MAX]), 2 * (u64::MAX as u128));
}

#[test]
fn case_files_are_recognised_by_tag() {
    assert!(is_case_file("cisco_01.txt"));
    assert!(is_case_file("router-cisco.txt"));
    assert!(!is_case_file("juniper_01.txt"));
    assert!(!is_case_file("cisc.txt"));
    assert!(!is_case_file(""));
}

#[test]
fn insert_at_splices_piece() {
    assert_eq!(insert_at("abcdef", 2, "XY"), "abXYcdef");
    assert_eq!(insert_at("abc", 3, "Z"), "abcZ");
    assert_eq!(insert_at("äöü", 1, "-"), "ä-öü");
}

#[test]
fn system_prompt_numbers_accumulate() {
    let base = "0123456789";
    let first = numbered_system_prompt(base, 4, 1);
    assert_eq!(first, "01231456789");
    let second = numbered_system_prompt(&first, 4, 12);
    assert_eq!(second, "0123121456789");
    assert_eq!(numbered_system_prompt("ab", 0, 0), "0ab");
    assert_eq!(numbered_system_prompt("ab", 2, 907), "ab907");
}

#[test]
fn case_prompt_joins_with_line_break() {
    assert_eq!(case_prompt("SYS", "case text"), "SYS\ncase text");
}
