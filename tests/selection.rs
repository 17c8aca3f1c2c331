use emacs_capsule::selection::{choose_capsule, parse_selection, trim, SelectError};

#[test]
fn selects_one_based_index() {
    assert_eq!(parse_selection("1\n", 3), Ok(0));
    assert_eq!(parse_selection("3\n", 3), Ok(2));
    assert_eq!(parse_selection("  2  \r\n", 3), Ok(1));
    assert_eq!(parse_selection("+2", 3), Ok(1));
    assert_eq!(parse_selection("002", 3), Ok(1));
}

#[test]
fn zero_is_out_of_range() {
    assert_eq!(parse_selection("0\n", 3), Err(SelectError::OutOfRange));
}

#[test]
fn above_count_is_out_of_range() {
    assert_eq!(parse_selection("4\n", 3), Err(SelectError::OutOfRange));
    assert_eq!(parse_selection("1\n", 0), Err(SelectError::OutOfRange));
    assert_eq!(
        parse_selection("99999999999999999999999999999\n", 3),
        Err(SelectError::OutOfRange)
    );
}

#[test]
fn non_numeric_is_rejected() {
    assert_eq!(parse_selection("abc\n", 3), Err(SelectError::NotANumber));
    assert_eq!(parse_selection("\n", 3), Err(SelectError::NotANumber));
    assert_eq!(parse_selection("+\n", 3), Err(SelectError::NotANumber));
    assert_eq!(parse_selection("-1\n", 3), Err(SelectError::NotANumber));
    assert_eq!(parse_selection("1 2\n", 3), Err(SelectError::NotANumber));
    assert_eq!(parse_selection("1a", 3), Err(SelectError::NotANumber));
}

#[test]
fn trim_removes_unicode_white_space() {
    assert_eq!(trim(" \t x y \n"), "x y");
    assert_eq!(trim("\u{3000}7\u{a0}"), "7");
    assert_eq!(trim("   "), "");
}

#[test]
fn choose_capsule_picks_menu_entry() {
    let menu = vec!["a.zip".to_string(), "b.zip".to_string()];
    assert_eq!(choose_capsule(&menu, "2\n"), Ok("b.zip".to_string()));
    assert_eq!(choose_capsule(&menu, "0\n"), Err(SelectError::OutOfRange));
    assert_eq!(choose_capsule(&menu, "3\n"), Err(SelectError::OutOfRange));
    assert_eq!(choose_capsule(&menu, "x\n"), Err(SelectError::NotANumber));
}
