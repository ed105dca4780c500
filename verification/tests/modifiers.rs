use tuned_rs::tuning::modifiers::{
    parse_assignment, read_trimmed, resolve_choice, resolve_numeric_assignment, AssignmentOp,
};
use tuned_rs::tuning::TuningError;

#[test]
fn parses_two_char_operators() {
    let assignment = parse_assignment("=>4096");
    assert_eq!(assignment.op, AssignmentOp::GreaterEqual);
    assert_eq!(assignment.target, "4096");
}

#[test]
fn resolves_greater_equal_only_when_needed() {
    let assignment = parse_assignment("=>4096");
    assert_eq!(resolve_numeric_assignment(&assignment, "8192").unwrap(), None);
    assert_eq!(
        resolve_numeric_assignment(&assignment, "2048").unwrap(),
        Some("4096".to_string())
    );
}

#[test]
fn resolves_less_than_operator() {
    let assignment = parse_assignment("<100");
    assert_eq!(
        resolve_numeric_assignment(&assignment, "120").unwrap(),
        Some("100".to_string())
    );
    assert_eq!(resolve_numeric_assignment(&assignment, "80").unwrap(), None);
}

#[test]
fn parses_every_operator() {
    let cases = [
        (">=10", AssignmentOp::GreaterEqual, "10"),
        ("<=10", AssignmentOp::LessEqual, "10"),
        ("=<10", AssignmentOp::LessEqual, "10"),
        ("> 10", AssignmentOp::Greater, "10"),
        ("<10 ", AssignmentOp::Less, "10"),
        ("  10  ", AssignmentOp::Assign, "10"),
    ];
    for (raw, op, target) in cases {
        let a = parse_assignment(raw);
        assert_eq!(a.op, op, "{raw}");
        assert_eq!(a.target, target, "{raw}");
        assert_eq!(a.raw, raw.trim(), "{raw}");
    }
}

#[test]
fn equal_values_are_kept_by_relative_operators() {
    let ge = parse_assignment(">=4096");
    assert_eq!(resolve_numeric_assignment(&ge, "4096").unwrap(), None);
    let le = parse_assignment("<=4096");
    assert_eq!(resolve_numeric_assignment(&le, " 4096\n").unwrap(), None);
    assert_eq!(
        resolve_numeric_assignment(&le, "5000").unwrap(),
        Some("4096".to_string())
    );
}

#[test]
fn non_numeric_values_are_written_directly() {
    let ge = parse_assignment(">abc");
    assert_eq!(
        resolve_numeric_assignment(&ge, "10").unwrap(),
        Some("abc".to_string())
    );
    let plain = parse_assignment("madvise");
    assert_eq!(
        resolve_numeric_assignment(&plain, "always").unwrap(),
        Some("madvise".to_string())
    );
}

#[test]
fn reapplying_a_written_value_keeps_it() {
    let ge = parse_assignment("=>2048");
    let written = resolve_numeric_assignment(&ge, "1024").unwrap().unwrap();
    assert_eq!(resolve_numeric_assignment(&ge, &written).unwrap(), None);
}

#[test]
fn choice_picks_first_accepted_alternative() {
    let picked = resolve_choice(" |powersave| schedutil |", |c: &str| c == "schedutil");
    assert_eq!(picked, Some("schedutil".to_string()));
    let none = resolve_choice("a|b", |_c: &str| false);
    assert_eq!(none, None);
    let first = resolve_choice("performance|balanced", |_c: &str| true);
    assert_eq!(first, Some("performance".to_string()));
}

#[test]
fn read_trimmed_refuses_multi_line_values() {
    assert_eq!(read_trimmed("  60\n").unwrap(), "60");
    assert_eq!(read_trimmed("a\nb\n"), Err(TuningError::MultiLineValue));
}
