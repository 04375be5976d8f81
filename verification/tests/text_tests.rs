use loreweaver::clock::{CalendarDate, Timestamp};
use loreweaver::error::{summary, AppError, FieldErrors, Violation};
use std::borrow::Cow;
use validator::{ValidationError, ValidationErrors};
use loreweaver::ident::new_id;
use loreweaver::text::{chars_of, copy_text, decimal_text, join, text_eq, text_precedes};

#[test]
fn decimal_text_writes_zero_and_positives() {
    assert_eq!(decimal_text(0), "0");
    assert_eq!(decimal_text(7), "7");
    assert_eq!(decimal_text(10), "10");
    assert_eq!(decimal_text(1234567890), "1234567890");
    assert_eq!(decimal_text(i64::MAX), "9223372036854775807");
}

#[test]
fn decimal_text_writes_negatives() {
    assert_eq!(decimal_text(-1), "-1");
    assert_eq!(decimal_text(-42), "-42");
    assert_eq!(decimal_text(i64::MIN), "-9223372036854775808");
}

#[test]
fn chars_of_counts_characters_not_bytes() {
    assert_eq!(chars_of("héllo"), vec!['h', 'é', 'l', 'l', 'o']);
    assert_eq!(chars_of(""), Vec::<char>::new());
}

#[test]
fn text_eq_compares_contents() {
    assert!(text_eq("abc", "abc"));
    assert!(text_eq("", ""));
    assert!(!text_eq("abc", "abd"));
    assert!(!text_eq("abc", "ab"));
    assert!(!text_eq("", "a"));
}

#[test]
fn text_precedes_orders_by_code_point() {
    assert!(text_precedes("Alice", "Bob"));
    assert!(!text_precedes("Bob", "Alice"));
    assert!(text_precedes("Bob", "Bob"));
    assert!(text_precedes("", "a"));
    assert!(!text_precedes("a", ""));
    assert!(text_precedes("ab", "abc"));
    assert!(!text_precedes("abc", "ab"));
    // capitals come before small letters, and both before accented letters
    assert!(text_precedes("Zeta", "alpha"));
    assert!(text_precedes("z", "é"));
}

#[test]
fn join_puts_the_separator_between_neighbours() {
    assert_eq!(join(&vec![], ", "), "");
    assert_eq!(join(&vec!["a".to_string()], ", "), "a");
    assert_eq!(join(&vec!["a".to_string(), "b".to_string(), "c".to_string()], ", "), "a, b, c");
    assert_eq!(join(&vec!["".to_string(), "".to_string()], "-"), "-");
}

#[test]
fn copy_text_copies() {
    assert_eq!(copy_text(&Some("x".to_string())), Some("x".to_string()));
    assert_eq!(copy_text(&None), None);
}

#[test]
fn error_display_has_the_heading_of_its_kind() {
    assert_eq!(AppError::Database("boom".to_string()).to_string(), "Database error: boom");
    assert_eq!(AppError::NotFound("Tag 7 not found".to_string()).to_string(), "Not found: Tag 7 not found");
    assert_eq!(AppError::Validation("name: bad".to_string()).to_string(), "Validation error: name: bad");
    assert_eq!(AppError::Internal("oops".to_string()).to_string(), "Internal error: oops");
}

#[test]
fn error_constructors_write_the_store_messages() {
    assert_eq!(AppError::not_found("Character", "abc").to_string(), "Not found: Character abc not found");
    assert_eq!(AppError::foreign_key().to_string(), "Database error: FOREIGN KEY constraint failed");
    assert_eq!(
        AppError::unique("tags.campaign_id, tags.name").to_string(),
        "Database error: UNIQUE constraint failed: tags.campaign_id, tags.name"
    );
}

#[test]
fn validation_errors_become_one_message() {
    let mut errors = ValidationErrors::new();
    assert!(errors.is_empty());
    errors.add(
        "name",
        ValidationError::new("length").with_message(Cow::Borrowed("name must be 1-200 characters")),
    );
    errors.add("name", ValidationError::new("custom"));
    assert!(!errors.is_empty());
    let e = AppError::from(errors);
    assert_eq!(e.to_string(), "Validation error: name: name must be 1-200 characters, name: invalid");
}

#[test]
fn violations_of_two_fields_come_in_either_order() {
    let mut errors = ValidationErrors::new();
    errors.add(
        "name",
        ValidationError::new("length").with_message(Cow::Borrowed("name must be 1-200 characters")),
    );
    errors.add("status", ValidationError::new("custom"));
    let text = AppError::from(errors).to_string();
    let one = "Validation error: name: name must be 1-200 characters, status: invalid";
    let other = "Validation error: status: invalid, name: name must be 1-200 characters";
    assert!(text == one || text == other, "{text}");
}

#[test]
fn no_violation_gives_an_empty_message() {
    let e = AppError::from(ValidationErrors::new());
    assert_eq!(e.to_string(), "Validation error: ");
}

#[test]
fn a_list_of_violations_is_summed_up_in_its_order() {
    let list = vec![
        FieldErrors {
            field: "status".to_string(),
            errors: vec![
                Violation { code: "a".to_string(), message: Some("first".to_string()) },
                Violation { code: "b".to_string(), message: None },
            ],
        },
        FieldErrors { field: "empty".to_string(), errors: vec![] },
        FieldErrors {
            field: "name".to_string(),
            errors: vec![Violation { code: "length".to_string(), message: Some("too long".to_string()) }],
        },
    ];
    assert_eq!(summary(&list), "status: first, status: invalid, name: too long");
    assert_eq!(summary(&Vec::new()), "");
}

#[test]
fn timestamp_text_is_the_utc_display() {
    let t = Timestamp { seconds: 1431648000, nanos: 0 };
    assert_eq!(t.to_string(), "2015-05-15 00:00:00 UTC");
    let u = Timestamp { seconds: 0, nanos: 500_000_000 };
    assert_eq!(u.to_string(), "1970-01-01 00:00:00.500 UTC");
    let before_epoch = Timestamp { seconds: -1, nanos: 0 };
    assert_eq!(before_epoch.to_string(), "1969-12-31 23:59:59 UTC");
}

#[test]
fn timestamp_without_an_instant_has_an_empty_text() {
    let t = Timestamp { seconds: i64::MAX, nanos: 0 };
    assert_eq!(t.to_string(), "");
    let bad_nanos = Timestamp { seconds: 0, nanos: 2_000_000_000 };
    assert_eq!(bad_nanos.to_string(), "");
}

#[test]
fn timestamps_are_ordered_by_seconds_then_nanos() {
    let a = Timestamp { seconds: 10, nanos: 5 };
    let b = Timestamp { seconds: 10, nanos: 6 };
    let c = Timestamp { seconds: 11, nanos: 0 };
    assert!(a.precedes(&a));
    assert!(a.precedes(&b));
    assert!(!b.precedes(&a));
    assert!(b.precedes(&c));
    assert!(!c.precedes(&a));
}

#[test]
fn now_is_after_the_year_2020_and_does_not_run_backwards() {
    let first = Timestamp::now();
    let second = Timestamp::now();
    assert!(first.seconds > 1_577_836_800);
    assert!(first.nanos < 1_000_000_000);
    assert!(first.precedes(&second));
    assert!(first.to_string().ends_with(" UTC"));
}

#[test]
fn calendar_date_reads_year_month_day() {
    assert_eq!(CalendarDate::parse("2015-09-05"), Some(CalendarDate { year: 2015, month: 9, day: 5 }));
    assert_eq!(CalendarDate::parse("2024-02-29"), Some(CalendarDate { year: 2024, month: 2, day: 29 }));
}

#[test]
fn calendar_date_rejects_what_is_no_date() {
    assert_eq!(CalendarDate::parse(""), None);
    assert_eq!(CalendarDate::parse("not a date"), None);
    assert_eq!(CalendarDate::parse("2023-02-29"), None);
    assert_eq!(CalendarDate::parse("2015/09/05"), None);
    assert_eq!(CalendarDate::parse("2015-13-01"), None);
}

#[test]
fn calendar_date_text_is_year_month_day() {
    assert_eq!(CalendarDate { year: 2015, month: 9, day: 5 }.to_string(), "2015-09-05");
    assert_eq!(CalendarDate { year: 1, month: 1, day: 1 }.to_string(), "0001-01-01");
    assert_eq!(CalendarDate { year: 2023, month: 2, day: 30 }.to_string(), "");
}

#[test]
fn new_id_is_a_random_uuid_in_hyphenated_lower_case() {
    let id = new_id();
    let chars: Vec<char> = id.chars().collect();
    assert_eq!(chars.len(), 36);
    for (i, c) in chars.iter().enumerate() {
        if i == 8 || i == 13 || i == 18 || i == 23 {
            assert_eq!(*c, '-');
        } else {
            assert!(c.is_ascii_digit() || ('a'..='f').contains(c));
        }
    }
    assert_eq!(chars[14], '4');
    assert!(matches!(chars[19], '8' | '9' | 'a' | 'b'));
    assert_ne!(new_id(), id);
}

#[test]
fn whitespace_is_the_listed_code_points() {
    let listed: Vec<u32> = vec![
        0x09, 0x0A, 0x0B, 0x0C, 0x0D, 0x20, 0x85, 0xA0, 0x1680, 0x2000, 0x2001, 0x2002, 0x2003,
        0x2004, 0x2005, 0x2006, 0x2007, 0x2008, 0x2009, 0x200A, 0x2028, 0x2029, 0x202F, 0x205F,
        0x3000,
    ];
    let mut found: Vec<u32> = Vec::new();
    for n in 0..=0x10FFFFu32 {
        if let Some(c) = char::from_u32(n) {
            if c.is_whitespace() {
                found.push(n);
            }
        }
    }
    assert_eq!(found, listed);
}
