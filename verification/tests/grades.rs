use ascents::error::{Error, User};
use ascents::grade::is_valid_grade;
use ascents::init::generate_grade_info_data;
use ascents::models::Route;
use regex::Regex;

#[test]
fn lib_invalid_grade() {
    let invalid_grades = [
        "5.9+".to_string(),
        "5.10".to_string(),
        "5.11a/b".to_string(),
        "5.12-".to_string(),
    ];

    for invalid_grade in invalid_grades {
        let result = Route::new(
            "Some Route".to_string(),
            invalid_grade,
            "Some Crag".to_string(),
        );

        assert!(result.is_err());
    }
}

#[test]
fn lib_valid_grade() {
    let valid_grades = [
        "5.0".to_string(),
        "5.9".to_string(),
        "5.10a".to_string(),
        "5.11d".to_string(),
    ];

    for valid_grade in valid_grades {
        let result = Route::new(
            "Some Route".to_string(),
            valid_grade,
            "Some Crag".to_string(),
        );

        assert!(result.is_ok());
    }
}

#[test]
fn models_invalid_grade() {
    let invalid_grades = [
        "5.9+".to_string(),
        "5.10".to_string(),
        "5.11a/b".to_string(),
        "5.12-".to_string(),
    ];

    for invalid_grade in invalid_grades {
        let result = Route::new(
            "Some Route".to_string(),
            invalid_grade,
            "Some Crag".to_string(),
        );

        assert!(result.is_err());
    }
}

#[test]
fn models_valid_grade() {
    let valid_grades = [
        "5.0".to_string(),
        "5.9".to_string(),
        "5.10a".to_string(),
        "5.11d".to_string(),
    ];

    for valid_grade in valid_grades {
        let result = Route::new(
            "Some Route".to_string(),
            valid_grade,
            "Some Crag".to_string(),
        );

        assert!(result.is_ok());
    }
}

#[test]
fn invalid_grade_is_a_user_error() {
    let result = Route::new("Some Route".to_string(), "5.16a".to_string(), "Some Crag".to_string());
    assert_eq!(result.unwrap_err(), Error::User(User::InvalidGrade));
}

#[test]
fn every_grade_of_the_scale_is_valid() {
    for number in 0..=9 {
        assert!(is_valid_grade(&format!("5.{number}")));
        for letter in 'a'..='d' {
            assert!(!is_valid_grade(&format!("5.{number}{letter}")));
        }
    }
    for number in 10..=15 {
        assert!(!is_valid_grade(&format!("5.{number}")));
        for letter in 'a'..='d' {
            assert!(is_valid_grade(&format!("5.{number}{letter}")));
        }
        assert!(!is_valid_grade(&format!("5.{number}e")));
        assert!(!is_valid_grade(&format!("5.{number}A")));
    }
    assert!(!is_valid_grade("5.16a"));
    assert!(!is_valid_grade("5.20a"));
}

#[test]
fn modifiers_and_stray_characters_are_refused() {
    for grade in [
        "", "5", "5.", "5.9+", "5.9-", "5.10a+", "5.10a-", "5.11a/b", "5.10a/b", "+5.9", "5.9 ",
        " 5.9", "5.9\n", "5.10a\n", "6.9", "5,9", "5.a", "4.10a", "5.010a", "5.９", "5.1０a",
    ] {
        assert!(!is_valid_grade(grade), "{grade:?}");
    }
}

#[test]
fn validation_agrees_with_the_pattern() {
    let pattern = Regex::new(r"^5\.([0-9]|1[0-5][a-d])$").unwrap();
    let alphabet = ['5', '.', '0', '1', '6', '9', 'a', 'd', 'e', '+', '\n'];
    let mut texts = vec![String::new()];
    let mut from = 0;
    for _ in 0..5 {
        let until = texts.len();
        for i in from..until {
            for c in alphabet {
                let mut text = texts[i].clone();
                text.push(c);
                texts.push(text);
            }
        }
        from = until;
    }
    for text in &texts {
        assert_eq!(is_valid_grade(text), pattern.is_match(text), "{text:?}");
    }
    for text in ["5.10aa", "5.15dd", "x5.9", "5.9x", "5.١", "5.1٠a"] {
        assert_eq!(is_valid_grade(text), pattern.is_match(text), "{text:?}");
    }
}

#[test]
fn grade_info_lists_the_scale() {
    let grades = generate_grade_info_data();
    assert_eq!(grades.len(), 34);
    assert_eq!(grades[0].value, "5.0");
    assert_eq!(grades[0].number, 0);
    assert_eq!(grades[0].letter, None);
    assert_eq!(grades[9].value, "5.9");
    assert_eq!(grades[10].value, "5.10a");
    assert_eq!(grades[10].number, 10);
    assert_eq!(grades[10].letter, Some("a".to_string()));
    assert_eq!(grades[13].value, "5.10d");
    assert_eq!(grades[14].value, "5.11a");
    assert_eq!(grades[33].value, "5.15d");
    assert_eq!(grades[33].number, 15);
    assert_eq!(grades[33].letter, Some("d".to_string()));
    for grade in &grades {
        assert!(is_valid_grade(&grade.value));
    }
}

#[test]
fn route_is_shown_with_grade_and_crag() {
    let route = Route::new("Some Route".to_string(), "5.10a".to_string(), "Some Crag".to_string())
        .unwrap();
    assert_eq!(route.to_text(), "Some Route 5.10a at Some Crag");
    assert_eq!(route.name(), "Some Route");
    assert_eq!(route.grade(), "5.10a");
    assert_eq!(route.crag(), "Some Crag");
}
