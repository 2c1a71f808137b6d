use ascents::analyze::{aligned_count, analyze, analyze_ascent_db, format_analysis, make_count_line,
    make_counts_table, push_decimal};
use ascents::date::CalendarDate;
use ascents::error::{Error, Internal, User};
use ascents::init::init_ascent_db;
use ascents::models::{Ascent, AscentDB, Count, Route};

#[test]
fn numbers_are_written_in_decimal() {
    for n in [0u32, 1, 9, 10, 11, 99, 100, 101, 1000, 9999, 10000, 123456789, u32::MAX] {
        let mut text = "n=".to_string();
        push_decimal(&mut text, n);
        assert_eq!(text, format!("n={n}"));
    }
}

#[test]
fn counts_are_right_aligned_in_four_columns() {
    assert_eq!(aligned_count(0), "   0");
    assert_eq!(aligned_count(4), "   4");
    assert_eq!(aligned_count(42), "  42");
    assert_eq!(aligned_count(420), " 420");
    assert_eq!(aligned_count(4200), "4200");
    assert_eq!(aligned_count(42000), "42000");
    for n in [7u32, 70, 700, 7000, 70000, u32::MAX] {
        assert_eq!(aligned_count(n), format!("{:>4}", n));
    }
}

#[test]
fn a_table_has_one_line_for_each_count() {
    assert_eq!(make_counts_table(vec![]), "");
    assert_eq!(make_count_line(&Count::new("Some Crag".to_string(), 4)), "   4  Some Crag");
    assert_eq!(make_counts_table(vec![Count::new("2022".to_string(), 4)]), "   4  2022");
    let table = make_counts_table(vec![
        Count::new("Another Crag".to_string(), 1),
        Count::new("New Crag".to_string(), 12),
        Count::new("".to_string(), 12345),
    ]);
    assert_eq!(table, "   1  Another Crag\n  12  New Crag\n12345  ");
}

#[test]
fn the_analysis_joins_total_and_tables() {
    let text = format_analysis(
        &"climbs.db".to_string(),
        3,
        vec![Count::new("2022".to_string(), 1), Count::new("2023".to_string(), 2)],
        vec![Count::new("Some Crag".to_string(), 3)],
        vec![],
    );
    assert_eq!(
        text,
        "Analysis of ascents in climbs.db\n\nTotal count: 3\n\n\
         Count of ascents by year:\n   1  2022\n   2  2023\n\n\
         Count of ascents by crag:\n   3  Some Crag\n\n\
         Count of ascents by grade:\n",
    );
}

#[test]
fn a_store_is_analysed() {
    let dir = tempfile::tempdir().unwrap();
    let test_db = dir.path().join("test.db").to_str().unwrap().to_string();
    init_ascent_db(&test_db).unwrap();
    let mut db = AscentDB::new(&test_db).unwrap();
    for (name, grade, crag, year) in [
        ("Classic Route", "5.12a", "Some Crag", 2023),
        ("Some Other Route", "5.9", "Some Crag", 2022),
        ("New Route", "5.10d", "New Crag", 2022),
    ] {
        let route = Route::new(name.to_string(), grade.to_string(), crag.to_string()).unwrap();
        db.log_ascent(&Ascent::new(route, CalendarDate::new(year, 1, 1).unwrap())).unwrap();
    }
    let expected = format!(
        "Analysis of ascents in {test_db}\n\nTotal count: 3\n\n\
         Count of ascents by year:\n   2  2022\n   1  2023\n\n\
         Count of ascents by crag:\n   1  New Crag\n   2  Some Crag\n\n\
         Count of ascents by grade:\n   1  5.10d\n   1  5.12a\n   1  5.9"
    );
    assert_eq!(analyze(&db, &test_db).unwrap(), expected);
    assert_eq!(analyze_ascent_db(&test_db).unwrap(), expected);
}

#[test]
fn no_analysis_of_what_does_not_exist() {
    let dir = tempfile::tempdir().unwrap();
    let test_db = dir.path().join("test.db").to_str().unwrap().to_string();
    assert_eq!(analyze_ascent_db(&test_db).unwrap_err(), Error::User(User::DatabaseNotFound));
}

#[test]
fn errors_have_their_messages() {
    assert_eq!(
        User::InvalidGrade.message(),
        "grade must be in YDS with no pluses, minuses, or slashes",
    );
    assert_eq!(User::InvalidDate.message(), "date must be a valid date in YYYY-MM-DD format");
    assert_eq!(
        User::DatabaseNotFound.message(),
        "database not found, must be an already initialized ascent database",
    );
    assert_eq!(
        User::DatabaseAlreadyExists.message(),
        "Cannot initialize database, already exists",
    );
    assert_eq!(User::MissingArg("subcommand").message(), "Must provide subcommand");
    assert_eq!(User::MissingArg("database").message(), "Must provide database");
    assert_eq!(User::InvalidSubcommand.message(), "Invalid subcommand");
    assert_eq!(User::TooManyArgs.message(), "Too many args provided");
    assert_eq!(
        User::AscentAlreadyLogged("2023-01-01".to_string()).message(),
        "That ascent was already logged with a date of 2023-01-01",
    );
    assert_eq!(User::AscentNotFound.message(), "No ascent of that route was found");
    assert_eq!(Error::User(User::TooManyArgs).message(), "Too many args provided");
    assert_eq!(
        Internal::UnreadableDate("someday".to_string()).message(),
        "Stored date cannot be read: someday",
    );
    assert_eq!(Internal::UnreadablePath.message(), "Cannot tell whether the database exists");
    let failure = Error::from(rusqlite::Error::QueryReturnedNoRows);
    assert_eq!(failure, Error::Internal(Internal::SQLRelatedIssue(rusqlite::Error::QueryReturnedNoRows)));
    assert_eq!(
        failure.message(),
        format!("SQL-related issue: {}", rusqlite::Error::QueryReturnedNoRows),
    );
}
