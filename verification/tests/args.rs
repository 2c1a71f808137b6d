use ascents::cli::{is_unknown_crag, parse_date, parse_subcommand, wants_help, Args, Subcommand};
use ascents::error::{Error, User};

#[test]
fn cli_valid_args() {
    let valid_subcommands = [
        "init".to_string(),
        "log".to_string(),
        "drop".to_string(),
        "analyze".to_string(),
    ];

    for valid_subcommand in valid_subcommands {
        let result = Args::new(
            [
                "program".to_string(),
                valid_subcommand,
                "database".to_string(),
            ]
            .into_iter()
            .collect(),
        );

        assert!(result.is_ok());
    }
}

#[test]
fn cli_invalid_args() {
    let invalid_arg_sets = [
        vec!["program".to_string()],
        vec!["program".to_string(), "invalid-subcommand".to_string()],
        vec!["program".to_string(), "log".to_string()],
        vec![
            "program".to_string(),
            "log".to_string(),
            "database".to_string(),
            "extra".to_string(),
        ],
    ];

    for invalid_arg_set in invalid_arg_sets {
        let result = Args::new(invalid_arg_set.into_iter().collect());
        assert!(result.is_err());
    }
}

#[test]
fn lib_valid_args() {
    let valid_subcommands = [
        "init".to_string(),
        "log".to_string(),
        "drop".to_string(),
        "analyze".to_string(),
    ];

    for valid_subcommand in valid_subcommands {
        let result = Args::new(
            [
                "program".to_string(),
                valid_subcommand,
                "database".to_string(),
            ]
            .into_iter()
            .collect(),
        );

        assert!(result.is_ok());
    }
}

#[test]
fn lib_invalid_args() {
    let invalid_arg_sets = [
        vec!["program".to_string()],
        vec!["program".to_string(), "invalid-subcommand".to_string()],
        vec!["program".to_string(), "log".to_string()],
        vec![
            "program".to_string(),
            "log".to_string(),
            "database".to_string(),
            "extra".to_string(),
        ],
    ];

    for invalid_arg_set in invalid_arg_sets {
        let result = Args::new(invalid_arg_set.into_iter().collect());
        assert!(result.is_err());
    }
}

fn words(words: &[&str]) -> Vec<String> {
    words.iter().map(|word| word.to_string()).collect()
}

#[test]
fn args_hold_subcommand_and_database() {
    let args = Args::new(words(&["program", "drop", "climbs.db"])).unwrap();
    assert_eq!(args.subcommand(), Subcommand::Drop);
    assert_eq!(args.database(), "climbs.db");
    let args = Args::new(words(&["program", "init", "a"])).unwrap();
    assert_eq!(args.subcommand(), Subcommand::Init);
    let args = Args::new(words(&["program", "log", "a"])).unwrap();
    assert_eq!(args.subcommand(), Subcommand::Log);
    let args = Args::new(words(&["program", "analyze", "a"])).unwrap();
    assert_eq!(args.subcommand(), Subcommand::Analyze);
}

#[test]
fn first_fault_of_the_args_decides_the_error() {
    assert_eq!(Args::new(words(&[])).unwrap_err(), Error::User(User::MissingArg("subcommand")));
    assert_eq!(
        Args::new(words(&["program"])).unwrap_err(),
        Error::User(User::MissingArg("subcommand")),
    );
    assert_eq!(
        Args::new(words(&["program", "invalid-subcommand"])).unwrap_err(),
        Error::User(User::InvalidSubcommand),
    );
    assert_eq!(
        Args::new(words(&["program", "Log", "database", "extra"])).unwrap_err(),
        Error::User(User::InvalidSubcommand),
    );
    assert_eq!(
        Args::new(words(&["program", "log"])).unwrap_err(),
        Error::User(User::MissingArg("database")),
    );
    assert_eq!(
        Args::new(words(&["program", "log", "database", "extra"])).unwrap_err(),
        Error::User(User::TooManyArgs),
    );
}

#[test]
fn help_is_asked_for_by_the_first_word() {
    assert!(wants_help(&words(&["program", "-h"])));
    assert!(wants_help(&words(&["program", "--help", "more", "words"])));
    assert!(!wants_help(&words(&["program"])));
    assert!(!wants_help(&words(&["program", "log", "-h"])));
    assert!(!wants_help(&words(&["-h"])));
    assert_eq!(
        Args::new(words(&["program", "-h", "database"])).unwrap_err(),
        Error::User(User::InvalidSubcommand),
    );
}

#[test]
fn subcommands_are_read_by_their_exact_word() {
    assert_eq!(parse_subcommand(&"init".to_string()), Some(Subcommand::Init));
    assert_eq!(parse_subcommand(&"log".to_string()), Some(Subcommand::Log));
    assert_eq!(parse_subcommand(&"drop".to_string()), Some(Subcommand::Drop));
    assert_eq!(parse_subcommand(&"analyze".to_string()), Some(Subcommand::Analyze));
    assert_eq!(parse_subcommand(&"".to_string()), None);
    assert_eq!(parse_subcommand(&"logs".to_string()), None);
    assert_eq!(parse_subcommand(&" log".to_string()), None);
}

#[test]
fn dates_of_the_command_line_are_checked() {
    let date = parse_date("2023-06-30".to_string()).unwrap();
    assert_eq!((date.year(), date.month(), date.day()), (2023, 6, 30));
    for text in ["2023-06-31", "2023-6-30", "30-06-2023", "2023/06/30", "", "yesterday"] {
        assert_eq!(parse_date(text.to_string()).unwrap_err(), Error::User(User::InvalidDate));
    }
}

#[test]
fn a_crag_is_unknown_only_beside_known_ones() {
    let known = words(&["Some Crag", "Old Crag"]);
    assert!(is_unknown_crag(&known, &"New Crag".to_string()));
    assert!(!is_unknown_crag(&known, &"Old Crag".to_string()));
    assert!(!is_unknown_crag(&known, &"Some Crag".to_string()));
    assert!(is_unknown_crag(&known, &"some crag".to_string()));
    assert!(!is_unknown_crag(&words(&[]), &"New Crag".to_string()));
}
