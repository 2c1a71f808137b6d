use crate::date::{parsed_date, CalendarDate};
use crate::error::{Error, User};
use vstd::prelude::*;
use vstd::string::*;

verus! {

pub const USAGE: &'static str = "Usage: ascents [-h] {init,log,drop,analyze} database";

/// What the program is asked to do.
#[derive(Debug, Clone, Copy, PartialEq, Eq)]
pub enum Subcommand {
    Init,
    Log,
    Drop,
    Analyze,
}

/// The subcommand that a word names, if it names one.
pub open spec fn subcommand_of(word: Seq<char>) -> Option<Subcommand> {
    if word == "init"@ {
        Some(Subcommand::Init)
    } else if word == "log"@ {
        Some(Subcommand::Log)
    } else if word == "drop"@ {
        Some(Subcommand::Drop)
    } else if word == "analyze"@ {
        Some(Subcommand::Analyze)
    } else {
        None
    }
}

/// Whether a word asks for the usage.
pub open spec fn is_help_flag(word: Seq<char>) -> bool {
    word == "-h"@ || word == "--help"@
}

/// The arguments of the program: what to do, and on which database.
#[derive(Debug, PartialEq)]
pub struct Args {
    pub(crate) subcommand: Subcommand,
    pub(crate) database: String,
}

fn same_text(text: &String, word: &str) -> (same: bool)
    ensures
        same == (text@ == word@),
{
    let word = String::from_str(word);
    text.eq(&word)
}

/// Reads the subcommand that a word names.
pub fn parse_subcommand(word: &String) -> (subcommand: Option<Subcommand>)
    ensures
        subcommand == subcommand_of(word@),
{
    if same_text(word, "init") {
        Some(Subcommand::Init)
    } else if same_text(word, "log") {
        Some(Subcommand::Log)
    } else if same_text(word, "drop") {
        Some(Subcommand::Drop)
    } else if same_text(word, "analyze") {
        Some(Subcommand::Analyze)
    } else {
        None
    }
}

/// Whether the arguments ask for the usage: the word after the program's name is `-h`
/// or `--help`. The caller prints the usage then, and reads no further.
pub fn wants_help(args: &Vec<String>) -> (help: bool)
    ensures
        help == (args@.len() >= 2 && is_help_flag(args@[1]@)),
{
    args.len() >= 2 && (same_text(&args[1], "-h") || same_text(&args[1], "--help"))
}

impl Args {
    pub open(crate) spec fn spec_subcommand(&self) -> Subcommand {
        self.subcommand
    }

    pub open(crate) spec fn spec_database(&self) -> Seq<char> {
        self.database@
    }

    /// Reads the arguments: the program's name, which is passed over, a subcommand and
    /// a database, and no more. The first thing that is wrong decides the error.
    pub fn new(args: Vec<String>) -> (parsed: Result<Args, Error>)
        ensures
            match parsed {
                Ok(a) => args@.len() == 3 && subcommand_of(args@[1]@) == Some(a.spec_subcommand())
                    && a.spec_database() == args@[2]@,
                Err(e) => if args@.len() < 2 {
                    e == Error::User(User::MissingArg("subcommand"))
                } else if subcommand_of(args@[1]@) is None {
                    e == Error::User(User::InvalidSubcommand)
                } else if args@.len() < 3 {
                    e == Error::User(User::MissingArg("database"))
                } else {
                    args@.len() > 3 && e == Error::User(User::TooManyArgs)
                },
            },
    {
        if args.len() < 2 {
            return Err(Error::User(User::MissingArg("subcommand")));
        }
        let subcommand = match parse_subcommand(&args[1]) {
            Some(subcommand) => subcommand,
            None => {
                return Err(Error::User(User::InvalidSubcommand));
            },
        };
        if args.len() < 3 {
            return Err(Error::User(User::MissingArg("database")));
        }
        if args.len() > 3 {
            return Err(Error::User(User::TooManyArgs));
        }
        let database = args[2].clone();
        Ok(Args { subcommand, database })
    }

    pub fn subcommand(&self) -> (subcommand: Subcommand)
        ensures
            subcommand == self.spec_subcommand(),
    {
        self.subcommand
    }

    pub fn database(&self) -> (database: &String)
        ensures
            database@ == self.spec_database(),
    {
        &self.database
    }
}

/// Reads a date in the form `YYYY-MM-DD`.
pub fn parse_date(date: String) -> (parsed: Result<CalendarDate, Error>)
    ensures
        match parsed {
            Ok(d) => d.wf() && parsed_date(date@) == Some(d.ymd()),
            Err(e) => parsed_date(date@) is None && e == Error::User(User::InvalidDate),
        },
{
    match CalendarDate::from_text(date.as_str()) {
        Some(d) => Ok(d),
        None => Err(Error::User(User::InvalidDate)),
    }
}

/// Whether a crag is new to a store that knows some crags already: the moment to ask
/// before logging.
pub fn is_unknown_crag(known_crags: &Vec<String>, crag: &String) -> (unknown: bool)
    ensures
        unknown == (known_crags@.len() > 0 && forall|i: int|
            0 <= i < known_crags@.len() ==> (#[trigger] known_crags@[i])@ != crag@),
{
    if known_crags.len() == 0 {
        return false;
    }
    let mut i: usize = 0;
    while i < known_crags.len()
        invariant
            i <= known_crags@.len(),
            forall|j: int| 0 <= j < i ==> (#[trigger] known_crags@[j])@ != crag@,
        decreases known_crags.len() - i,
    {
        if known_crags[i].eq(crag) {
            return false;
        }
        i = i + 1;
    }
    true
}

} // verus!
