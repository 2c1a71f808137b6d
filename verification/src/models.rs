use crate::date::{date_text, is_calendar_date, law_text_reads_back, parsed_date, CalendarDate};
use crate::error::{Error, Internal, User};
use crate::grade::{digit_char, is_valid_grade, is_yds_grade};
use crate::sql::{
    count_rows, delete_row, insert_row, open_connection, row_exists, select_crag_counts,
    select_crags, select_date, select_grade_counts, select_year_counts, stored_grades,
    stored_rows,
};
use crate::table::{
    dates_are_plain, is_crag_list_of, is_plain_date, is_report_of, row_label, Dimension,
    GradeTable, RouteKey, Rows,
};
use crate::utils::path_exists;
use rusqlite::Connection;
use vstd::prelude::*;
use vstd::string::*;

verus! {

/// A climbing route: its name, its grade and the crag where it is.
#[derive(Debug, PartialEq)]
pub struct Route {
    pub(crate) name: String,
    pub(crate) grade: String,
    pub(crate) crag: String,
}

impl Route {
    /// Name, grade and crag: what a route is stored and found by.
    pub open(crate) spec fn key(&self) -> RouteKey {
        (self.name@, self.grade@, self.crag@)
    }

    /// The grade is one of the scale.
    #[verifier::type_invariant]
    pub open(crate) spec fn wf(&self) -> bool {
        is_yds_grade(self.grade@)
    }

    /// How the route is shown: name, grade, `at`, crag.
    pub open spec fn text(&self) -> Seq<char> {
        self.key().0 + " "@ + self.key().1 + " at "@ + self.key().2
    }

    /// The route of that name, grade and crag, where the grade is one of the scale.
    pub fn new(name: String, grade: String, crag: String) -> (route: Result<Route, Error>)
        ensures
            match route {
                Ok(r) => is_yds_grade(grade@) && r.wf() && r.key() == (name@, grade@, crag@),
                Err(e) => !is_yds_grade(grade@) && e == Error::User(User::InvalidGrade),
            },
    {
        if !is_valid_grade(grade.as_str()) {
            return Err(Error::User(User::InvalidGrade));
        }
        Ok(Route { name, grade, crag })
    }

    pub fn name(&self) -> (name: &String)
        ensures
            name@ == self.key().0,
    {
        &self.name
    }

    pub fn grade(&self) -> (grade: &String)
        ensures
            grade@ == self.key().1,
            is_yds_grade(grade@),
    {
        proof {
            use_type_invariant(self);
        }
        &self.grade
    }

    pub fn crag(&self) -> (crag: &String)
        ensures
            crag@ == self.key().2,
    {
        &self.crag
    }

    pub fn to_text(&self) -> (text: String)
        ensures
            text@ == self.text(),
    {
        let mut text = self.name.clone();
        text.append(" ");
        text.append(self.grade.as_str());
        text.append(" at ");
        text.append(self.crag.as_str());
        text
    }
}

/// An ascent: a route and the date on which it was climbed.
#[derive(Debug, PartialEq)]
pub struct Ascent {
    pub(crate) route: Route,
    pub(crate) date: CalendarDate,
}

impl Ascent {
    pub open(crate) spec fn key(&self) -> RouteKey {
        self.route.key()
    }

    /// Year, month and day of the ascent.
    pub open(crate) spec fn ymd(&self) -> (int, int, int) {
        self.date.ymd()
    }

    /// The route's grade is one of the scale, and the date is a day of the calendar.
    #[verifier::type_invariant]
    pub open(crate) spec fn wf(&self) -> bool {
        self.route.wf() && self.date.wf()
    }

    /// The text under which the date of the ascent is stored.
    pub open spec fn date_text(&self) -> Seq<char> {
        crate::date::date_text(self.ymd().0, self.ymd().1, self.ymd().2)
    }

    /// How the ascent is shown: the route, `on`, the date.
    pub open(crate) spec fn text(&self) -> Seq<char> {
        self.route.text() + " on "@ + self.date_text()
    }

    pub fn new(route: Route, date: CalendarDate) -> (ascent: Ascent)
        ensures
            ascent.wf(),
            ascent.key() == route.key(),
            ascent.ymd() == date.ymd(),
    {
        proof {
            use_type_invariant(&route);
            use_type_invariant(&date);
        }
        Ascent { route, date }
    }

    pub fn route(&self) -> (route: &Route)
        ensures
            route.key() == self.key(),
            route.wf(),
    {
        proof {
            use_type_invariant(self);
        }
        &self.route
    }

    pub fn date(&self) -> (date: CalendarDate)
        ensures
            date.ymd() == self.ymd(),
            date.wf(),
    {
        proof {
            use_type_invariant(self);
        }
        self.date
    }

    pub fn to_text(&self) -> (text: String)
        ensures
            text@ == self.text(),
    {
        let mut text = self.route.to_text();
        text.append(" on ");
        let date = self.date.to_text();
        text.append(date.as_str());
        text
    }
}

/// A row of a report: a group and the number of ascents in it.
#[derive(Debug, PartialEq)]
pub struct Count {
    pub(crate) category: String,
    pub(crate) value: u32,
}

impl Count {
    pub open(crate) spec fn label(&self) -> Seq<char> {
        self.category@
    }

    pub open(crate) spec fn number(&self) -> nat {
        self.value as nat
    }

    pub fn new(category: String, value: u32) -> (count: Count)
        ensures
            count.label() == category@,
            count.number() == value,
    {
        Count { category, value }
    }

    pub fn category(&self) -> (category: &String)
        ensures
            category@ == self.label(),
    {
        &self.category
    }

    pub fn value(&self) -> (value: u32)
        ensures
            value == self.number(),
    {
        self.value
    }
}

/// The rows of a store after an ascent with that key and date text was logged.
pub open spec fn rows_after_log(rows: Rows, key: RouteKey, date: Seq<char>) -> Rows {
    if rows.contains_key(key) {
        rows
    } else {
        rows.insert(key, date)
    }
}

/// The rows of a store after the ascent with that key was dropped.
pub open spec fn rows_after_drop(rows: Rows, key: RouteKey) -> Rows {
    rows.remove(key)
}

/// The date of the ascent that a store holds for a key, where it holds one whose date
/// can be read.
pub open spec fn date_found(rows: Rows, key: RouteKey) -> Option<(int, int, int)> {
    if rows.contains_key(key) {
        parsed_date(rows[key])
    } else {
        None
    }
}

/// Decides whether an ascent may be logged, from what the store holds for its route:
/// it may where nothing is stored; otherwise the stored date is reported.
pub fn check_unlogged(stored: Option<String>) -> (verdict: Result<(), Error>)
    ensures
        match stored {
            None => verdict is Ok,
            Some(date) => verdict == Err::<(), Error>(
                Error::User(User::AscentAlreadyLogged(date)),
            ),
        },
{
    match stored {
        None => Ok(()),
        Some(date) => Err(Error::User(User::AscentAlreadyLogged(date))),
    }
}

/// Builds the ascent of `route` from what the store holds for it: none where nothing is
/// stored; a failure inside where the stored text is no date.
pub fn ascent_from_stored(route: Route, stored: Option<String>) -> (found: Result<Ascent, Error>)
    ensures
        match found {
            Ok(ascent) => stored is Some && ascent.wf() && ascent.key() == route.key()
                && parsed_date(stored->Some_0@) == Some(ascent.ymd()),
            Err(e) => match stored {
                None => e == Error::User(User::AscentNotFound),
                Some(text) => parsed_date(text@) is None && e == Error::Internal(
                    Internal::UnreadableDate(text),
                ),
            },
        },
{
    match stored {
        None => Err(Error::User(User::AscentNotFound)),
        Some(text) => match CalendarDate::from_text(text.as_str()) {
            Some(date) => Ok(Ascent::new(route, date)),
            None => Err(Error::Internal(Internal::UnreadableDate(text))),
        },
    }
}

/// Decides whether an ascent may be dropped, from whether the store holds it.
pub fn check_logged(stored: bool) -> (verdict: Result<(), Error>)
    ensures
        stored ==> verdict is Ok,
        !stored ==> verdict == Err::<(), Error>(Error::User(User::AscentNotFound)),
{
    if stored {
        Ok(())
    } else {
        Err(Error::User(User::AscentNotFound))
    }
}

/// The store of ascents: a connection to its database.
pub struct AscentDB {
    pub(crate) connection: Connection,
}

impl AscentDB {
    /// The rows of the store: from the name, grade and crag of a route to the text of
    /// the date of its ascent.
    pub open(crate) spec fn rows(&self) -> Rows {
        stored_rows(self.connection)
    }

    /// The table of grades of the store: from the text of a grade to its number and
    /// letter.
    pub open(crate) spec fn grade_table(&self) -> GradeTable {
        stored_grades(self.connection)
    }

    /// Opens the store at `database`, which must exist: none is made.
    pub fn new(database: &String) -> (opened: Result<AscentDB, Error>)
        ensures
            match opened {
                Ok(db) => db.rows().dom().finite(),
                Err(Error::User(e)) => e == User::DatabaseNotFound,
                Err(Error::Internal(e)) => e is SQLRelatedIssue || e is UnreadablePath,
            },
    {
        let found = path_exists(database)?;
        AscentDB::open_existing(found, database)
    }

    /// Opens the store at `database`, given whether something is at that path: where
    /// nothing is, the store is not found and nothing is opened.
    pub fn open_existing(found: bool, database: &String) -> (opened: Result<AscentDB, Error>)
        ensures
            match opened {
                Ok(db) => found && db.rows().dom().finite(),
                Err(Error::User(e)) => !found && e == User::DatabaseNotFound,
                Err(Error::Internal(e)) => found && e is SQLRelatedIssue,
            },
    {
        if !found {
            return Err(Error::User(User::DatabaseNotFound));
        }
        match open_connection(database) {
            Ok(connection) => Ok(AscentDB { connection }),
            Err(e) => Err(Error::from(e)),
        }
    }

    /// The crags of the logged ascents, each once, in ascending order.
    pub fn crags(&self) -> (crags: Result<Vec<String>, Error>)
        ensures
            match crags {
                Ok(list) => is_crag_list_of(list@, self.rows()),
                Err(e) => e is Internal && e->Internal_0 is SQLRelatedIssue,
            },
    {
        match select_crags(&self.connection) {
            Ok(list) => Ok(list),
            Err(e) => Err(Error::from(e)),
        }
    }

    /// Logs an ascent, unless one of its route is logged already: then the store stays
    /// as it is and the error carries the date that is stored. The table of grades is
    /// left as it was.
    pub fn log_ascent(&mut self, ascent: &Ascent) -> (logged: Result<(), Error>)
        ensures
            final(self).grade_table() == old(self).grade_table(),
            match logged {
                Ok(()) => !old(self).rows().contains_key(ascent.key()) && final(self).rows()
                    == old(self).rows().insert(ascent.key(), ascent.date_text()),
                Err(Error::User(e)) => old(self).rows().contains_key(ascent.key()) && e
                    == User::AscentAlreadyLogged(e->AscentAlreadyLogged_0)
                    && e->AscentAlreadyLogged_0@ == old(self).rows()[ascent.key()]
                    && final(self).rows() == old(self).rows(),
                Err(Error::Internal(e)) => e is SQLRelatedIssue && final(self).rows() == old(
                    self,
                ).rows(),
            },
            !(logged is Err && logged->Err_0 is Internal) ==> final(self).rows() == rows_after_log(
                old(self).rows(),
                ascent.key(),
                ascent.date_text(),
            ),
    {
        let route = ascent.route();
        let stored = match select_date(&self.connection, route.name(), route.grade(), route.crag()) {
            Ok(stored) => stored,
            Err(e) => {
                return Err(Error::from(e));
            },
        };
        check_unlogged(stored)?;
        let date = ascent.date().to_text();
        match insert_row(&mut self.connection, route.name(), route.grade(), route.crag(), &date) {
            Ok(()) => Ok(()),
            Err(e) => Err(Error::from(e)),
        }
    }

    /// Finds the ascent of a route.
    pub fn find_ascent(&self, route: Route) -> (found: Result<Ascent, Error>)
        ensures
            match found {
                Ok(ascent) => ascent.wf() && ascent.key() == route.key() && date_found(
                    self.rows(),
                    route.key(),
                ) == Some(ascent.ymd()),
                Err(Error::User(e)) => e == User::AscentNotFound && !self.rows().contains_key(
                    route.key(),
                ),
                Err(Error::Internal(e)) => match e {
                    Internal::SQLRelatedIssue(_) => true,
                    Internal::UnreadableDate(text) => self.rows().contains_key(route.key())
                        && text@ == self.rows()[route.key()] && date_found(
                        self.rows(),
                        route.key(),
                    ) is None,
                    Internal::UnreadablePath => false,
                },
            },
    {
        let stored = match select_date(&self.connection, route.name(), route.grade(), route.crag()) {
            Ok(stored) => stored,
            Err(e) => {
                return Err(Error::from(e));
            },
        };
        ascent_from_stored(route, stored)
    }

    /// Drops the ascent of a route. The table of grades is left as it was.
    pub fn drop_ascent(&mut self, route: &Route) -> (dropped: Result<(), Error>)
        ensures
            final(self).grade_table() == old(self).grade_table(),
            match dropped {
                Ok(()) => old(self).rows().contains_key(route.key()) && final(self).rows()
                    == rows_after_drop(old(self).rows(), route.key()),
                Err(Error::User(e)) => e == User::AscentNotFound && !old(
                    self,
                ).rows().contains_key(route.key()) && final(self).rows() == old(self).rows(),
                Err(Error::Internal(e)) => e is SQLRelatedIssue && final(self).rows() == old(
                    self,
                ).rows(),
            },
    {
        let stored = match row_exists(&self.connection, route.name(), route.grade(), route.crag()) {
            Ok(stored) => stored,
            Err(e) => {
                return Err(Error::from(e));
            },
        };
        check_logged(stored)?;
        match delete_row(&mut self.connection, route.name(), route.grade(), route.crag()) {
            Ok(()) => Ok(()),
            Err(e) => Err(Error::from(e)),
        }
    }

    /// The number of logged ascents.
    pub fn total_count(&self) -> (total: Result<u32, Error>)
        ensures
            match total {
                Ok(n) => self.rows().dom().finite() && n == self.rows().dom().len(),
                Err(e) => e is Internal && e->Internal_0 is SQLRelatedIssue,
            },
    {
        match count_rows(&self.connection) {
            Ok(n) => Ok(n),
            Err(e) => Err(Error::from(e)),
        }
    }

    /// The number of ascents of each year, the years in ascending order.
    pub fn year_counts(&self) -> (counts: Result<Vec<Count>, Error>)
        ensures
            match counts {
                Ok(report) => dates_are_plain(self.rows()) ==> is_report_of(
                    report@,
                    self.rows(),
                    Dimension::Year,
                ),
                Err(e) => e is Internal && e->Internal_0 is SQLRelatedIssue,
            },
    {
        match select_year_counts(&self.connection) {
            Ok(report) => Ok(report),
            Err(e) => Err(Error::from(e)),
        }
    }

    /// The number of ascents at each crag, the crags in ascending order.
    pub fn crag_counts(&self) -> (counts: Result<Vec<Count>, Error>)
        ensures
            match counts {
                Ok(report) => is_report_of(report@, self.rows(), Dimension::Crag),
                Err(e) => e is Internal && e->Internal_0 is SQLRelatedIssue,
            },
    {
        match select_crag_counts(&self.connection) {
            Ok(report) => Ok(report),
            Err(e) => Err(Error::from(e)),
        }
    }

    /// The number of ascents of each grade, the grades in ascending order.
    pub fn grade_counts(&self) -> (counts: Result<Vec<Count>, Error>)
        ensures
            match counts {
                Ok(report) => is_report_of(report@, self.rows(), Dimension::Grade),
                Err(e) => e is Internal && e->Internal_0 is SQLRelatedIssue,
            },
    {
        match select_grade_counts(&self.connection) {
            Ok(report) => Ok(report),
            Err(e) => Err(Error::from(e)),
        }
    }

    /// The number of ascents in each group of the given dimension.
    pub fn counts_by(&self, by: Dimension) -> (counts: Result<Vec<Count>, Error>)
        ensures
            match counts {
                Ok(report) => by != Dimension::Year || dates_are_plain(self.rows())
                    ==> is_report_of(report@, self.rows(), by),
                Err(e) => e is Internal && e->Internal_0 is SQLRelatedIssue,
            },
    {
        match by {
            Dimension::Year => self.year_counts(),
            Dimension::Crag => self.crag_counts(),
            Dimension::Grade => self.grade_counts(),
        }
    }
}

/// An ascent that is logged where none of its route was stored is found by its route
/// afterwards, with its date.
pub proof fn law_logged_ascent_is_found(rows: Rows, ascent: Ascent)
    requires
        ascent.wf(),
        !rows.contains_key(ascent.key()),
    ensures
        date_found(rows_after_log(rows, ascent.key(), ascent.date_text()), ascent.key()) == Some(
            ascent.ymd(),
        ),
{
    law_text_reads_back(ascent.ymd().0, ascent.ymd().1, ascent.ymd().2);
}

/// Where an ascent is logged and then another of the same route, the second is refused:
/// the store holds the first one's date for the route, logging leaves it as it is, and
/// it holds one row more than before the first.
pub proof fn law_second_log_is_refused(rows: Rows, first: Ascent, second: Ascent)
    requires
        first.wf(),
        second.wf(),
        first.key() == second.key(),
        rows.dom().finite(),
        !rows.contains_key(first.key()),
    ensures
        ({
            let once = rows_after_log(rows, first.key(), first.date_text());
            &&& once.contains_key(second.key())
            &&& once[second.key()] == first.date_text()
            &&& rows_after_log(once, second.key(), second.date_text()) == once
            &&& once.dom().len() == rows.dom().len() + 1
        }),
{
}

/// A route that is not stored stays so where it is dropped, and the store stays as it
/// is; a stored route is not stored after one drop, so that a second drop finds none.
pub proof fn law_dropped_ascent_is_gone(rows: Rows, key: RouteKey)
    ensures
        !rows_after_drop(rows, key).contains_key(key),
        !rows.contains_key(key) ==> rows_after_drop(rows, key) == rows,
        rows_after_drop(rows_after_drop(rows, key), key) == rows_after_drop(rows, key),
{
    assert(!rows.contains_key(key) ==> rows.remove(key) =~= rows);
    assert(rows.remove(key).remove(key) =~= rows.remove(key));
}

/// The text of a date of a year that is not negative is in the plain form, and begins
/// with the four digits of the year: the group that it is counted in by year.
pub proof fn law_year_group_is_the_year(key: RouteKey, year: int, month: int, day: int)
    requires
        is_calendar_date(year, month, day),
        year >= 0,
    ensures
        is_plain_date(date_text(year, month, day)),
        row_label(Dimension::Year, key, date_text(year, month, day)) == seq![
            digit_char(year / 1000),
            digit_char((year / 100) % 10),
            digit_char((year / 10) % 10),
            digit_char(year % 10),
        ],
{
    law_text_reads_back(year, month, day);
    let text = date_text(year, month, day);
    assert(text.len() == 10);
    assert(text.subrange(0, 4) =~= seq![
        digit_char(year / 1000),
        digit_char((year / 100) % 10),
        digit_char((year / 10) % 10),
        digit_char(year % 10),
    ]);
}

/// A store whose dates are plain stays so where an ascent of a year that is not negative
/// is logged, and where an ascent is dropped.
pub proof fn law_dates_stay_plain(rows: Rows, ascent: Ascent, key: RouteKey)
    requires
        ascent.wf(),
        ascent.ymd().0 >= 0,
        dates_are_plain(rows),
    ensures
        dates_are_plain(rows_after_log(rows, ascent.key(), ascent.date_text())),
        dates_are_plain(rows_after_drop(rows, key)),
{
    law_year_group_is_the_year(ascent.key(), ascent.ymd().0, ascent.ymd().1, ascent.ymd().2);
}

} // verus!
