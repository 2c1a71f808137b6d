use crate::error::{Error, User};
use crate::grade::{digit_char, digit_str};
use crate::models::{AscentDB, Count};
use crate::table::{dates_are_plain, is_report_of, Dimension, Rows};
use vstd::prelude::*;
use vstd::string::*;

verus! {

/// A number in decimal, without leading zeros.
pub open spec fn decimal_text(n: nat) -> Seq<char>
    decreases n,
{
    if n < 10 {
        seq![digit_char(n as int)]
    } else {
        decimal_text(n / 10) + seq![digit_char((n % 10) as int)]
    }
}

/// That many spaces.
pub open spec fn spaces(n: nat) -> Seq<char> {
    Seq::new(n, |i: int| ' ')
}

/// A text behind as many spaces as bring it to the given width, where it is shorter.
pub open spec fn right_aligned(text: Seq<char>, width: nat) -> Seq<char> {
    if text.len() >= width {
        text
    } else {
        spaces((width - text.len()) as nat) + text
    }
}

/// A line of a table of counts: the number, right-aligned in four columns, two spaces,
/// the group.
pub open spec fn count_line(count: Count) -> Seq<char> {
    right_aligned(decimal_text(count.number()), 4) + "  "@ + count.label()
}

/// A table of counts: one line for each count, with line breaks between them.
pub open spec fn table_text(counts: Seq<Count>) -> Seq<char>
    decreases counts.len(),
{
    if counts.len() == 0 {
        Seq::<char>::empty()
    } else if counts.len() == 1 {
        count_line(counts[0])
    } else {
        table_text(counts.drop_last()) + "\n"@ + count_line(counts.last())
    }
}

/// The text of an analysis: the database, the total, and the three tables.
pub open spec fn analysis_text(
    database: Seq<char>,
    total: nat,
    years: Seq<Count>,
    crags: Seq<Count>,
    grades: Seq<Count>,
) -> Seq<char> {
    "Analysis of ascents in "@ + database + "\n\nTotal count: "@ + decimal_text(total)
        + "\n\nCount of ascents by year:\n"@ + table_text(years)
        + "\n\nCount of ascents by crag:\n"@ + table_text(crags)
        + "\n\nCount of ascents by grade:\n"@ + table_text(grades)
}

/// The total and the three reports are those of `rows`, and `text` is their analysis.
pub open spec fn analysis_shows(
    text: Seq<char>,
    database: Seq<char>,
    rows: Rows,
    total: nat,
    years: Seq<Count>,
    crags: Seq<Count>,
    grades: Seq<Count>,
) -> bool {
    &&& rows.dom().finite()
    &&& total == rows.dom().len()
    &&& dates_are_plain(rows) ==> is_report_of(years, rows, Dimension::Year)
    &&& is_report_of(crags, rows, Dimension::Crag)
    &&& is_report_of(grades, rows, Dimension::Grade)
    &&& text == analysis_text(database, total, years, crags, grades)
}

/// `text` is the analysis of a store with these rows.
pub open spec fn is_analysis_of(text: Seq<char>, database: Seq<char>, rows: Rows) -> bool {
    exists|total: nat, years: Seq<Count>, crags: Seq<Count>, grades: Seq<Count>|
        #[trigger] analysis_shows(text, database, rows, total, years, crags, grades)
}

/// Writes a number in decimal at the end of a text.
pub fn push_decimal(text: &mut String, n: u32)
    ensures
        final(text)@ == old(text)@ + decimal_text(n as nat),
    decreases n,
{
    if n >= 10 {
        push_decimal(text, n / 10);
    }
    text.append(digit_str(n % 10));
    proof {
        assert(final(text)@ =~= old(text)@ + decimal_text(n as nat));
    }
}

/// Writes a number in decimal, right-aligned in four columns.
pub fn aligned_count(n: u32) -> (text: String)
    ensures
        text@ == right_aligned(decimal_text(n as nat), 4),
{
    let mut digits = String::new();
    push_decimal(&mut digits, n);
    assert(digits@ =~= decimal_text(n as nat));
    let len: usize = digits.as_str().unicode_len();
    let mut text = String::new();
    let mut width: usize = len;
    while width < 4
        invariant
            len <= width,
            len < 4 ==> width <= 4,
            len >= 4 ==> width == len,
            text@ == spaces((width - len) as nat),
        decreases 4 - width,
    {
        text.append(" ");
        proof {
            reveal_strlit(" ");
            assert(text@ =~= spaces((width + 1 - len) as nat));
        }
        width = width + 1;
    }
    text.append(digits.as_str());
    proof {
        if len >= 4 {
            assert(spaces(0) =~= Seq::<char>::empty());
            assert(text@ =~= digits@);
        }
    }
    text
}

/// Writes one line of a table of counts.
pub fn make_count_line(count: &Count) -> (line: String)
    ensures
        line@ == count_line(*count),
{
    let mut line = aligned_count(count.value());
    line.append("  ");
    line.append(count.category().as_str());
    line
}

/// Writes a table of counts, one line for each.
pub fn make_counts_table(counts: Vec<Count>) -> (table: String)
    ensures
        table@ == table_text(counts@),
{
    let mut table = String::new();
    let mut i: usize = 0;
    while i < counts.len()
        invariant
            i <= counts@.len(),
            table@ == table_text(counts@.take(i as int)),
        decreases counts.len() - i,
    {
        if i > 0 {
            table.append("\n");
        }
        let line = make_count_line(&counts[i]);
        table.append(line.as_str());
        proof {
            let next = counts@.take(i + 1);
            assert(next.drop_last() =~= counts@.take(i as int));
            assert(next.last() == counts@[i as int]);
            if i == 0 {
                assert(table@ =~= count_line(counts@[0]));
            }
        }
        i = i + 1;
    }
    proof {
        assert(counts@.take(counts@.len() as int) =~= counts@);
    }
    table
}

/// Writes the analysis from the total and the three reports.
pub fn format_analysis(
    database: &String,
    total: u32,
    years: Vec<Count>,
    crags: Vec<Count>,
    grades: Vec<Count>,
) -> (text: String)
    ensures
        text@ == analysis_text(database@, total as nat, years@, crags@, grades@),
{
    let mut text = String::from_str("Analysis of ascents in ");
    text.append(database.as_str());
    text.append("\n\nTotal count: ");
    push_decimal(&mut text, total);
    text.append("\n\nCount of ascents by year:\n");
    let table = make_counts_table(years);
    text.append(table.as_str());
    text.append("\n\nCount of ascents by crag:\n");
    let table = make_counts_table(crags);
    text.append(table.as_str());
    text.append("\n\nCount of ascents by grade:\n");
    let table = make_counts_table(grades);
    text.append(table.as_str());
    text
}

/// Analyses an open store: the total, and the counts by year, by crag and by grade.
pub fn analyze(db: &AscentDB, database: &String) -> (analysis: Result<String, Error>)
    ensures
        match analysis {
            Ok(text) => is_analysis_of(text@, database@, db.rows()),
            Err(e) => e is Internal && e->Internal_0 is SQLRelatedIssue,
        },
{
    let total = db.total_count()?;
    let years = db.year_counts()?;
    let crags = db.crag_counts()?;
    let grades = db.grade_counts()?;
    let ghost shown = (years@, crags@, grades@);
    let text = format_analysis(database, total, years, crags, grades);
    proof {
        assert(analysis_shows(
            text@,
            database@,
            db.rows(),
            total as nat,
            shown.0,
            shown.1,
            shown.2,
        ));
    }
    Ok(text)
}

/// Analyses the store at `database`, which must exist.
pub fn analyze_ascent_db(database: &String) -> (analysis: Result<String, Error>)
    ensures
        match analysis {
            Ok(text) => exists|rows: Rows| #[trigger] is_analysis_of(text@, database@, rows),
            Err(Error::User(e)) => e == User::DatabaseNotFound,
            Err(Error::Internal(e)) => e is SQLRelatedIssue || e is UnreadablePath,
        },
{
    let db = AscentDB::new(database)?;
    let analysis = analyze(&db, database);
    proof {
        if analysis is Ok {
            assert(is_analysis_of(analysis->Ok_0@, database@, db.rows()));
        }
    }
    analysis
}

} // verus!
