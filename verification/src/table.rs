use crate::date::parsed_date;
use crate::models::Count;
use vstd::prelude::*;

verus! {

/// Name, grade and crag of a route.
pub type RouteKey = (Seq<char>, Seq<char>, Seq<char>);

/// Rows of the table of ascents: from a route's key to the text of a date.
pub type Rows = Map<RouteKey, Seq<char>>;

/// The table without a row.
pub open spec fn no_rows() -> Rows {
    Map::empty()
}

/// Rows of the table of grades: from the text of a grade to its number and, where it has
/// one, its letter.
pub type GradeTable = Map<Seq<char>, (int, Option<Seq<char>>)>;

/// The table of grades without a row.
pub open spec fn no_grades() -> GradeTable {
    Map::empty()
}

/// A letter as the table of grades holds it: its text, or nothing.
pub open spec fn letter_text(letter: Option<String>) -> Option<Seq<char>> {
    match letter {
        Some(text) => Some(text@),
        None => None,
    }
}

/// Whether `a` comes before `b` where texts are ordered character by character, a text
/// before all that it begins.
pub open spec fn text_precedes(a: Seq<char>, b: Seq<char>) -> bool
    decreases a.len(),
{
    if b.len() == 0 {
        false
    } else if a.len() == 0 {
        true
    } else if a[0] != b[0] {
        a[0] < b[0]
    } else {
        text_precedes(a.skip(1), b.skip(1))
    }
}

/// What ascents are counted by.
#[derive(Debug, Clone, Copy, PartialEq, Eq)]
pub enum Dimension {
    Year,
    Crag,
    Grade,
}

/// A stored date in its plain form: ten characters, without a sign.
pub open spec fn is_plain_date(text: Seq<char>) -> bool {
    text.len() == 10 && parsed_date(text) is Some
}

/// Every stored date is in its plain form.
pub open spec fn dates_are_plain(rows: Rows) -> bool {
    forall|key: RouteKey| #[trigger]
        rows.contains_key(key) ==> is_plain_date(rows[key])
}

/// The group that a row falls into: the four digits of its year, its crag, or its grade.
pub open spec fn row_label(by: Dimension, key: RouteKey, date: Seq<char>) -> Seq<char> {
    match by {
        Dimension::Year => date.subrange(0, 4),
        Dimension::Crag => key.2,
        Dimension::Grade => key.1,
    }
}

/// The rows that fall into the group `label`, by their keys.
pub open spec fn group(rows: Rows, by: Dimension, label: Seq<char>) -> Set<RouteKey> {
    rows.dom().filter(|key: RouteKey| row_label(by, key, rows[key]) == label)
}

/// How many rows fall into the group `label`.
pub open spec fn tally(rows: Rows, by: Dimension, label: Seq<char>) -> nat {
    group(rows, by, label).len()
}

/// `counts` is the report of `rows` by the given dimension: one entry for each group
/// that holds a row, with the number of its rows, the groups in ascending order.
pub open spec fn is_report_of(counts: Seq<Count>, rows: Rows, by: Dimension) -> bool {
    &&& rows.dom().finite()
    &&& forall|i: int, j: int|
        0 <= i < j < counts.len() ==> text_precedes(
            #[trigger] counts[i].label(),
            #[trigger] counts[j].label(),
        )
    &&& forall|i: int|
        0 <= i < counts.len() ==> (#[trigger] counts[i]).number() >= 1 && counts[i].number()
            == tally(rows, by, counts[i].label())
    &&& forall|key: RouteKey| #[trigger]
        rows.contains_key(key) ==> exists|i: int|
            0 <= i < counts.len() && (#[trigger] counts[i]).label() == row_label(
                by,
                key,
                rows[key],
            )
}

/// Some row names the crag.
#[verifier::opaque]
pub open spec fn names_crag(rows: Rows, crag: Seq<char>) -> bool {
    exists|key: RouteKey| #[trigger] rows.contains_key(key) && key.2 == crag
}

/// The list holds the crag.
#[verifier::opaque]
pub open spec fn lists_crag(crags: Seq<String>, crag: Seq<char>) -> bool {
    exists|i: int| 0 <= i < crags.len() && (#[trigger] crags[i])@ == crag
}

/// `crags` lists the crags of `rows`: each crag that a row names, once, in ascending
/// order.
pub open spec fn is_crag_list_of(crags: Seq<String>, rows: Rows) -> bool {
    &&& forall|i: int, j: int|
        0 <= i < j < crags.len() ==> text_precedes((#[trigger] crags[i])@, (#[trigger] crags[j])@)
    &&& forall|i: int| 0 <= i < crags.len() ==> names_crag(rows, (#[trigger] crags[i])@)
    &&& forall|key: RouteKey| #[trigger] rows.contains_key(key) ==> lists_crag(crags, key.2)
}

} // verus!
