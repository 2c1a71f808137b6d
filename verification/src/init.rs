use crate::error::{Error, User};
use crate::grade::{
    digit_char, digit_str, grade_text, is_grade_of_scale, is_yds_grade, law_scale_grades_are_valid,
};
use crate::models::AscentDB;
use crate::sql::{create_tables, insert_grade_info, open_connection, stored_grades, stored_rows};
use crate::table::{letter_text, no_grades, no_rows, GradeTable};
use crate::utils::path_exists;
use rusqlite::Connection;
use vstd::prelude::*;
use vstd::string::*;

verus! {

/// A grade of the scale as the table of grades holds it: its text, its number, and its
/// letter where it has one.
#[derive(Debug, PartialEq)]
pub struct Grade {
    pub value: String,
    pub number: u32,
    pub letter: Option<String>,
}

/// The letter at the given place among `a` to `d`.
pub open spec fn letter_char(place: int) -> char
    recommends
        0 <= place <= 3,
{
    (('a' as int) + place) as char
}

/// The number of the grade at a place of the scale, which runs from `5.0` to `5.9` and
/// then through the four letters of each of `5.10` to `5.15`.
pub open spec fn scale_number(place: int) -> int {
    if place < 10 {
        place
    } else {
        10 + (place - 10) / 4
    }
}

/// The letter of the grade at a place of the scale.
pub open spec fn scale_letter(place: int) -> Option<char> {
    if place < 10 {
        None
    } else {
        Some(letter_char((place - 10) % 4))
    }
}

impl Grade {
    /// Number and letter of the entry, as the table of grades holds them.
    pub open spec fn entry(&self) -> (int, Option<Seq<char>>) {
        (self.number as int, letter_text(self.letter))
    }

    /// The entry writes the grade at `place` of the scale.
    pub open spec fn is_at(&self, place: int) -> bool {
        &&& self.number == scale_number(place)
        &&& self.value@ == grade_text(scale_number(place), scale_letter(place))
        &&& match scale_letter(place) {
            None => self.letter is None,
            Some(l) => self.letter is Some && self.letter->Some_0@ == seq![l],
        }
    }
}

fn letter_str(place: u32) -> (text: &'static str)
    requires
        place <= 3,
    ensures
        text@ == seq![letter_char(place as int)],
{
    proof {
        reveal_strlit("a");
        reveal_strlit("b");
        reveal_strlit("c");
        reveal_strlit("d");
    }
    let text = if place == 0 {
        "a"
    } else if place == 1 {
        "b"
    } else if place == 2 {
        "c"
    } else {
        "d"
    };
    assert(text@ =~= seq![letter_char(place as int)]);
    text
}

/// The 34 grades of the scale in order: `5.0` to `5.9`, then `5.10a` to `5.15d`.
pub fn generate_grade_info_data() -> (grades: Vec<Grade>)
    ensures
        grades@.len() == 34,
        forall|place: int| 0 <= place < 34 ==> (#[trigger] grades@[place]).is_at(place),
{
    let mut grades: Vec<Grade> = Vec::new();
    let mut number: u32 = 0;
    while number < 10
        invariant
            number <= 10,
            grades@.len() == number,
            forall|place: int| 0 <= place < number ==> (#[trigger] grades@[place]).is_at(place),
        decreases 10 - number,
    {
        let mut value = String::from_str("5.");
        value.append(digit_str(number));
        proof {
            reveal_strlit("5.");
            assert(value@ =~= grade_text(number as int, None));
        }
        grades.push(Grade { value, number, letter: None });
        number = number + 1;
    }
    while number < 16
        invariant
            10 <= number <= 16,
            grades@.len() == 10 + 4 * (number - 10),
            forall|place: int|
                0 <= place < 10 + 4 * (number - 10) ==> (#[trigger] grades@[place]).is_at(place),
        decreases 16 - number,
    {
        let mut place: u32 = 0;
        while place < 4
            invariant
                10 <= number < 16,
                place <= 4,
                grades@.len() == 10 + 4 * (number - 10) + place,
                forall|at: int|
                    0 <= at < 10 + 4 * (number - 10) + place ==> (#[trigger] grades@[at]).is_at(at),
            decreases 4 - place,
        {
            let letter = letter_str(place);
            let mut value = String::from_str("5.1");
            value.append(digit_str(number - 10));
            value.append(letter);
            let ghost at = 10 + 4 * (number - 10) + place;
            proof {
                reveal_strlit("5.1");
                assert(scale_number(at) == number);
                assert(scale_letter(at) == Some(letter_char(place as int)));
                assert(digit_char(1) == '1');
                assert(value@ =~= grade_text(number as int, Some(letter_char(place as int))));
            }
            grades.push(Grade { value, number, letter: Some(String::from_str(letter)) });
            place = place + 1;
        }
        number = number + 1;
    }
    grades
}

/// Every place of the scale holds a valid grade, and every valid grade is at a place of
/// the scale.
pub proof fn law_scale_is_the_valid_grades(s: Seq<char>)
    ensures
        is_yds_grade(s) <==> exists|place: int|
            0 <= place < 34 && s == #[trigger] grade_text(scale_number(place), scale_letter(place)),
{
    if is_yds_grade(s) {
        if s.len() == 3 {
            let place = s[2] as int - '0' as int;
            assert(s =~= grade_text(scale_number(place), scale_letter(place)));
        } else {
            let place = 10 + 4 * (s[3] as int - '0' as int) + (s[4] as int - 'a' as int);
            assert(scale_number(place) == 10 + (s[3] as int - '0' as int));
            assert(scale_letter(place) == Some(s[4]));
            assert(s =~= grade_text(scale_number(place), scale_letter(place)));
        }
    }
    if exists|place: int|
        0 <= place < 34 && s == #[trigger] grade_text(scale_number(place), scale_letter(place)) {
        let place = choose|place: int|
            0 <= place < 34 && s == #[trigger] grade_text(scale_number(place), scale_letter(place));
        assert(is_grade_of_scale(scale_number(place), scale_letter(place)));
        law_scale_grades_are_valid(scale_number(place), scale_letter(place));
    }
}

/// The text of the grade at a place of the scale.
pub open spec fn scale_text(place: int) -> Seq<char> {
    grade_text(scale_number(place), scale_letter(place))
}

/// Number and letter of the grade at a place of the scale, as the table of grades holds
/// them.
pub open spec fn scale_entry(place: int) -> (int, Option<Seq<char>>) {
    (
        scale_number(place),
        match scale_letter(place) {
            Some(letter) => Some(seq![letter]),
            None => None,
        },
    )
}

/// A table of grades after the given entries were added to it, one after the other.
pub open spec fn with_grades(table: GradeTable, grades: Seq<Grade>) -> GradeTable
    decreases grades.len(),
{
    if grades.len() == 0 {
        table
    } else {
        with_grades(table, grades.drop_last()).insert(grades.last().value@, grades.last().entry())
    }
}

/// The table holds the scale: its grades are the valid grades, each with its number and
/// letter.
pub open spec fn is_scale_table(table: GradeTable) -> bool {
    &&& forall|text: Seq<char>| #[trigger] table.contains_key(text) <==> is_yds_grade(text)
    &&& forall|place: int|
        0 <= place < 34 ==> table[#[trigger] scale_text(place)] == scale_entry(place)
}

/// Some entry writes the text.
pub open spec fn writes_grade(grades: Seq<Grade>, text: Seq<char>) -> bool {
    exists|i: int| 0 <= i < grades.len() && (#[trigger] grades[i]).value@ == text
}

/// No two places of the scale hold the same text.
pub proof fn law_scale_texts_differ(p: int, q: int)
    requires
        0 <= p < 34,
        0 <= q < 34,
        p != q,
    ensures
        scale_text(p) != scale_text(q),
{
    let a = scale_text(p);
    let b = scale_text(q);
    if p < 10 {
        assert(a.len() == 3);
        assert(a[2] == digit_char(p));
    } else {
        assert(a.len() == 5);
        assert(a[3] == digit_char((p - 10) / 4));
        assert(a[4] == letter_char((p - 10) % 4));
    }
    if q < 10 {
        assert(b.len() == 3);
        assert(b[2] == digit_char(q));
    } else {
        assert(b.len() == 5);
        assert(b[3] == digit_char((q - 10) / 4));
        assert(b[4] == letter_char((q - 10) % 4));
    }
}

/// What a table holds after entries of different texts were added to it: what it held,
/// and each entry under its text.
proof fn lemma_with_grades(table: GradeTable, grades: Seq<Grade>)
    requires
        forall|i: int, j: int|
            0 <= i < j < grades.len() ==> (#[trigger] grades[i]).value@ != (
            #[trigger] grades[j]).value@,
    ensures
        forall|text: Seq<char>| #[trigger]
            with_grades(table, grades).contains_key(text) <==> table.contains_key(text)
                || writes_grade(grades, text),
        forall|i: int|
            0 <= i < grades.len() ==> with_grades(table, grades)[(#[trigger] grades[i]).value@]
                == grades[i].entry(),
    decreases grades.len(),
{
    if grades.len() > 0 {
        let before = grades.drop_last();
        let last = grades.last();
        lemma_with_grades(table, before);
        let filled = with_grades(table, before);
        assert forall|text: Seq<char>| #[trigger]
            with_grades(table, grades).contains_key(text) <==> table.contains_key(text)
                || writes_grade(grades, text) by {
            if writes_grade(before, text) {
                let i = choose|i: int| 0 <= i < before.len() && (#[trigger] before[i]).value@ == text;
                assert(grades[i].value@ == text);
            }
            if text == last.value@ {
                assert(grades[grades.len() - 1].value@ == text);
            }
            if writes_grade(grades, text) && text != last.value@ {
                let i = choose|i: int| 0 <= i < grades.len() && (#[trigger] grades[i]).value@ == text;
                assert(before[i].value@ == text);
            }
        }
        assert forall|i: int| 0 <= i < grades.len() implies with_grades(table, grades)[(
        #[trigger] grades[i]).value@] == grades[i].entry() by {
            if i < grades.len() - 1 {
                assert(before[i] == grades[i]);
                assert(grades[i].value@ != grades[grades.len() - 1].value@);
            }
        }
    }
}

/// The table of a new store after the entries of the scale were added is the table of
/// the scale.
proof fn lemma_scale_is_stored(grades: Seq<Grade>)
    requires
        grades.len() == 34,
        forall|place: int| 0 <= place < 34 ==> (#[trigger] grades[place]).is_at(place),
    ensures
        is_scale_table(with_grades(no_grades(), grades)),
{
    let table = with_grades(no_grades(), grades);
    assert forall|i: int, j: int| 0 <= i < j < grades.len() implies (#[trigger] grades[i]).value@
        != (#[trigger] grades[j]).value@ by {
        law_scale_texts_differ(i, j);
    }
    lemma_with_grades(no_grades(), grades);
    assert forall|text: Seq<char>| #[trigger] table.contains_key(text) <==> is_yds_grade(text) by {
        law_scale_is_the_valid_grades(text);
        if table.contains_key(text) {
            let i = choose|i: int| 0 <= i < grades.len() && (#[trigger] grades[i]).value@ == text;
            assert(text == grade_text(scale_number(i), scale_letter(i)));
        }
        if is_yds_grade(text) {
            let place = choose|place: int|
                0 <= place < 34 && text == #[trigger] grade_text(
                    scale_number(place),
                    scale_letter(place),
                );
            assert(grades[place].value@ == text);
            assert(writes_grade(grades, text));
        }
    }
    assert forall|place: int| 0 <= place < 34 implies table[#[trigger] scale_text(place)]
        == scale_entry(place) by {
        assert(grades[place].value@ == scale_text(place));
        assert(grades[place].entry() == scale_entry(place));
    }
}

/// Fills the table of grades, entry by entry, and stops at the first failure: then the
/// table holds the entries before the one that failed.
fn store_grades(conn: &mut Connection, grades: &Vec<Grade>) -> (done: Result<(), Error>)
    ensures
        stored_rows(*final(conn)) == stored_rows(*old(conn)),
        match done {
            Ok(()) => stored_grades(*final(conn)) == with_grades(stored_grades(*old(conn)), grades@),
            Err(e) => e is Internal && e->Internal_0 is SQLRelatedIssue && exists|k: int|
                0 <= k < grades@.len() && stored_grades(*final(conn)) == with_grades(
                    stored_grades(*old(conn)),
                    #[trigger] grades@.take(k),
                ),
        },
{
    let mut i: usize = 0;
    while i < grades.len()
        invariant
            i <= grades.len(),
            stored_rows(*conn) == stored_rows(*old(conn)),
            stored_grades(*conn) == with_grades(stored_grades(*old(conn)), grades@.take(i as int)),
        decreases grades.len() - i,
    {
        let grade = &grades[i];
        match insert_grade_info(conn, &grade.value, grade.number, &grade.letter) {
            Ok(()) => {},
            Err(e) => {
                return Err(Error::from(e));
            },
        }
        proof {
            let next = grades@.take(i + 1);
            assert(next.drop_last() =~= grades@.take(i as int));
            assert(next.last() == grades@[i as int]);
        }
        i = i + 1;
    }
    proof {
        assert(grades@.take(grades@.len() as int) =~= grades@);
    }
    Ok(())
}

/// Makes a new store at `database`: the table of ascents, without a row, and the table of
/// grades with the grades of the scale. Where something is at that path already, nothing
/// is opened or written.
pub fn init_ascent_db(database: &String) -> (made: Result<(), Error>)
    ensures
        match made {
            Ok(()) => true,
            Err(Error::User(e)) => e == User::DatabaseAlreadyExists,
            Err(Error::Internal(e)) => e is SQLRelatedIssue || e is UnreadablePath,
        },
{
    let found = path_exists(database)?;
    match init_absent(found, database) {
        Ok(_) => Ok(()),
        Err(e) => Err(e),
    }
}

/// Makes a new store at `database`, given whether something is at that path: where
/// something is, the store exists already and nothing is opened or written; else the new
/// store is handed back, without an ascent and with the scale in its table of grades.
pub fn init_absent(found: bool, database: &String) -> (made: Result<AscentDB, Error>)
    ensures
        match made {
            Ok(db) => !found && db.rows() == no_rows() && is_scale_table(db.grade_table()),
            Err(Error::User(e)) => found && e == User::DatabaseAlreadyExists,
            Err(Error::Internal(e)) => !found && e is SQLRelatedIssue,
        },
{
    if found {
        return Err(Error::User(User::DatabaseAlreadyExists));
    }
    let grades = generate_grade_info_data();
    let mut connection = match open_connection(database) {
        Ok(connection) => connection,
        Err(e) => {
            return Err(Error::from(e));
        },
    };
    match create_tables(&mut connection) {
        Ok(()) => {},
        Err(e) => {
            return Err(Error::from(e));
        },
    }
    store_grades(&mut connection, &grades)?;
    proof {
        lemma_scale_is_stored(grades@);
    }
    Ok(AscentDB { connection })
}

} // verus!
