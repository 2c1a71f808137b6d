use vstd::prelude::*;
use vstd::string::*;

verus! {

/// An ASCII decimal digit.
pub open spec fn is_digit(c: char) -> bool {
    '0' <= c <= '9'
}

/// The character that writes the decimal digit `d`.
pub open spec fn digit_char(d: int) -> char
    recommends
        0 <= d <= 9,
{
    (('0' as int) + d) as char
}

/// The text of the grade with the given number and optional letter: `5.`, the number in
/// decimal, then the letter where there is one.
pub open spec fn grade_text(number: int, letter: Option<char>) -> Seq<char>
    recommends
        0 <= number <= 99,
{
    let digits = if number < 10 {
        seq![digit_char(number)]
    } else {
        seq![digit_char(number / 10), digit_char(number % 10)]
    };
    let suffix = match letter {
        Some(l) => seq![l],
        None => Seq::<char>::empty(),
    };
    seq!['5', '.'] + digits + suffix
}

/// A number and letter that name a grade of the scale: `5.0` to `5.9` carry no letter,
/// `5.10` to `5.15` carry one of `a` to `d`.
pub open spec fn is_grade_of_scale(number: int, letter: Option<char>) -> bool {
    ||| 0 <= number <= 9 && letter is None
    ||| 10 <= number <= 15 && letter is Some && 'a' <= letter->Some_0 <= 'd'
}

/// The grades that a route may carry, character by character.
pub open spec fn is_yds_grade(s: Seq<char>) -> bool {
    ||| s.len() == 3 && s[0] == '5' && s[1] == '.' && is_digit(s[2])
    ||| s.len() == 5 && s[0] == '5' && s[1] == '.' && s[2] == '1' && '0' <= s[3] <= '5' && 'a'
        <= s[4] <= 'd'
}

/// Whether `grade` is a grade of the scale, written without pluses, minuses or slashes.
pub fn is_valid_grade(grade: &str) -> (valid: bool)
    ensures
        valid == is_yds_grade(grade@),
{
    let len: usize = grade.unicode_len();
    if len == 3 {
        let c0 = grade.get_char(0);
        let c1 = grade.get_char(1);
        let c2 = grade.get_char(2);
        c0 == '5' && c1 == '.' && '0' <= c2 && c2 <= '9'
    } else if len == 5 {
        let c0 = grade.get_char(0);
        let c1 = grade.get_char(1);
        let c2 = grade.get_char(2);
        let c3 = grade.get_char(3);
        let c4 = grade.get_char(4);
        c0 == '5' && c1 == '.' && c2 == '1' && '0' <= c3 && c3 <= '5' && 'a' <= c4 && c4 <= 'd'
    } else {
        false
    }
}

/// A text is a valid grade exactly when it writes a grade of the scale.
pub proof fn law_valid_grades_are_the_scale(s: Seq<char>)
    ensures
        is_yds_grade(s) <==> exists|number: int, letter: Option<char>|
            is_grade_of_scale(number, letter) && s == #[trigger] grade_text(number, letter),
{
    if is_yds_grade(s) {
        if s.len() == 3 {
            let number = s[2] as int - '0' as int;
            assert(is_grade_of_scale(number, None));
            assert(s =~= grade_text(number, None));
        } else {
            let number = 10 + (s[3] as int - '0' as int);
            assert(is_grade_of_scale(number, Some(s[4])));
            assert(s =~= grade_text(number, Some(s[4])));
        }
    }
    if exists|number: int, letter: Option<char>|
        is_grade_of_scale(number, letter) && s == #[trigger] grade_text(number, letter) {
        let (number, letter) = choose|number: int, letter: Option<char>|
            is_grade_of_scale(number, letter) && s == #[trigger] grade_text(number, letter);
        law_scale_grades_are_valid(number, letter);
    }
}

/// Every grade of the scale is valid: `5.0` to `5.9`, and `5.10` to `5.15` with a letter
/// from `a` to `d`.
pub proof fn law_scale_grades_are_valid(number: int, letter: Option<char>)
    requires
        is_grade_of_scale(number, letter),
    ensures
        is_yds_grade(grade_text(number, letter)),
{
    let s = grade_text(number, letter);
    if number < 10 {
        assert(s.len() == 3);
        assert(s[0] == '5' && s[1] == '.' && s[2] == digit_char(number));
    } else {
        assert(s.len() == 5);
        assert(s[0] == '5' && s[1] == '.' && s[2] == '1');
        assert(s[3] == digit_char(number % 10));
        assert(s[4] == letter->Some_0);
    }
}

/// A number from 10 to 15 without its letter is no valid grade.
pub proof fn law_missing_letter_is_invalid(number: int)
    requires
        10 <= number <= 15,
    ensures
        !is_yds_grade(grade_text(number, None)),
{
    let s = grade_text(number, None);
    assert(s.len() == 4);
}

/// A number below 10 followed by a letter is no valid grade.
pub proof fn law_surplus_letter_is_invalid(number: int, letter: char)
    requires
        0 <= number <= 9,
    ensures
        !is_yds_grade(grade_text(number, Some(letter))),
{
    let s = grade_text(number, Some(letter));
    assert(s.len() == 4);
}

/// A text that holds a plus, a minus or a slash anywhere is no valid grade.
pub proof fn law_modifiers_are_invalid(s: Seq<char>, at: int)
    requires
        0 <= at < s.len(),
        s[at] == '+' || s[at] == '-' || s[at] == '/',
    ensures
        !is_yds_grade(s),
{
}

/// The decimal digit `d` as a text of one character.
pub(crate) fn digit_str(d: u32) -> (text: &'static str)
    requires
        d <= 9,
    ensures
        text@ == seq![digit_char(d as int)],
{
    proof {
        reveal_strlit("0");
        reveal_strlit("1");
        reveal_strlit("2");
        reveal_strlit("3");
        reveal_strlit("4");
        reveal_strlit("5");
        reveal_strlit("6");
        reveal_strlit("7");
        reveal_strlit("8");
        reveal_strlit("9");
    }
    let text = if d == 0 {
        "0"
    } else if d == 1 {
        "1"
    } else if d == 2 {
        "2"
    } else if d == 3 {
        "3"
    } else if d == 4 {
        "4"
    } else if d == 5 {
        "5"
    } else if d == 6 {
        "6"
    } else if d == 7 {
        "7"
    } else if d == 8 {
        "8"
    } else {
        "9"
    };
    assert(text@ =~= seq![digit_char(d as int)]);
    text
}

} // verus!
