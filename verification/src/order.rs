use crate::models::Count;
use crate::table::{
    group, is_crag_list_of, is_report_of, lists_crag, names_crag, row_label, text_precedes,
    Dimension, RouteKey, Rows,
};
use vstd::prelude::*;

verus! {

/// Each text of the sequence comes before all that follow it.
pub open spec fn is_ascending(texts: Seq<Seq<char>>) -> bool {
    forall|i: int, j: int|
        0 <= i < j < texts.len() ==> text_precedes(#[trigger] texts[i], #[trigger] texts[j])
}

/// Every text of `a` is one of `b`.
pub open spec fn all_among(a: Seq<Seq<char>>, b: Seq<Seq<char>>) -> bool {
    forall|i: int| 0 <= i < a.len() ==> b.contains(#[trigger] a[i])
}

/// No text comes before itself.
pub proof fn law_no_text_precedes_itself(a: Seq<char>)
    ensures
        !text_precedes(a, a),
    decreases a.len(),
{
    if a.len() > 0 {
        law_no_text_precedes_itself(a.skip(1));
    }
}

/// What comes before a text comes before all that the text comes before.
pub proof fn law_precedence_is_transitive(a: Seq<char>, b: Seq<char>, c: Seq<char>)
    requires
        text_precedes(a, b),
        text_precedes(b, c),
    ensures
        text_precedes(a, c),
    decreases a.len(),
{
    if a.len() > 0 && a[0] == b[0] && b[0] == c[0] {
        law_precedence_is_transitive(a.skip(1), b.skip(1), c.skip(1));
    }
}

/// Of two different texts one comes before the other.
pub proof fn law_precedence_is_total(a: Seq<char>, b: Seq<char>)
    requires
        a != b,
    ensures
        text_precedes(a, b) || text_precedes(b, a),
    decreases a.len(),
{
    if a.len() == 0 {
        assert(b.len() > 0) by {
            if b.len() == 0 {
                assert(a =~= b);
            }
        }
    } else if b.len() > 0 && a[0] == b[0] {
        assert(a.skip(1) != b.skip(1)) by {
            if a.skip(1) == b.skip(1) {
                assert(a =~= seq![a[0]] + a.skip(1));
                assert(b =~= seq![b[0]] + b.skip(1));
            }
        }
        law_precedence_is_total(a.skip(1), b.skip(1));
    }
}

/// An ascending sequence holds no text twice.
pub proof fn law_ascending_has_no_repeats(texts: Seq<Seq<char>>, i: int, j: int)
    requires
        is_ascending(texts),
        0 <= i < texts.len(),
        0 <= j < texts.len(),
        i != j,
    ensures
        texts[i] != texts[j],
{
    law_no_text_precedes_itself(texts[i]);
    if i < j {
        assert(text_precedes(texts[i], texts[j]));
    } else {
        assert(text_precedes(texts[j], texts[i]));
    }
}

/// Two ascending sequences of the same texts are one sequence.
pub proof fn law_ascending_is_unique(a: Seq<Seq<char>>, b: Seq<Seq<char>>)
    requires
        is_ascending(a),
        is_ascending(b),
        all_among(a, b),
        all_among(b, a),
    ensures
        a == b,
    decreases a.len(),
{
    if a.len() == 0 {
        if b.len() > 0 {
            assert(a.contains(b[0]));
        }
        assert(a =~= b);
    } else {
        assert(b.contains(a[0]));
        let j = choose|j: int| 0 <= j < b.len() && b[j] == a[0];
        assert(a.contains(b[0]));
        let i = choose|i: int| 0 <= i < a.len() && a[i] == b[0];
        if i > 0 && j > 0 {
            law_precedence_is_transitive(a[0], a[i], b[j]);
            law_no_text_precedes_itself(a[0]);
        }
        assert(a[0] == b[0]);
        let rest_a = a.skip(1);
        let rest_b = b.skip(1);
        assert forall|k: int| 0 <= k < rest_a.len() implies rest_b.contains(
            #[trigger] rest_a[k],
        ) by {
            assert(b.contains(a[k + 1]));
            let m = choose|m: int| 0 <= m < b.len() && b[m] == a[k + 1];
            if m == 0 {
                law_no_text_precedes_itself(a[0]);
            }
            assert(rest_b[m - 1] == rest_a[k]);
        }
        assert forall|k: int| 0 <= k < rest_b.len() implies rest_a.contains(
            #[trigger] rest_b[k],
        ) by {
            assert(a.contains(b[k + 1]));
            let m = choose|m: int| 0 <= m < a.len() && a[m] == b[k + 1];
            if m == 0 {
                law_no_text_precedes_itself(b[0]);
            }
            assert(rest_a[m - 1] == rest_b[k]);
        }
        assert forall|p: int, q: int| 0 <= p < q < rest_a.len() implies text_precedes(
            #[trigger] rest_a[p],
            #[trigger] rest_a[q],
        ) by {
            assert(rest_a[p] == a[p + 1] && rest_a[q] == a[q + 1]);
        }
        assert forall|p: int, q: int| 0 <= p < q < rest_b.len() implies text_precedes(
            #[trigger] rest_b[p],
            #[trigger] rest_b[q],
        ) by {
            assert(rest_b[p] == b[p + 1] && rest_b[q] == b[q + 1]);
        }
        law_ascending_is_unique(rest_a, rest_b);
        assert(a =~= seq![a[0]] + rest_a);
        assert(b =~= seq![b[0]] + rest_b);
    }
}

/// The crags of a list, as texts.
pub open spec fn crag_texts(crags: Seq<String>) -> Seq<Seq<char>> {
    Seq::new(crags.len(), |i: int| crags[i]@)
}

/// The groups of a report.
pub open spec fn report_labels(counts: Seq<Count>) -> Seq<Seq<char>> {
    Seq::new(counts.len(), |i: int| counts[i].label())
}

/// The numbers of a report.
pub open spec fn report_numbers(counts: Seq<Count>) -> Seq<nat> {
    Seq::new(counts.len(), |i: int| counts[i].number())
}

proof fn lemma_crags_among(first: Seq<String>, second: Seq<String>, rows: Rows)
    requires
        is_crag_list_of(first, rows),
        is_crag_list_of(second, rows),
    ensures
        all_among(crag_texts(first), crag_texts(second)),
{
    let a = crag_texts(first);
    let b = crag_texts(second);
    assert forall|i: int| 0 <= i < a.len() implies b.contains(#[trigger] a[i]) by {
        assert(names_crag(rows, first[i]@));
        assert(exists|key: RouteKey| #[trigger] rows.contains_key(key) && key.2 == first[i]@) by {
            reveal(names_crag);
        }
        let key = choose|key: RouteKey| #[trigger] rows.contains_key(key) && key.2 == first[i]@;
        assert(lists_crag(second, key.2));
        assert(exists|j: int| 0 <= j < second.len() && (#[trigger] second[j])@ == key.2) by {
            reveal(lists_crag);
        }
        let j = choose|j: int| 0 <= j < second.len() && (#[trigger] second[j])@ == key.2;
        assert(b[j] == a[i]);
    }
}

/// The rows of a store have one list of crags: two lists of them hold the same texts
/// at the same places.
pub proof fn law_crag_list_is_unique(first: Seq<String>, second: Seq<String>, rows: Rows)
    requires
        is_crag_list_of(first, rows),
        is_crag_list_of(second, rows),
    ensures
        crag_texts(first) == crag_texts(second),
{
    let a = crag_texts(first);
    let b = crag_texts(second);
    lemma_crags_among(first, second, rows);
    lemma_crags_among(second, first, rows);
    assert forall|p: int, q: int| 0 <= p < q < a.len() implies text_precedes(
        #[trigger] a[p],
        #[trigger] a[q],
    ) by {
        assert(text_precedes(first[p]@, first[q]@));
    }
    assert forall|p: int, q: int| 0 <= p < q < b.len() implies text_precedes(
        #[trigger] b[p],
        #[trigger] b[q],
    ) by {
        assert(text_precedes(second[p]@, second[q]@));
    }
    law_ascending_is_unique(a, b);
}

proof fn lemma_labels_among(first: Seq<Count>, second: Seq<Count>, rows: Rows, by: Dimension)
    requires
        is_report_of(first, rows, by),
        is_report_of(second, rows, by),
    ensures
        all_among(report_labels(first), report_labels(second)),
{
    let a = report_labels(first);
    let b = report_labels(second);
    assert forall|i: int| 0 <= i < a.len() implies b.contains(#[trigger] a[i]) by {
        let members = group(rows, by, first[i].label());
        rows.dom().lemma_len_filter(
            |key: RouteKey| row_label(by, key, rows[key]) == first[i].label(),
        );
        assert(first[i].number() >= 1);
        assert(members.len() != 0);
        vstd::set::axiom_set_choose_len(members);
        let key = members.choose();
        assert(rows.contains_key(key));
        let j = choose|j: int|
            0 <= j < second.len() && (#[trigger] second[j]).label() == row_label(
                by,
                key,
                rows[key],
            );
        assert(b[j] == a[i]);
    }
}

/// The rows of a store have one report by each dimension: two reports hold the same
/// groups with the same numbers at the same places.
pub proof fn law_report_is_unique(first: Seq<Count>, second: Seq<Count>, rows: Rows, by: Dimension)
    requires
        is_report_of(first, rows, by),
        is_report_of(second, rows, by),
    ensures
        report_labels(first) == report_labels(second),
        report_numbers(first) == report_numbers(second),
{
    let a = report_labels(first);
    let b = report_labels(second);
    lemma_labels_among(first, second, rows, by);
    lemma_labels_among(second, first, rows, by);
    assert forall|p: int, q: int| 0 <= p < q < a.len() implies text_precedes(
        #[trigger] a[p],
        #[trigger] a[q],
    ) by {
        assert(text_precedes(first[p].label(), first[q].label()));
    }
    assert forall|p: int, q: int| 0 <= p < q < b.len() implies text_precedes(
        #[trigger] b[p],
        #[trigger] b[q],
    ) by {
        assert(text_precedes(second[p].label(), second[q].label()));
    }
    law_ascending_is_unique(a, b);
    assert forall|i: int| 0 <= i < first.len() implies report_numbers(first)[i] == report_numbers(
        second,
    )[i] by {
        assert(a[i] == b[i]);
        assert(first[i].label() == second[i].label());
    }
    assert(report_numbers(first) =~= report_numbers(second));
}

} // verus!
