use vstd::prelude::*;
use crate::model::{Attribute, Attributes, Slot, empty_attributes, put_slot, slot_value};
use crate::text::{contains_seq, is_keyword, lower_of, lowercase, regex_set_finds};

verus! {

/// One entry of a classification table: rows whose lower-cased label holds
/// `keyword` go to `slot`.
pub struct Rule {
    pub slot: Slot,
    pub keyword: String,
}

/// What the table says, as plain values.
pub open spec fn rule_views(rules: Seq<Rule>) -> Seq<(Slot, Seq<char>)> {
    rules.map_values(|r: Rule| (r.slot, r.keyword@))
}

/// The table is short and every keyword of it is a plain word.
pub open spec fn table_wf(t: Seq<(Slot, Seq<char>)>) -> bool {
    &&& t.len() <= 64
    &&& forall|i: int| 0 <= i < t.len() ==> is_keyword(#[trigger] t[i].1)
}

/// The slot of the first entry whose keyword occurs in `lower`; the catch-all
/// `Features` when none does.
pub open spec fn first_match(t: Seq<(Slot, Seq<char>)>, lower: Seq<char>) -> Slot
    decreases t.len(),
{
    if t.len() == 0 {
        Slot::Features
    } else if contains_seq(lower, t[0].1) {
        t[0].0
    } else {
        first_match(t.drop_first(), lower)
    }
}

/// The catalog's table, in priority order.
pub open spec fn catalog_table() -> Seq<(Slot, Seq<char>)> {
    seq![
        (Slot::Temperature, "температ"@),
        (Slot::Humidity, "влажн"@),
        (Slot::Illumination, "освещен"@),
        (Slot::Watering, "полив"@),
        (Slot::Soil, "грунт"@),
        (Slot::Fertilizer, "подкорм"@),
        (Slot::Fertilizer, "удобрен"@),
        (Slot::Transplant, "пересад"@),
        (Slot::Propagation, "размнож"@),
        (Slot::Features, "особен"@),
    ]
}

/// The slot that a row with this label goes to.
pub open spec fn slot_of_label(t: Seq<(Slot, Seq<char>)>, label: Seq<char>) -> Slot {
    first_match(t, lower_of(label))
}

/// The attributes that rows give, each row in turn written to its slot.
pub open spec fn classified(t: Seq<(Slot, Seq<char>)>, rows: Seq<Attribute>) -> Attributes
    decreases rows.len(),
{
    if rows.len() == 0 {
        empty_attributes()
    } else {
        put_slot(
            classified(t, rows.drop_last()),
            slot_of_label(t, rows.last().parameter@),
            rows.last(),
        )
    }
}

fn rule(slot: Slot, keyword: &str) -> (r: Rule)
    ensures
        r.slot == slot,
        r.keyword@ == keyword@,
{
    Rule { slot, keyword: keyword.to_string() }
}

/// The catalog's classification table.
pub fn catalog_rules() -> (r: Vec<Rule>)
    ensures
        rule_views(r@) == catalog_table(),
        table_wf(rule_views(r@)),
{
    let r = vec![
        rule(Slot::Temperature, "температ"),
        rule(Slot::Humidity, "влажн"),
        rule(Slot::Illumination, "освещен"),
        rule(Slot::Watering, "полив"),
        rule(Slot::Soil, "грунт"),
        rule(Slot::Fertilizer, "подкорм"),
        rule(Slot::Fertilizer, "удобрен"),
        rule(Slot::Transplant, "пересад"),
        rule(Slot::Propagation, "размнож"),
        rule(Slot::Features, "особен"),
    ];
    assert(rule_views(r@) =~= catalog_table());
    proof {
        reveal_strlit("температ");
        reveal_strlit("влажн");
        reveal_strlit("освещен");
        reveal_strlit("полив");
        reveal_strlit("грунт");
        reveal_strlit("подкорм");
        reveal_strlit("удобрен");
        reveal_strlit("пересад");
        reveal_strlit("размнож");
        reveal_strlit("особен");
    }
    r
}

/// `kws` lists the keywords of `rules`, in order.
pub open spec fn keywords_match(rules: Seq<Rule>, kws: Seq<String>) -> bool {
    &&& kws.len() == rules.len()
    &&& forall|i: int| 0 <= i < kws.len() ==> (#[trigger] kws[i])@ == rules[i].keyword@
}

fn keywords_of(rules: &Vec<Rule>) -> (r: Vec<String>)
    ensures
        keywords_match(rules@, r@),
{
    let mut out: Vec<String> = Vec::new();
    let mut i: usize = 0;
    while i < rules.len()
        invariant
            0 <= i <= rules@.len(),
            out@.len() == i,
            forall|k: int| 0 <= k < i ==> (#[trigger] out@[k])@ == rules@[k].keyword@,
        decreases rules@.len() - i,
    {
        out.push(rules[i].keyword.clone());
        i = i + 1;
    }
    out
}

fn slot_with_keywords(rules: &Vec<Rule>, kws: &Vec<String>, lower: &str) -> (r: Slot)
    requires
        table_wf(rule_views(rules@)),
        keywords_match(rules@, kws@),
    ensures
        r == first_match(rule_views(rules@), lower@),
{
    let ghost t = rule_views(rules@);
    assert forall|i: int| 0 <= i < kws@.len() implies is_keyword(#[trigger] kws@[i]@) by {
        assert(t[i].1 == rules@[i].keyword@);
    }
    let hits = match regex_set_finds(kws, lower) {
        Some(h) => h,
        None => {
            return Slot::Features;
        },
    };
    let mut i: usize = 0;
    assert(t.subrange(0, t.len() as int) =~= t);
    while i < rules.len()
        invariant
            t == rule_views(rules@),
            keywords_match(rules@, kws@),
            hits@.len() == rules@.len(),
            forall|k: int| 0 <= k < hits@.len() ==> #[trigger] hits@[k] == contains_seq(lower@, kws@[k]@),
            0 <= i <= rules.len(),
            first_match(t, lower@) == first_match(t.subrange(i as int, t.len() as int), lower@),
        decreases rules.len() - i,
    {
        let ghost rest = t.subrange(i as int, t.len() as int);
        assert(rest[0] == t[i as int]);
        assert(rest.drop_first() =~= t.subrange(i + 1, t.len() as int));
        assert(hits@[i as int] == contains_seq(lower@, t[i as int].1));
        if hits[i] {
            return rules[i].slot;
        }
        i = i + 1;
    }
    Slot::Features
}

/// The slot for an already lower-cased label: the first rule whose keyword it
/// holds, else `Features`.
pub fn classify_lowered(rules: &Vec<Rule>, lower: &str) -> (r: Slot)
    requires
        table_wf(rule_views(rules@)),
    ensures
        r == first_match(rule_views(rules@), lower@),
{
    let kws = keywords_of(rules);
    slot_with_keywords(rules, &kws, lower)
}

/// The slot for a label as written on the page.
pub fn classify_label(rules: &Vec<Rule>, label: &str) -> (r: Slot)
    requires
        table_wf(rule_views(rules@)),
    ensures
        r == slot_of_label(rule_views(rules@), label@),
{
    let lower = lowercase(label);
    classify_lowered(rules, lower.as_str())
}

/// Sorts table rows into attribute slots under `rules`: each row goes to its
/// label's slot, a later row replacing an earlier one there.
pub fn parse_attributes_with(rules: &Vec<Rule>, list: Vec<Attribute>) -> (r: Attributes)
    requires
        table_wf(rule_views(rules@)),
    ensures
        r == classified(rule_views(rules@), list@),
{
    let ghost t = rule_views(rules@);
    let kws = keywords_of(rules);
    let ghost all = list@;
    let mut rest = list;
    let mut attrs = Attributes::empty();
    let mut k: usize = 0;
    let n = rest.len();
    assert(all.take(0) =~= Seq::<Attribute>::empty());
    while rest.len() > 0
        invariant
            t == rule_views(rules@),
            table_wf(t),
            keywords_match(rules@, kws@),
            k <= all.len(),
            k + rest@.len() == all.len(),
            n == all.len(),
            rest@ == all.skip(k as int),
            attrs == classified(t, all.take(k as int)),
        decreases rest.len(),
    {
        let item = rest.remove(0);
        let lower = lowercase(item.parameter.as_str());
        let slot = slot_with_keywords(rules, &kws, lower.as_str());
        attrs.set(slot, item);
        proof {
            assert(all.take(k + 1).drop_last() =~= all.take(k as int));
            assert(all.take(k + 1).last() == item);
            assert(rest@ =~= all.skip(k + 1));
        }
        k = k + 1;
    }
    assert(all.take(k as int) =~= all);
    attrs
}

/// Sorts table rows into attribute slots under the catalog's table.
pub fn parse_attributes(list: Vec<Attribute>) -> (r: Attributes)
    ensures
        r == classified(catalog_table(), list@),
{
    let rules = catalog_rules();
    parse_attributes_with(&rules, list)
}

/// A label holding the keyword of entry `i`, and of no earlier entry, goes to
/// entry `i`'s slot.
pub proof fn lemma_first_keyword_decides(t: Seq<(Slot, Seq<char>)>, lower: Seq<char>, i: int)
    requires
        0 <= i < t.len(),
        contains_seq(lower, t[i].1),
        forall|j: int| 0 <= j < i ==> !contains_seq(lower, #[trigger] t[j].1),
    ensures
        first_match(t, lower) == t[i].0,
    decreases i,
{
    if i > 0 {
        assert(!contains_seq(lower, t[0].1));
        let d = t.drop_first();
        assert forall|j: int| 0 <= j < i - 1 implies !contains_seq(lower, #[trigger] d[j].1) by {
            assert(d[j] == t[j + 1]);
        }
        lemma_first_keyword_decides(d, lower, i - 1);
    }
}

/// A label holding none of the keywords goes to the catch-all `Features` slot.
pub proof fn lemma_unmatched_goes_to_features(t: Seq<(Slot, Seq<char>)>, lower: Seq<char>)
    requires
        forall|j: int| 0 <= j < t.len() ==> !contains_seq(lower, #[trigger] t[j].1),
    ensures
        first_match(t, lower) == Slot::Features,
    decreases t.len(),
{
    if t.len() > 0 {
        assert(!contains_seq(lower, t[0].1));
        let d = t.drop_first();
        assert forall|j: int| 0 <= j < d.len() implies !contains_seq(lower, #[trigger] d[j].1) by {
            assert(d[j] == t[j + 1]);
        }
        lemma_unmatched_goes_to_features(d, lower);
    }
}

/// A single row fills exactly its label's slot and leaves the other eight empty.
pub proof fn lemma_single_row(t: Seq<(Slot, Seq<char>)>, row: Attribute)
    ensures
        forall|s: Slot|
            slot_value(#[trigger] classified(t, seq![row]), s) == if s == slot_of_label(
                t,
                row.parameter@,
            ) {
                Some(row)
            } else {
                None
            },
{
    let rows = seq![row];
    assert(rows.drop_last() =~= Seq::<Attribute>::empty());
    assert(rows.last() == row);
    assert(classified(t, rows.drop_last()) == empty_attributes());
    let a = put_slot(empty_attributes(), slot_of_label(t, row.parameter@), row);
    assert(classified(t, rows) == a);
    assert forall|s: Slot|
        slot_value(#[trigger] classified(t, rows), s) == if s == slot_of_label(t, row.parameter@) {
            Some(row)
        } else {
            None
        } by {
        match s {
            Slot::Temperature => {},
            Slot::Humidity => {},
            Slot::Illumination => {},
            Slot::Watering => {},
            Slot::Soil => {},
            Slot::Fertilizer => {},
            Slot::Transplant => {},
            Slot::Propagation => {},
            Slot::Features => {},
        }
    }
}

/// A row whose lower-cased label holds the keyword of entry `i`, and of no
/// earlier entry, fills entry `i`'s slot and leaves every other slot empty.
pub proof fn lemma_recognized_label_fills_its_slot(t: Seq<(Slot, Seq<char>)>, row: Attribute, i: int)
    requires
        0 <= i < t.len(),
        contains_seq(lower_of(row.parameter@), t[i].1),
        forall|j: int| 0 <= j < i ==> !contains_seq(lower_of(row.parameter@), #[trigger] t[j].1),
    ensures
        forall|s: Slot|
            slot_value(#[trigger] classified(t, seq![row]), s) == if s == t[i].0 {
                Some(row)
            } else {
                None
            },
{
    lemma_first_keyword_decides(t, lower_of(row.parameter@), i);
    lemma_single_row(t, row);
}

/// A row whose lower-cased label holds no keyword fills `Features` and leaves
/// every other slot empty.
pub proof fn lemma_unrecognized_label_fills_features(t: Seq<(Slot, Seq<char>)>, row: Attribute)
    requires
        forall|j: int| 0 <= j < t.len() ==> !contains_seq(lower_of(row.parameter@), #[trigger] t[j].1),
    ensures
        forall|s: Slot|
            slot_value(#[trigger] classified(t, seq![row]), s) == if s == Slot::Features {
                Some(row)
            } else {
                None
            },
{
    lemma_unmatched_goes_to_features(t, lower_of(row.parameter@));
    lemma_single_row(t, row);
}

/// The row that a slot ends up holding is the last row whose label goes there:
/// a later row with the same keyword replaces an earlier one.
pub proof fn lemma_last_write_wins(t: Seq<(Slot, Seq<char>)>, rows: Seq<Attribute>, j: int)
    requires
        0 <= j < rows.len(),
        forall|k: int|
            j < k < rows.len() ==> slot_of_label(t, (#[trigger] rows[k]).parameter@)
                != slot_of_label(t, rows[j].parameter@),
    ensures
        slot_value(classified(t, rows), slot_of_label(t, rows[j].parameter@)) == Some(rows[j]),
    decreases rows.len(),
{
    let s = slot_of_label(t, rows[j].parameter@);
    let prev = rows.drop_last();
    if j < rows.len() - 1 {
        assert forall|k: int| j < k < prev.len() implies slot_of_label(
            t,
            (#[trigger] prev[k]).parameter@,
        ) != s by {
            assert(prev[k] == rows[k]);
        }
        assert(prev[j] == rows[j]);
        lemma_last_write_wins(t, prev, j);
        assert(slot_of_label(t, rows[rows.len() - 1].parameter@) != s);
    }
}

} // verus!
