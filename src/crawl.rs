use vstd::prelude::*;
use crate::html::texts;
use crate::model::{ExtractionError, Houseplant};

verus! {

/// The addresses of every category that gave any, one category after another.
pub open spec fn flattened(results: Seq<Option<Seq<Seq<char>>>>) -> Seq<Seq<char>>
    decreases results.len(),
{
    if results.len() == 0 {
        Seq::empty()
    } else {
        match results.last() {
            Some(v) => flattened(results.drop_last()) + v,
            None => flattened(results.drop_last()),
        }
    }
}

/// The per-category results as plain values.
pub open spec fn category_results(results: Seq<Option<Vec<String>>>) -> Seq<Option<Seq<Seq<char>>>> {
    results.map_values(|o: Option<Vec<String>>| match o {
        Some(v) => Some(texts(v@)),
        None => None,
    })
}

/// `out` holds each address of `all` exactly once, and nothing else.
pub open spec fn deduplicated(all: Seq<Seq<char>>, out: Seq<Seq<char>>) -> bool {
    &&& out.no_duplicates()
    &&& forall|u: Seq<char>| out.contains(u) <==> all.contains(u)
}

/// Joins the addresses of all categories into one list; a category that gave
/// nothing adds nothing.
pub fn flatten_urls(results: &Vec<Option<Vec<String>>>) -> (r: Vec<String>)
    ensures
        texts(r@) == flattened(category_results(results@)),
{
    let ghost c = category_results(results@);
    let mut out: Vec<String> = Vec::new();
    let mut i: usize = 0;
    assert(c.take(0) =~= Seq::<Option<Seq<Seq<char>>>>::empty());
    while i < results.len()
        invariant
            c == category_results(results@),
            0 <= i <= results@.len(),
            texts(out@) == flattened(c.take(i as int)),
        decreases results@.len() - i,
    {
        assert(c.take(i + 1).drop_last() =~= c.take(i as int));
        match &results[i] {
            Some(v) => {
                let ghost start = texts(out@);
                let mut j: usize = 0;
                while j < v.len()
                    invariant
                        0 <= j <= v@.len(),
                        texts(out@) == start + texts(v@).take(j as int),
                    decreases v@.len() - j,
                {
                    let ghost before = out@;
                    out.push(v[j].clone());
                    assert(texts(out@) =~= texts(before).push(v@[j as int]@));
                    assert(texts(v@).take(j + 1) =~= texts(v@).take(j as int).push(v@[j as int]@));
                    j = j + 1;
                }
                assert(texts(v@).take(v@.len() as int) =~= texts(v@));
            },
            None => {},
        }
        i = i + 1;
    }
    assert(c.take(results@.len() as int) =~= c);
    out
}

/// Whether `v` holds a string equal to `s`.
pub fn holds(v: &Vec<String>, s: &String) -> (r: bool)
    ensures
        r == texts(v@).contains(s@),
{
    let mut i: usize = 0;
    while i < v.len()
        invariant
            0 <= i <= v@.len(),
            forall|k: int| 0 <= k < i ==> (#[trigger] v@[k])@ != s@,
        decreases v@.len() - i,
    {
        if v[i] == *s {
            assert(texts(v@)[i as int] == s@);
            return true;
        }
        i = i + 1;
    }
    assert(!texts(v@).contains(s@)) by {
        if texts(v@).contains(s@) {
            let k = choose|k: int| 0 <= k < texts(v@).len() && texts(v@)[k] == s@;
            assert(v@[k]@ == s@);
        }
    }
    false
}

/// Drops repeated addresses, keeping the first of each.
pub fn dedup_urls(urls: &Vec<String>) -> (r: Vec<String>)
    ensures
        deduplicated(texts(urls@), texts(r@)),
{
    let ghost all = texts(urls@);
    let mut out: Vec<String> = Vec::new();
    let mut i: usize = 0;
    while i < urls.len()
        invariant
            all == texts(urls@),
            0 <= i <= urls@.len(),
            texts(out@).no_duplicates(),
            forall|u: Seq<char>| texts(out@).contains(u) <==> all.take(i as int).contains(u),
        decreases urls@.len() - i,
    {
        let ghost before = texts(out@);
        assert(all.take(i + 1) =~= all.take(i as int).push(all[i as int]));
        if !holds(&out, &urls[i]) {
            out.push(urls[i].clone());
            assert(texts(out@) =~= before.push(all[i as int]));
        }
        assert forall|u: Seq<char>| texts(out@).contains(u) <==> all.take(i + 1).contains(u) by {
            let t = all.take(i + 1);
            let p = all.take(i as int);
            let o = texts(out@);
            if o.contains(u) {
                if u == all[i as int] {
                    assert(t[i as int] == u);
                } else {
                    let k = choose|k: int| 0 <= k < o.len() && o[k] == u;
                    assert(k < before.len() && before[k] == u);
                    assert(before.contains(u));
                    let m = choose|m: int| 0 <= m < p.len() && p[m] == u;
                    assert(t[m] == u);
                }
            }
            if t.contains(u) {
                let k = choose|k: int| 0 <= k < t.len() && t[k] == u;
                if k < i {
                    assert(p[k] == u);
                    assert(before.contains(u));
                    let m = choose|m: int| 0 <= m < before.len() && before[m] == u;
                    assert(o[m] == u);
                } else if before.contains(u) {
                    let m = choose|m: int| 0 <= m < before.len() && before[m] == u;
                    assert(o[m] == u);
                } else {
                    assert(o[before.len() as int] == u);
                }
            }
        }
        i = i + 1;
    }
    assert(all.take(urls@.len() as int) =~= all);
    out
}

/// The detail-page addresses to extract: those of every category, each once.
pub fn merge_detail_urls(results: &Vec<Option<Vec<String>>>) -> (r: Vec<String>)
    ensures
        deduplicated(flattened(category_results(results@)), texts(r@)),
{
    let all = flatten_urls(results);
    dedup_urls(&all)
}

proof fn lemma_flattened_holds(results: Seq<Option<Seq<Seq<char>>>>, a: int, x: Seq<char>)
    requires
        0 <= a < results.len(),
        results[a] is Some,
        results[a]->Some_0.contains(x),
    ensures
        flattened(results).contains(x),
    decreases results.len(),
{
    let prev = results.drop_last();
    if a == results.len() - 1 {
        let v = results[a]->Some_0;
        let k = choose|k: int| 0 <= k < v.len() && v[k] == x;
        assert((flattened(prev) + v)[flattened(prev).len() + k] == x);
    } else {
        assert(prev[a] == results[a]);
        lemma_flattened_holds(prev, a, x);
        let f = flattened(prev);
        let k = choose|k: int| 0 <= k < f.len() && f[k] == x;
        match results.last() {
            Some(v) => {
                assert((f + v)[k] == x);
            },
            None => {},
        }
    }
}

/// An address that two categories both list is extracted exactly once: it
/// stands at one position, and only one, of the merged list.
pub proof fn lemma_shared_url_once(
    results: Seq<Option<Seq<Seq<char>>>>,
    out: Seq<Seq<char>>,
    a: int,
    b: int,
    x: Seq<char>,
)
    requires
        deduplicated(flattened(results), out),
        0 <= a < results.len(),
        0 <= b < results.len(),
        results[a] is Some,
        results[b] is Some,
        results[a]->Some_0.contains(x),
        results[b]->Some_0.contains(x),
    ensures
        exists|i: int| 0 <= i < out.len() && out[i] == x,
        forall|i: int, j: int|
            0 <= i < out.len() && 0 <= j < out.len() && out[i] == x && out[j] == x ==> i == j,
{
    lemma_flattened_holds(results, a, x);
    assert(out.contains(x));
}

/// The merged list is as long as the number of distinct addresses that the
/// categories list together.
pub proof fn lemma_merged_count_is_distinct_count(
    results: Seq<Option<Seq<Seq<char>>>>,
    out: Seq<Seq<char>>,
)
    requires
        deduplicated(flattened(results), out),
    ensures
        out.len() == flattened(results).to_set().len(),
{
    assert(out.to_set() =~= flattened(results).to_set());
    out.unique_seq_to_set();
}

/// The records that were extracted, in order; failures are left out.
pub open spec fn successes(results: Seq<Result<Houseplant, ExtractionError>>) -> Seq<Houseplant>
    decreases results.len(),
{
    if results.len() == 0 {
        Seq::empty()
    } else {
        match results.last() {
            Ok(p) => successes(results.drop_last()).push(p),
            Err(_) => successes(results.drop_last()),
        }
    }
}

/// How many of the results are failures.
pub open spec fn failures(results: Seq<Result<Houseplant, ExtractionError>>) -> nat
    decreases results.len(),
{
    if results.len() == 0 {
        0
    } else {
        failures(results.drop_last()) + if results.last() is Err { 1nat } else { 0nat }
    }
}

/// Every result is either a record that is kept or a failure that is counted.
pub proof fn lemma_each_failure_drops_one(results: Seq<Result<Houseplant, ExtractionError>>)
    ensures
        successes(results).len() + failures(results) == results.len(),
    decreases results.len(),
{
    if results.len() > 0 {
        lemma_each_failure_drops_one(results.drop_last());
    }
}

/// Keeps the extracted records, in order, and drops the failures.
pub fn collect_records(results: Vec<Result<Houseplant, ExtractionError>>) -> (r: Vec<Houseplant>)
    ensures
        r@ == successes(results@),
        r@.len() + failures(results@) == results@.len(),
{
    let ghost all = results@;
    let mut rest = results;
    let mut out: Vec<Houseplant> = Vec::new();
    let n = rest.len();
    let mut k: usize = 0;
    assert(all.take(0) =~= Seq::<Result<Houseplant, ExtractionError>>::empty());
    while rest.len() > 0
        invariant
            n == all.len(),
            k + rest@.len() == all.len(),
            rest@ == all.skip(k as int),
            out@ == successes(all.take(k as int)),
        decreases rest.len(),
    {
        let item = rest.remove(0);
        proof {
            assert(all.take(k + 1).drop_last() =~= all.take(k as int));
            assert(all.take(k + 1).last() == item);
            assert(rest@ =~= all.skip(k + 1));
        }
        match item {
            Ok(p) => out.push(p),
            Err(_) => {},
        }
        k = k + 1;
    }
    assert(all.take(k as int) =~= all);
    proof {
        lemma_each_failure_drops_one(all);
    }
    out
}

} // verus!
