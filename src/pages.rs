use vstd::prelude::*;
use crate::html::{children_texts_of_first, first_child_key_of_matches, first_child_keys,
    first_children_texts, key_of_matches, keys_of_matches, opt_texts, texts};
use crate::text::{decimal, push_decimal};

verus! {

/// A decimal digit.
pub open spec fn is_digit(c: char) -> bool {
    '0' <= c && c <= '9'
}

/// The value of a run of decimal digits.
pub open spec fn digits_value(s: Seq<char>) -> int
    decreases s.len(),
{
    if s.len() == 0 {
        0
    } else {
        digits_value(s.drop_last()) * 10 + (s.last() as u32 - '0' as u32)
    }
}

/// The value that a run of decimal digits gives, if it is non-empty and fits
/// in `usize`.
pub open spec fn count_of_digits(s: Seq<char>) -> Option<usize> {
    if 0 < s.len() && (forall|i: int| 0 <= i < s.len() ==> is_digit(#[trigger] s[i]))
        && digits_value(s) <= usize::MAX {
        Some(digits_value(s) as usize)
    } else {
        None
    }
}

proof fn lemma_digits_grow(s: Seq<char>, i: int, j: int)
    requires
        0 <= i <= j <= s.len(),
        forall|k: int| 0 <= k < s.len() ==> is_digit(#[trigger] s[k]),
    ensures
        digits_value(s.take(j)) >= digits_value(s.take(i)),
    decreases j - i,
{
    if i < j {
        lemma_digits_grow(s, i, j - 1);
        assert(s.take(j).drop_last() =~= s.take(j - 1));
        assert(digits_value(s.take(j - 1)) >= 0) by {
            lemma_digits_nonneg(s.take(j - 1));
        }
    }
}

proof fn lemma_digits_nonneg(s: Seq<char>)
    requires
        forall|k: int| 0 <= k < s.len() ==> is_digit(#[trigger] s[k]),
    ensures
        digits_value(s) >= 0,
    decreases s.len(),
{
    if s.len() > 0 {
        let d = s.drop_last();
        assert forall|k: int| 0 <= k < d.len() implies is_digit(#[trigger] d[k]) by {
            assert(d[k] == s[k]);
        }
        lemma_digits_nonneg(d);
        assert(is_digit(s[s.len() - 1]));
    }
}

/// The digits of a count, after an optional leading plus sign.
pub open spec fn unsigned_part(s: Seq<char>) -> Seq<char> {
    if s.len() > 0 && s[0] == '+' {
        s.drop_first()
    } else {
        s
    }
}

/// The count that a text gives: an optional `+`, then a non-empty run of
/// decimal digits whose value fits in `usize`.
pub open spec fn count_of_text(s: Seq<char>) -> Option<usize> {
    count_of_digits(unsigned_part(s))
}

/// Reads a count written as an optional `+` and decimal digits.
pub fn parse_count(s: &str) -> (r: Option<usize>)
    ensures
        r == count_of_text(s@),
{
    let n = s.unicode_len();
    if n > 0 && s.get_char(0) == '+' {
        let digits = s.substring_char(1, n);
        assert(digits@ =~= s@.drop_first());
        parse_digits(digits)
    } else {
        parse_digits(s)
    }
}

/// Reads a count written in decimal digits alone.
fn parse_digits(s: &str) -> (r: Option<usize>)
    ensures
        r == count_of_digits(s@),
{
    let n = s.unicode_len();
    if n == 0 {
        return None;
    }
    let mut i: usize = 0;
    while i < n
        invariant
            n == s@.len(),
            0 <= i <= n,
            forall|k: int| 0 <= k < i ==> is_digit(#[trigger] s@[k]),
        decreases n - i,
    {
        let c = s.get_char(i);
        if !('0' <= c && c <= '9') {
            return None;
        }
        i = i + 1;
    }
    let mut v: usize = 0;
    let mut j: usize = 0;
    assert(s@.take(0) =~= Seq::<char>::empty());
    while j < n
        invariant
            n == s@.len(),
            0 <= j <= n,
            forall|k: int| 0 <= k < n ==> is_digit(#[trigger] s@[k]),
            v as int == digits_value(s@.take(j as int)),
        decreases n - j,
    {
        let c = s.get_char(j);
        let d = (c as u32 - '0' as u32) as usize;
        assert(s@.take(j + 1).drop_last() =~= s@.take(j as int));
        assert(s@.take(j + 1).last() == c);
        match v.checked_mul(10) {
            Some(t) => match t.checked_add(d) {
                Some(w) => {
                    v = w;
                },
                None => {
                    proof {
                        lemma_digits_grow(s@, j + 1, n as int);
                        assert(s@.take(n as int) =~= s@);
                    }
                    return None;
                },
            },
            None => {
                proof {
                    lemma_digits_nonneg(s@.take(j as int));
                    lemma_digits_grow(s@, j + 1, n as int);
                    assert(s@.take(n as int) =~= s@);
                }
                return None;
            },
        }
        j = j + 1;
    }
    assert(s@.take(n as int) =~= s@);
    Some(v)
}

/// How many listing pages a category has, from the texts of its navigation
/// element's children: one page when there is no navigation element, else the
/// count written in the third child from the end.
pub open spec fn page_count_of(nav: Option<Seq<Seq<char>>>) -> Option<usize> {
    match nav {
        None => Some(1),
        Some(c) => if c.len() >= 3 {
            count_of_text(c[c.len() - 3])
        } else {
            None
        },
    }
}

/// The page count that a navigation element gives; `None` when it holds no
/// readable count.
pub fn page_count_from_nav(nav: Option<Vec<String>>) -> (r: Option<usize>)
    ensures
        r == page_count_of(
            match nav {
                Some(v) => Some(texts(v@)),
                None => None,
            },
        ),
{
    match nav {
        None => Some(1),
        Some(children) => {
            let k = children.len();
            if k < 3 {
                None
            } else {
                parse_count(children[k - 3].as_str())
            }
        },
    }
}

/// The page count of a category's first listing page.
pub fn page_count(html: &str) -> (r: Option<usize>)
    ensures
        r == page_count_of(children_texts_of_first(html@, "class"@, "nav-links"@)),
{
    page_count_from_nav(first_children_texts(html, "class", "nav-links"))
}

/// The address of listing page `n` of a category.
pub open spec fn page_url(category: Seq<char>, n: nat) -> Seq<char> {
    category + "/page/"@ + decimal(n)
}

/// The addresses of listing pages 1 to `count` of a category, in order.
pub fn page_urls(category: &str, count: usize) -> (r: Vec<String>)
    ensures
        r@.len() == count,
        forall|i: int| 0 <= i < count ==> (#[trigger] r@[i])@ == page_url(category@, (i + 1) as nat),
{
    let mut out: Vec<String> = Vec::new();
    let mut i: usize = 0;
    while i < count
        invariant
            0 <= i <= count,
            out@.len() == i,
            forall|k: int| 0 <= k < i ==> (#[trigger] out@[k])@ == page_url(category@, (k + 1) as nat),
        decreases count - i,
    {
        let mut url = category.to_string();
        url.append("/page/");
        push_decimal((i + 1) as u128, &mut url);
        out.push(url);
        i = i + 1;
    }
    out
}

/// The listing pages of a category, from its address and its first page;
/// `None` when the first page holds no readable page count.
pub fn category_pages(category: &str, first_page: &str) -> (r: Option<Vec<String>>)
    ensures
        match page_count_of(children_texts_of_first(first_page@, "class"@, "nav-links"@)) {
            Some(n) => r is Some && r->Some_0@.len() == n && forall|i: int|
                0 <= i < n ==> (#[trigger] r->Some_0@[i])@ == page_url(category@, (i + 1) as nat),
            None => r is None,
        },
{
    match page_count(first_page) {
        Some(n) => {
            let v = page_urls(category, n);
            Some(v)
        },
        None => None,
    }
}

/// The values that are present, in order.
pub open spec fn present(v: Seq<Option<Seq<char>>>) -> Seq<Seq<char>>
    decreases v.len(),
{
    if v.len() == 0 {
        Seq::empty()
    } else {
        match v.last() {
            Some(s) => present(v.drop_last()).push(s),
            None => present(v.drop_last()),
        }
    }
}

/// Keeps the values that are present, in order.
pub fn keep_present(v: Vec<Option<String>>) -> (r: Vec<String>)
    ensures
        texts(r@) == present(opt_texts(v@)),
{
    let mut out: Vec<String> = Vec::new();
    let mut i: usize = 0;
    assert(opt_texts(v@).take(0) =~= Seq::<Option<Seq<char>>>::empty());
    while i < v.len()
        invariant
            0 <= i <= v@.len(),
            texts(out@) == present(opt_texts(v@).take(i as int)),
        decreases v@.len() - i,
    {
        let ghost o = opt_texts(v@);
        assert(o.take(i + 1).drop_last() =~= o.take(i as int));
        match &v[i] {
            Some(s) => {
                let ghost before = out@;
                out.push(s.clone());
                assert(texts(out@) =~= texts(before).push(s@));
            },
            None => {},
        }
        i = i + 1;
    }
    assert(opt_texts(v@).take(v@.len() as int) =~= opt_texts(v@));
    out
}

/// The category addresses of the front page: the link of the first child of
/// each element of class `cat-item`, where there is one.
pub fn category_urls(html: &str) -> (r: Vec<String>)
    ensures
        texts(r@) == present(first_child_key_of_matches(html@, "class"@, "cat-item"@, "href"@)),
{
    keep_present(first_child_keys(html, "class", "cat-item", "href"))
}

/// The detail-page addresses of a listing page: the link of each anchor marked
/// with the `url` item property, where there is one.
pub fn detail_urls(html: &str) -> (r: Vec<String>)
    ensures
        texts(r@) == present(key_of_matches(html@, "a"@, "itemprop"@, "url"@, "href"@)),
{
    keep_present(keys_of_matches(html, "a", "itemprop", "url", "href"))
}

} // verus!
