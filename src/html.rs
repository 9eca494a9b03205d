use vstd::prelude::*;
use soup::{NodeExt, QueryBuilderExt};

verus! {

/// The texts of a list of strings.
pub open spec fn texts(v: Seq<String>) -> Seq<Seq<char>> {
    v.map_values(|s: String| s@)
}

/// The texts of a list of optional strings.
pub open spec fn opt_texts(v: Seq<Option<String>>) -> Seq<Option<Seq<char>>> {
    v.map_values(|o: Option<String>| match o {
        Some(s) => Some(s@),
        None => None,
    })
}

/// Texts of the children of the first element of `html` whose attribute `attr`
/// matches `value`; `None` when no element does.
pub uninterp spec fn children_texts_of_first(
    html: Seq<char>,
    attr: Seq<char>,
    value: Seq<char>,
) -> Option<Seq<Seq<char>>>;

/// Relies on soup's `Soup::new`, `QueryBuilder::attr` / `find` and the node's
/// `children` and `text`: the parse depends on the markup alone.
#[verifier::external_body]
pub(crate) fn first_children_texts(html: &str, attr: &str, value: &str) -> (r: Option<Vec<String>>)
    ensures
        match r {
            Some(v) => children_texts_of_first(html@, attr@, value@) == Some(texts(v@)),
            None => children_texts_of_first(html@, attr@, value@) is None,
        },
{
    let page = soup::Soup::new(html);
    let node = page.attr(attr, value).find();
    node.map(|n| n.children().map(|c| c.text()).collect())
}

/// For each element of `html` with tag `tag` whose attribute `attr` matches
/// `value`, in document order, its attribute `key` if present.
pub uninterp spec fn key_of_matches(
    html: Seq<char>,
    tag: Seq<char>,
    attr: Seq<char>,
    value: Seq<char>,
    key: Seq<char>,
) -> Seq<Option<Seq<char>>>;

/// Relies on soup's `Soup::new`, `QueryBuilder::tag` / `attr` / `find_all` and
/// the node's `get`: the parse depends on the markup alone.
#[verifier::external_body]
pub(crate) fn keys_of_matches(html: &str, tag: &str, attr: &str, value: &str, key: &str) -> (r: Vec<
    Option<String>,
>)
    ensures
        opt_texts(r@) == key_of_matches(html@, tag@, attr@, value@, key@),
{
    let page = soup::Soup::new(html);
    let found = page.tag(tag).attr(attr, value).find_all();
    found.map(|n| n.get(key)).collect()
}

/// For each element of `html` whose attribute `attr` matches `value`, in
/// document order, the attribute `key` of its first child, if both exist.
pub uninterp spec fn first_child_key_of_matches(
    html: Seq<char>,
    attr: Seq<char>,
    value: Seq<char>,
    key: Seq<char>,
) -> Seq<Option<Seq<char>>>;

/// Relies on soup's `Soup::new`, `QueryBuilder::attr` / `find_all` and the
/// node's `children` and `get`: the parse depends on the markup alone.
#[verifier::external_body]
pub(crate) fn first_child_keys(html: &str, attr: &str, value: &str, key: &str) -> (r: Vec<
    Option<String>,
>)
    ensures
        opt_texts(r@) == first_child_key_of_matches(html@, attr@, value@, key@),
{
    let page = soup::Soup::new(html);
    let found = page.attr(attr, value).find_all();
    found.map(|n| n.children().next().and_then(|c| c.get(key))).collect()
}

/// The text of the first element of `html` whose attribute `attr` matches
/// `value`, if there is one.
pub uninterp spec fn text_of_first(html: Seq<char>, attr: Seq<char>, value: Seq<char>) -> Option<
    Seq<char>,
>;

/// Relies on soup's `Soup::new`, `QueryBuilder::attr` / `find` and the node's
/// `text`: the parse depends on the markup alone.
#[verifier::external_body]
pub(crate) fn first_text(html: &str, attr: &str, value: &str) -> (r: Option<String>)
    ensures
        match r {
            Some(s) => text_of_first(html@, attr@, value@) == Some(s@),
            None => text_of_first(html@, attr@, value@) is None,
        },
{
    let page = soup::Soup::new(html);
    page.attr(attr, value).find().map(|n| n.text())
}

/// For the first element of `html` whose attribute `attr` matches `value`, if
/// any, its attribute `key` if present.
pub uninterp spec fn key_of_first(
    html: Seq<char>,
    attr: Seq<char>,
    value: Seq<char>,
    key: Seq<char>,
) -> Option<Option<Seq<char>>>;

/// Relies on soup's `Soup::new`, `QueryBuilder::attr` / `find` and the node's
/// `get`: the parse depends on the markup alone.
#[verifier::external_body]
pub(crate) fn first_key(html: &str, attr: &str, value: &str, key: &str) -> (r: Option<
    Option<String>,
>)
    ensures
        match r {
            Some(Some(s)) => key_of_first(html@, attr@, value@, key@) == Some(Some(s@)),
            Some(None) => key_of_first(html@, attr@, value@, key@) == Some(None::<Seq<char>>),
            None => key_of_first(html@, attr@, value@, key@) is None,
        },
{
    let page = soup::Soup::new(html);
    page.attr(attr, value).find().map(|n| n.get(key))
}

/// The texts of the elements of `html` with tag `tag`, in document order.
pub uninterp spec fn texts_of_tag(html: Seq<char>, tag: Seq<char>) -> Seq<Seq<char>>;

/// Relies on soup's `Soup::new`, `QueryBuilder::tag` / `find_all` and the node's
/// `text`: the parse depends on the markup alone.
#[verifier::external_body]
pub(crate) fn tag_texts(html: &str, tag: &str) -> (r: Vec<String>)
    ensures
        texts(r@) == texts_of_tag(html@, tag@),
{
    let page = soup::Soup::new(html);
    page.tag(tag).find_all().map(|n| n.text()).collect()
}

/// A child node as plain values: its name and the texts of its own children.
pub open spec fn child_view(c: (String, Vec<String>)) -> (Seq<char>, Seq<Seq<char>>) {
    (c.0@, texts(c.1@))
}

/// For the element `index` (from 0, in document order) of `html` with tag
/// `tag`, the children of its grandparent, each as its name and the texts of
/// its own children; `None` when that element or its grandparent is missing.
pub uninterp spec fn grandparent_children(html: Seq<char>, tag: Seq<char>, index: int) -> Option<
    Seq<(Seq<char>, Seq<Seq<char>>)>,
>;

/// Relies on soup's `Soup::new`, `QueryBuilder::tag` / `find_all` and the node's
/// `parent`, `children`, `name` and `text`: the parse depends on the markup alone.
#[verifier::external_body]
pub(crate) fn grandparent_rows(html: &str, tag: &str, index: usize) -> (r: Option<
    Vec<(String, Vec<String>)>,
>)
    ensures
        match r {
            Some(v) => grandparent_children(html@, tag@, index as int) == Some(
                v@.map_values(|c: (String, Vec<String>)| child_view(c)),
            ),
            None => grandparent_children(html@, tag@, index as int) is None,
        },
{
    let page = soup::Soup::new(html);
    let cell = page.tag(tag).find_all().nth(index)?;
    let body = cell.parent()?.parent()?;
    Some(body.children().map(|c| (c.name().to_string(), c.children().map(|d| d.text()).collect())).collect())
}

} // verus!
