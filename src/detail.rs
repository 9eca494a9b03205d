use vstd::prelude::*;
use crate::classify::{catalog_table, classified, parse_attributes};
use crate::html::{
    child_view, first_key, first_text, grandparent_children, grandparent_rows, key_of_first,
    tag_texts, text_of_first, texts, texts_of_tag,
};
use crate::model::{Attribute, DownloadError, ExtractionError, Houseplant};
use crate::text::{contains_seq, decimal, digit_char, lower_of, same_text, text_contains, lowercase, name_from_title, name_of_title,
    signed_decimal, signed_to_decimal};

verus! {

/// What a detail page asks for before its table is read: the record's name and
/// the address of its image.
pub struct DetailPlan {
    pub name: String,
    pub image_url: String,
}

/// The outcome of reading a page's title and image element: the title's text,
/// if any, and the image element's address attribute, if the element exists.
pub open spec fn plan_of(
    title: Option<Seq<char>>,
    image: Option<Option<Seq<char>>>,
) -> Result<(Seq<char>, Seq<char>), ExtractionError> {
    match title {
        None => Err(ExtractionError::TitleMissing),
        Some(t) => match image {
            Some(Some(src)) => Ok((name_of_title(t), src)),
            _ => Err(ExtractionError::ImageMissing),
        },
    }
}

/// `r` is what `plan_of` gives.
pub open spec fn plan_matches(
    r: Result<DetailPlan, ExtractionError>,
    expected: Result<(Seq<char>, Seq<char>), ExtractionError>,
) -> bool {
    match expected {
        Ok((name, url)) => r is Ok && r->Ok_0.name@ == name && r->Ok_0.image_url@ == url,
        Err(e) => r == Err::<DetailPlan, ExtractionError>(e),
    }
}

/// Decides the name and image address from the title text and the image
/// element's address attribute.
pub fn plan_from_parts(title: Option<String>, image: Option<Option<String>>) -> (r: Result<
    DetailPlan,
    ExtractionError,
>)
    ensures
        plan_matches(
            r,
            plan_of(
                match title {
                    Some(t) => Some(t@),
                    None => None,
                },
                match image {
                    Some(Some(s)) => Some(Some(s@)),
                    Some(None) => Some(None),
                    None => None,
                },
            ),
        ),
{
    match title {
        None => Err(ExtractionError::TitleMissing),
        Some(t) => match image {
            Some(Some(src)) => Ok(DetailPlan { name: name_from_title(t.as_str()), image_url: src }),
            _ => Err(ExtractionError::ImageMissing),
        },
    }
}

/// Reads a detail page's title and image address.
pub fn plan_detail(html: &str) -> (r: Result<DetailPlan, ExtractionError>)
    ensures
        plan_matches(
            r,
            plan_of(
                text_of_first(html@, "class"@, "entry-title"@),
                key_of_first(html@, "itemprop"@, "url image"@, "data-src"@),
            ),
        ),
{
    let title = first_text(html, "class", "entry-title");
    let image = first_key(html, "itemprop", "url image", "data-src");
    plan_from_parts(title, image)
}

/// The keyword that marks the cell of a care table's watering row.
pub open spec fn watering_keyword() -> Seq<char> {
    "полив"@
}

/// The first cell at or after `i` whose lower-cased text holds the watering
/// keyword.
pub open spec fn watering_from(cells: Seq<Seq<char>>, i: int) -> Option<int>
    decreases cells.len() - i,
{
    if i < 0 || i >= cells.len() {
        None
    } else if contains_seq(lower_of(cells[i]), watering_keyword()) {
        Some(i)
    } else {
        watering_from(cells, i + 1)
    }
}

/// The index of the first cell that mentions watering.
pub fn find_watering_cell(cells: &Vec<String>) -> (r: Option<usize>)
    ensures
        match r {
            Some(k) => watering_from(texts(cells@), 0) == Some(k as int),
            None => watering_from(texts(cells@), 0) is None,
        },
{
    proof {
        reveal_strlit("полив");
    }
    let keyword = "полив";
    let mut i: usize = 0;
    while i < cells.len()
        invariant
            keyword@ == watering_keyword(),
            0 <= i <= cells@.len(),
            watering_from(texts(cells@), 0) == watering_from(texts(cells@), i as int),
        decreases cells@.len() - i,
    {
        let lower = lowercase(cells[i].as_str());
        if text_contains(lower.as_str(), keyword) {
            return Some(i);
        }
        i = i + 1;
    }
    None
}

/// The label and content of a table row given as its cells' texts.
pub open spec fn attribute_view(a: Attribute) -> (Seq<char>, Seq<char>) {
    (a.parameter@, a.value@)
}

/// The rows of a table body, as label and content, from its children: the `tr`
/// children in order, each read from its first two cells; `None` when one of
/// them has fewer than two.
pub open spec fn rows_of(children: Seq<(Seq<char>, Seq<Seq<char>>)>) -> Option<
    Seq<(Seq<char>, Seq<char>)>,
>
    decreases children.len(),
{
    if children.len() == 0 {
        Some(Seq::empty())
    } else {
        match rows_of(children.drop_last()) {
            None => None,
            Some(rows) => {
                let c = children.last();
                if c.0 != "tr"@ {
                    Some(rows)
                } else if c.1.len() < 2 {
                    None
                } else {
                    Some(rows.push((c.1[0], c.1[1])))
                }
            },
        }
    }
}

/// Reads the rows of a table body from its children.
pub fn table_rows(children: &Vec<(String, Vec<String>)>) -> (r: Result<
    Vec<Attribute>,
    ExtractionError,
>)
    ensures
        match rows_of(children@.map_values(|c: (String, Vec<String>)| child_view(c))) {
            Some(rows) => r is Ok && r->Ok_0@.map_values(|a: Attribute| attribute_view(a)) == rows,
            None => r == Err::<Vec<Attribute>, ExtractionError>(ExtractionError::MalformedRow),
        },
{
    let ghost cv = children@.map_values(|c: (String, Vec<String>)| child_view(c));
    proof {
        reveal_strlit("tr");
    }
    let mut out: Vec<Attribute> = Vec::new();
    let mut i: usize = 0;
    assert(cv.take(0) =~= Seq::<(Seq<char>, Seq<Seq<char>>)>::empty());
    while i < children.len()
        invariant
            cv == children@.map_values(|c: (String, Vec<String>)| child_view(c)),
            0 <= i <= children@.len(),
            rows_of(cv.take(i as int)) == Some(out@.map_values(|a: Attribute| attribute_view(a))),
        decreases children@.len() - i,
    {
        assert(cv.take(i + 1).drop_last() =~= cv.take(i as int));
        assert(cv.take(i + 1).last() == child_view(children@[i as int]));
        let (name, cells) = &children[i];
        if same_text(name.as_str(), "tr") {
            if cells.len() < 2 {
                proof {
                    lemma_malformed_stays(cv, i as int + 1);
                    assert(cv.take(cv.len() as int) =~= cv);
                }
                return Err(ExtractionError::MalformedRow);
            }
            let ghost before = out@;
            out.push(Attribute { parameter: cells[0].clone(), value: cells[1].clone() });
            assert(out@.map_values(|a: Attribute| attribute_view(a)) =~= before.map_values(
                |a: Attribute| attribute_view(a),
            ).push((cells@[0]@, cells@[1]@)));
        }
        i = i + 1;
    }
    assert(cv.take(children@.len() as int) =~= cv);
    Ok(out)
}

proof fn lemma_malformed_stays(cv: Seq<(Seq<char>, Seq<Seq<char>>)>, k: int)
    requires
        0 <= k <= cv.len(),
        rows_of(cv.take(k)) is None,
    ensures
        rows_of(cv.take(cv.len() as int)) is None,
    decreases cv.len() - k,
{
    if k < cv.len() {
        assert(cv.take(k + 1).drop_last() =~= cv.take(k));
        lemma_malformed_stays(cv, k + 1);
    }
}

/// The rows of a page's care table: from the first cell that mentions watering,
/// the body two levels up, read row by row. `Err` names what is missing.
pub open spec fn table_of(html: Seq<char>) -> Result<Seq<(Seq<char>, Seq<char>)>, ExtractionError> {
    match watering_from(texts_of_tag(html, "td"@), 0) {
        None => Err(ExtractionError::TableMissing),
        Some(i) => match grandparent_children(html, "td"@, i) {
            None => Err(ExtractionError::TableMissing),
            Some(ch) => match rows_of(ch) {
                None => Err(ExtractionError::MalformedRow),
                Some(rows) => Ok(rows),
            },
        },
    }
}

/// Finishes a detail page once its image has been archived (or has failed):
/// reads the care table and builds the record.
pub fn finish_detail(html: &str, plan: DetailPlan, image: Result<String, DownloadError>) -> (r:
    Result<Houseplant, ExtractionError>)
    ensures
        match image {
            Err(e) => r == Err::<Houseplant, ExtractionError>(ExtractionError::ImageDownload(e)),
            Ok(file) => match table_of(html@) {
                Err(e) => r == Err::<Houseplant, ExtractionError>(e),
                Ok(rows) => r is Ok && r->Ok_0.name == plan.name && r->Ok_0.image == file && exists|
                    list: Seq<Attribute>,
                |
                    list.map_values(|a: Attribute| attribute_view(a)) == rows
                        && r->Ok_0.attributes == classified(catalog_table(), list),
            },
        },
{
    let file = match image {
        Err(e) => {
            return Err(ExtractionError::ImageDownload(e));
        },
        Ok(f) => f,
    };
    let cells = tag_texts(html, "td");
    let index = match find_watering_cell(&cells) {
        None => {
            return Err(ExtractionError::TableMissing);
        },
        Some(i) => i,
    };
    let children = match grandparent_rows(html, "td", index) {
        None => {
            return Err(ExtractionError::TableMissing);
        },
        Some(c) => c,
    };
    let list = match table_rows(&children) {
        Err(e) => {
            return Err(e);
        },
        Ok(l) => l,
    };
    let ghost listed = list@;
    let attributes = parse_attributes(list);
    let plant = Houseplant { name: plan.name, image: file, attributes };
    assert(listed.map_values(|a: Attribute| attribute_view(a)) == table_of(html@)->Ok_0);
    Ok(plant)
}

/// The name of the image file archived at `millis` milliseconds since the epoch.
pub open spec fn image_name(millis: int) -> Seq<char> {
    signed_decimal(millis) + ".jpg"@
}

/// The image file name for a time stamp in milliseconds.
pub fn image_filename(millis: i64) -> (r: String)
    ensures
        r@ == image_name(millis as int),
{
    let mut name = signed_to_decimal(millis);
    name.append(".jpg");
    name
}

/// Relies on `std::time::SystemTime::now`, chrono's `From<SystemTime>` for
/// `DateTime<Utc>` and `DateTime::timestamp_millis`: the current wall-clock time
/// in milliseconds since the epoch, negative for a clock set before it. Nothing
/// is known of its value. (The conversion fails only for a clock hundreds of
/// thousands of years away from the epoch, outside chrono's range.)
#[verifier::external_body]
fn now_millis() -> (r: i64) {
    chrono::DateTime::<chrono::Utc>::from(std::time::SystemTime::now()).timestamp_millis()
}

proof fn lemma_digit_char_injective(a: nat, b: nat)
    requires
        a < 10,
        b < 10,
        digit_char(a) == digit_char(b),
    ensures
        a == b,
{
}

proof fn lemma_decimal_shape(n: nat)
    ensures
        decimal(n).len() >= 1,
        n < 10 <==> decimal(n).len() == 1,
        '0' <= decimal(n)[0] && decimal(n)[0] <= '9',
    decreases n,
{
    if n >= 10 {
        lemma_decimal_shape(n / 10);
        assert(decimal(n)[0] == decimal(n / 10)[0]);
    }
}

proof fn lemma_decimal_injective(a: nat, b: nat)
    requires
        decimal(a) == decimal(b),
    ensures
        a == b,
    decreases a,
{
    lemma_decimal_shape(a);
    lemma_decimal_shape(b);
    if a < 10 {
        assert(decimal(a)[0] == decimal(b)[0]);
        lemma_digit_char_injective(a, b);
    } else {
        let (da, db) = (decimal(a), decimal(b));
        assert(da.drop_last() == decimal(a / 10));
        assert(db.drop_last() == decimal(b / 10));
        assert(da.last() == db.last());
        lemma_digit_char_injective(a % 10, b % 10);
        lemma_decimal_injective(a / 10, b / 10);
    }
}

/// Images archived at different time stamps get different file names, so
/// neither overwrites the other.
pub proof fn lemma_distinct_stamps_distinct_names(m1: int, m2: int)
    requires
        m1 != m2,
    ensures
        image_name(m1) != image_name(m2),
{
    let (s1, s2) = (signed_decimal(m1), signed_decimal(m2));
    reveal_strlit(".jpg");
    if image_name(m1) == image_name(m2) {
        assert(s1 =~= image_name(m1).subrange(0, image_name(m1).len() - 4));
        assert(s2 =~= image_name(m2).subrange(0, image_name(m2).len() - 4));
        lemma_decimal_shape((if m1 < 0 { -m1 } else { m1 }) as nat);
        lemma_decimal_shape((if m2 < 0 { -m2 } else { m2 }) as nat);
        if m1 < 0 && m2 < 0 {
            assert(s1.drop_first() =~= decimal((-m1) as nat));
            assert(s2.drop_first() =~= decimal((-m2) as nat));
            lemma_decimal_injective((-m1) as nat, (-m2) as nat);
        } else if m1 >= 0 && m2 >= 0 {
            lemma_decimal_injective(m1 as nat, m2 as nat);
        } else {
            assert(s1[0] == s2[0]);
        }
    }
}

/// An image file name for the current time: the time stamp in milliseconds,
/// in decimal, and `.jpg`.
pub fn new_image_filename() -> (r: String)
    ensures
        exists|m: i64| r@ == image_name(m as int),
{
    let m = now_millis();
    image_filename(m)
}

} // verus!
