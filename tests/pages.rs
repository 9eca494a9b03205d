use houseplants::pages::{
    category_pages, category_urls, detail_urls, page_count, page_count_from_nav, page_urls,
    parse_count,
};

fn strings(v: &[&str]) -> Vec<String> {
    v.iter().map(|s| s.to_string()).collect()
}

#[test]
fn no_navigation_means_one_page() {
    assert_eq!(page_count_from_nav(None), Some(1));
    assert_eq!(page_count("<html><body><p>nothing</p></body></html>"), Some(1));
}

#[test]
fn third_child_from_end_gives_count() {
    let nav = strings(&["1", "2", "5", "…", "Далее"]);
    assert_eq!(page_count_from_nav(Some(nav)), Some(5));
    let nav = strings(&["x", "5", "a", "b"]);
    assert_eq!(page_count_from_nav(Some(nav)), Some(5));
    let nav = strings(&["+5", "a", "b"]);
    assert_eq!(page_count_from_nav(Some(nav)), Some(5));
}

#[test]
fn unreadable_navigation_gives_none() {
    assert_eq!(page_count_from_nav(Some(strings(&["1", "2"]))), None);
    assert_eq!(page_count_from_nav(Some(strings(&["…", "x", "y"]))), None);
}

#[test]
fn page_count_from_markup() {
    let html = r#"<div class="nav-links"><span>1</span><a>2</a><a>5</a><a>dots</a><a>next</a></div>"#;
    assert_eq!(page_count(html), Some(5));
}

#[test]
fn five_pages_give_five_urls() {
    let urls = page_urls("https://example.org/cat", 5);
    assert_eq!(
        urls,
        strings(&[
            "https://example.org/cat/page/1",
            "https://example.org/cat/page/2",
            "https://example.org/cat/page/3",
            "https://example.org/cat/page/4",
            "https://example.org/cat/page/5",
        ])
    );
    assert_eq!(page_urls("c", 12)[11], "c/page/12");
    assert!(page_urls("c", 0).is_empty());
}

#[test]
fn category_without_navigation_has_one_page() {
    let pages = category_pages("https://example.org/cat", "<p>no nav</p>").unwrap();
    assert_eq!(pages, strings(&["https://example.org/cat/page/1"]));
}

#[test]
fn counts_parse_in_decimal() {
    assert_eq!(parse_count("0"), Some(0));
    assert_eq!(parse_count("42"), Some(42));
    assert_eq!(parse_count(""), None);
    assert_eq!(parse_count("4a"), None);
    assert_eq!(parse_count("-3"), None);
    assert_eq!(parse_count("18446744073709551615"), Some(usize::MAX));
    assert_eq!(parse_count("18446744073709551616"), None);
    assert_eq!(parse_count("+5"), Some(5));
    assert_eq!(parse_count("+"), None);
    assert_eq!(parse_count("++5"), None);
    assert_eq!(parse_count("5+"), None);
}

#[test]
fn front_page_categories() {
    let html = r#"<ul>
        <li class="cat-item"><a href="https://example.org/a">A</a></li>
        <li class="cat-item"><a href="https://example.org/b">B</a></li>
        <li class="cat-item"><span>no link</span></li>
    </ul>"#;
    assert_eq!(category_urls(html), strings(&["https://example.org/a", "https://example.org/b"]));
}

#[test]
fn listing_page_detail_links() {
    let html = r#"<div>
        <a itemprop="url" href="https://example.org/ficus">Ficus</a>
        <a href="https://example.org/other">other</a>
        <a itemprop="url" href="https://example.org/aloe">Aloe</a>
        <a itemprop="url">no link</a>
    </div>"#;
    assert_eq!(detail_urls(html), strings(&["https://example.org/ficus", "https://example.org/aloe"]));
}
