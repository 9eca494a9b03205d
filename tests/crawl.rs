use houseplants::crawl::{collect_records, dedup_urls, flatten_urls, holds, merge_detail_urls};
use houseplants::model::{Attributes, ExtractionError, Houseplant};

fn strings(v: &[&str]) -> Vec<String> {
    v.iter().map(|s| s.to_string()).collect()
}

fn plant(name: &str) -> Houseplant {
    Houseplant { name: name.to_string(), image: format!("{}.jpg", name), attributes: Attributes::empty() }
}

#[test]
fn shared_detail_url_is_kept_once() {
    let results = vec![Some(strings(&["x", "a"])), Some(strings(&["b", "x"]))];
    let merged = merge_detail_urls(&results);
    assert_eq!(merged.iter().filter(|u| u.as_str() == "x").count(), 1);
    let mut sorted = merged.clone();
    sorted.sort();
    assert_eq!(sorted, strings(&["a", "b", "x"]));
}

#[test]
fn missing_category_contributes_nothing() {
    let results = vec![None, Some(strings(&["a"])), None];
    assert_eq!(flatten_urls(&results), strings(&["a"]));
    assert_eq!(merge_detail_urls(&results), strings(&["a"]));
    assert!(merge_detail_urls(&vec![]).is_empty());
}

#[test]
fn flatten_keeps_repeats_and_order() {
    let results = vec![Some(strings(&["a", "b"])), Some(strings(&["b"]))];
    assert_eq!(flatten_urls(&results), strings(&["a", "b", "b"]));
}

#[test]
fn dedup_keeps_first_of_each() {
    assert_eq!(dedup_urls(&strings(&["b", "a", "b", "a", "c"])), strings(&["b", "a", "c"]));
    assert!(holds(&strings(&["a", "b"]), &"b".to_string()));
    assert!(!holds(&strings(&["a", "b"]), &"c".to_string()));
}

#[test]
fn failed_items_are_dropped_and_the_rest_kept() {
    let mut results = Vec::new();
    for i in 0..10 {
        if i % 3 == 1 {
            results.push(Err(ExtractionError::TitleMissing));
        } else {
            results.push(Ok(plant(&format!("plant{}", i))));
        }
    }
    let records = collect_records(results);
    assert_eq!(records.len(), 7);
    let names: Vec<&str> = records.iter().map(|p| p.name.as_str()).collect();
    assert_eq!(names, vec!["plant0", "plant2", "plant3", "plant5", "plant6", "plant8", "plant9"]);
}

#[test]
fn two_categories_with_overlap_give_two_records() {
    let category_one = Some(strings(&["https://example.org/ficus", "https://example.org/aloe"]));
    let category_two = Some(strings(&["https://example.org/aloe"]));
    let urls = merge_detail_urls(&vec![category_one, category_two]);
    assert_eq!(urls.len(), 2);
    let results = urls.iter().map(|u| Ok(plant(u.rsplit('/').next().unwrap()))).collect();
    let records = collect_records(results);
    assert_eq!(records.len(), 2);
}
