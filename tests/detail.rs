use houseplants::detail::{
    find_watering_cell, finish_detail, image_filename, new_image_filename, plan_detail,
    plan_from_parts, table_rows,
};
use houseplants::model::{DownloadError, ExtractionError, Slot};
use houseplants::text::{cut_at_separator, name_from_title, same_text, signed_to_decimal, text_contains, trim};

const PAGE: &str = r#"<html><body>
<h1 class="entry-title">Фикус Бенджамина — уход в домашних условиях</h1>
<img itemprop="url image" data-src="https://example.org/ficus.jpg">
<table><tbody><tr><td>Температура</td><td>18-25</td></tr><tr><td>Полив</td><td>умеренный</td></tr><tr><td>Цветение</td><td>редко</td></tr></tbody></table>
</body></html>"#;

fn s(v: &str) -> String {
    v.to_string()
}

#[test]
fn title_is_cut_at_separator_and_trimmed() {
    assert_eq!(name_from_title("Фикус — уход"), "Фикус");
    assert_eq!(name_from_title("  Алоэ  "), "Алоэ");
    assert_eq!(cut_at_separator("a—b—c"), "a");
    assert_eq!(cut_at_separator("abc"), "abc");
}

#[test]
fn plan_reads_name_and_image() {
    let plan = plan_detail(PAGE).unwrap();
    assert_eq!(plan.name, "Фикус Бенджамина");
    assert_eq!(plan.image_url, "https://example.org/ficus.jpg");
}

#[test]
fn plan_errors() {
    assert_eq!(plan_from_parts(None, Some(Some(s("u")))).err(), Some(ExtractionError::TitleMissing));
    assert_eq!(plan_from_parts(Some(s("t")), None).err(), Some(ExtractionError::ImageMissing));
    assert_eq!(plan_from_parts(Some(s("t")), Some(None)).err(), Some(ExtractionError::ImageMissing));
    assert_eq!(plan_detail("<p>empty</p>").err(), Some(ExtractionError::TitleMissing));
    let no_image = r#"<h1 class="entry-title">Алоэ</h1>"#;
    assert_eq!(plan_detail(no_image).err(), Some(ExtractionError::ImageMissing));
}

#[test]
fn finish_builds_record() {
    let plan = plan_detail(PAGE).unwrap();
    let plant = finish_detail(PAGE, plan, Ok(s("1700000000000.jpg"))).unwrap();
    assert_eq!(plant.name, "Фикус Бенджамина");
    assert_eq!(plant.image, "1700000000000.jpg");
    assert_eq!(plant.attributes.value_of(Slot::Temperature), Some("18-25"));
    assert_eq!(plant.attributes.value_of(Slot::Watering), Some("умеренный"));
    assert_eq!(plant.attributes.value_of(Slot::Features), Some("редко"));
    assert_eq!(plant.attributes.value_of(Slot::Soil), None);
}

#[test]
fn finish_errors() {
    let plan = plan_detail(PAGE).unwrap();
    assert_eq!(
        finish_detail(PAGE, plan, Err(DownloadError::Fetch)).err(),
        Some(ExtractionError::ImageDownload(DownloadError::Fetch))
    );
    let plan = plan_detail(PAGE).unwrap();
    assert_eq!(
        finish_detail(PAGE, plan, Err(DownloadError::Body)).err(),
        Some(ExtractionError::ImageDownload(DownloadError::Body))
    );
    let no_table = r#"<table><tbody><tr><td>Грунт</td><td>лёгкий</td></tr></tbody></table>"#;
    let plan = plan_detail(PAGE).unwrap();
    assert_eq!(finish_detail(no_table, plan, Ok(s("1.jpg"))).err(), Some(ExtractionError::TableMissing));
    let short_row = r#"<table><tbody><tr><td>Полив</td><td>часто</td></tr><tr><td>один</td></tr></tbody></table>"#;
    let plan = plan_detail(PAGE).unwrap();
    assert_eq!(finish_detail(short_row, plan, Ok(s("1.jpg"))).err(), Some(ExtractionError::MalformedRow));
}

#[test]
fn table_rows_reads_only_tr_children() {
    let children = vec![
        (s("tr"), vec![s("Полив"), s("часто"), s("лишнее")]),
        (s("[text]"), vec![]),
        (s("tr"), vec![s("Грунт"), s("лёгкий")]),
    ];
    let rows = table_rows(&children).unwrap();
    assert_eq!(rows.len(), 2);
    assert_eq!(rows[0].parameter, "Полив");
    assert_eq!(rows[0].value, "часто");
    assert_eq!(rows[1].parameter, "Грунт");
    let bad = vec![(s("tr"), vec![s("один")])];
    assert_eq!(table_rows(&bad).err(), Some(ExtractionError::MalformedRow));
}

#[test]
fn watering_cell_is_found_case_insensitively() {
    let cells = vec![s("Грунт"), s("ПОЛИВ"), s("полив")];
    assert_eq!(find_watering_cell(&cells), Some(1));
    assert_eq!(find_watering_cell(&vec![s("Грунт")]), None);
}

#[test]
fn image_names_from_stamps() {
    assert_eq!(image_filename(1700000000123), "1700000000123.jpg");
    assert_eq!(image_filename(0), "0.jpg");
    assert_eq!(image_filename(-45), "-45.jpg");
    assert_eq!(image_filename(i64::MIN), format!("{}.jpg", i64::MIN));
    assert_ne!(image_filename(10), image_filename(100));
    assert_eq!(signed_to_decimal(i64::MAX), i64::MAX.to_string());
}

#[test]
fn fresh_image_name_is_a_stamp() {
    let name = new_image_filename();
    let stem = name.strip_suffix(".jpg").unwrap();
    assert!(stem.parse::<i64>().is_ok());
    assert_eq!(image_filename(stem.parse::<i64>().unwrap()), name);
    assert!(!name.contains('/'));
}

#[test]
fn texts_compare_by_characters() {
    assert!(same_text("tr", "tr"));
    assert!(!same_text("tr", "td"));
    assert!(!same_text("tr", "t"));
}

#[test]
fn substring_search() {
    assert!(text_contains("режим полива", "полив"));
    assert!(text_contains("полив", "полив"));
    assert!(text_contains("abc", ""));
    assert!(!text_contains("пол", "полив"));
    assert!(!text_contains("грунт", "полив"));
}

#[test]
fn trimming_follows_unicode_white_space() {
    assert_eq!(trim("\t\u{a0} Алоэ \u{3000}\n"), "Алоэ");
    assert_eq!(trim("   "), "");
    assert_eq!(trim(""), "");
    assert_eq!(trim("a b"), "a b");
    assert_eq!(name_from_title("\u{2003}Кактус\u{2003}— сорта"), "Кактус");
}
