use houseplants::classify::{catalog_rules, classify_label, classify_lowered, parse_attributes};
use houseplants::model::{Attribute, Attributes, Slot};

fn row(label: &str, value: &str) -> Attribute {
    Attribute { parameter: label.to_string(), value: value.to_string() }
}

const ALL_SLOTS: [Slot; 9] = [
    Slot::Temperature,
    Slot::Humidity,
    Slot::Illumination,
    Slot::Watering,
    Slot::Soil,
    Slot::Fertilizer,
    Slot::Transplant,
    Slot::Propagation,
    Slot::Features,
];

fn filled(a: &Attributes) -> Vec<Slot> {
    ALL_SLOTS.iter().copied().filter(|s| a.value_of(*s).is_some()).collect()
}

#[test]
fn each_keyword_fills_only_its_slot() {
    let cases = [
        ("Температура", Slot::Temperature),
        ("Влажность воздуха", Slot::Humidity),
        ("Освещение", Slot::Illumination),
        ("Полив", Slot::Watering),
        ("Грунт", Slot::Soil),
        ("Подкормка", Slot::Fertilizer),
        ("Удобрение", Slot::Fertilizer),
        ("Пересадка", Slot::Transplant),
        ("Размножение", Slot::Propagation),
        ("Особенности", Slot::Features),
    ];
    for (label, slot) in cases {
        let attrs = parse_attributes(vec![row(label, "x")]);
        assert_eq!(filled(&attrs), vec![slot], "label {}", label);
        assert_eq!(attrs.value_of(slot), Some("x"));
    }
}

#[test]
fn unrecognized_label_goes_to_features() {
    let attrs = parse_attributes(vec![row("Цветение", "летом")]);
    assert_eq!(filled(&attrs), vec![Slot::Features]);
    assert_eq!(attrs.features.as_ref().unwrap().parameter, "Цветение");
    assert_eq!(attrs.value_of(Slot::Features), Some("летом"));
}

#[test]
fn classification_is_deterministic() {
    let a = parse_attributes(vec![row("Полив", "умеренный"), row("Грунт", "лёгкий")]);
    let b = parse_attributes(vec![row("Полив", "умеренный"), row("Грунт", "лёгкий")]);
    for s in ALL_SLOTS {
        assert_eq!(a.value_of(s), b.value_of(s));
    }
}

#[test]
fn second_row_with_same_keyword_wins() {
    let attrs = parse_attributes(vec![row("Полив летом", "обильный"), row("Полив зимой", "редкий")]);
    assert_eq!(filled(&attrs), vec![Slot::Watering]);
    assert_eq!(attrs.value_of(Slot::Watering), Some("редкий"));
    assert_eq!(attrs.watering.as_ref().unwrap().parameter, "Полив зимой");
}

#[test]
fn earlier_rule_wins_when_two_keywords_occur() {
    let rules = catalog_rules();
    assert_eq!(classify_lowered(&rules, "влажность и температура"), Slot::Temperature);
    assert_eq!(classify_lowered(&rules, "грунт для пересадки"), Slot::Soil);
}

#[test]
fn label_is_lower_cased_before_matching() {
    let rules = catalog_rules();
    assert_eq!(classify_label(&rules, "ТЕМПЕРАТУРА"), Slot::Temperature);
    assert_eq!(classify_lowered(&rules, "ТЕМПЕРАТУРА"), Slot::Features);
}

#[test]
fn empty_rows_give_empty_attributes() {
    let attrs = parse_attributes(vec![]);
    assert!(filled(&attrs).is_empty());
    assert!(filled(&Attributes::default()).is_empty());
}
