use pam_razer::{
    device_from_entry, parse_config, parse_registry, registry_from_document, ConfigError,
    DeviceConfig, FieldValue, Registry, TomlEntry, TomlField,
};

fn dev(vendor_id: u16, product_id: u16) -> DeviceConfig {
    DeviceConfig { vendor_id, product_id }
}

fn field(name: &str, value: FieldValue) -> TomlField {
    TomlField { name: name.to_string(), value }
}

fn load(text: &str) -> Result<Registry, ConfigError> {
    parse_registry(text)
}

#[test]
fn absent_file_gives_empty_registry() {
    let reg = parse_config(None).expect("absence is no error");
    assert_eq!(reg.len(), 0);
    assert!(!reg.contains_device(dev(4176, 529)));
}

#[test]
fn present_file_is_parsed() {
    let reg = parse_config(Some("[my-yubikey]\nvendor_id = 4176\nproduct_id = 529\n")).unwrap();
    assert_eq!(reg.len(), 1);
    assert_eq!(reg.get("my-yubikey"), Some(dev(4176, 529)));
}

#[test]
fn empty_text_gives_empty_registry() {
    let reg = load("").unwrap();
    assert_eq!(reg.len(), 0);
}

#[test]
fn round_trip_keeps_every_entry() {
    let text = "[a]\nvendor_id = 1\nproduct_id = 2\n\n[b]\nvendor_id = 65535\nproduct_id = 0\n\n[c]\nvendor_id = 4176\nproduct_id = 529\n";
    let reg = load(text).unwrap();
    assert_eq!(reg.len(), 3);
    assert_eq!(reg.get("a"), Some(dev(1, 2)));
    assert_eq!(reg.get("b"), Some(dev(65535, 0)));
    assert_eq!(reg.get("c"), Some(dev(4176, 529)));
    assert_eq!(reg.get("d"), None);
}

#[test]
fn label_order_does_not_matter() {
    let one = load("[x]\nvendor_id = 10\nproduct_id = 20\n[y]\nvendor_id = 30\nproduct_id = 40\n").unwrap();
    let two = load("[y]\nvendor_id = 30\nproduct_id = 40\n[x]\nvendor_id = 10\nproduct_id = 20\n").unwrap();
    assert_eq!(one.len(), two.len());
    for label in ["x", "y", "z"] {
        assert_eq!(one.get(label), two.get(label));
    }
}

#[test]
fn inline_table_and_extra_fields_are_accepted() {
    let reg = load("yubikey = { vendor_id = 4176, product_id = 529, note = \"desk\" }\n").unwrap();
    assert_eq!(reg.get("yubikey"), Some(dev(4176, 529)));
}

#[test]
fn missing_field_is_config_error() {
    let r = load("[k]\nvendor_id = 4176\n");
    assert!(matches!(r, Err(ConfigError::InvalidEntry)));
}

#[test]
fn out_of_range_value_is_config_error() {
    let r = load("[k]\nvendor_id = 65536\nproduct_id = 1\n");
    assert!(matches!(r, Err(ConfigError::InvalidEntry)));
    let r = load("[k]\nvendor_id = 1\nproduct_id = -1\n");
    assert!(matches!(r, Err(ConfigError::InvalidEntry)));
}

#[test]
fn one_bad_entry_rejects_the_whole_file() {
    let r = load("[good]\nvendor_id = 1\nproduct_id = 1\n[bad]\nvendor_id = 70000\nproduct_id = 1\n");
    assert!(matches!(r, Err(ConfigError::InvalidEntry)));
}

#[test]
fn non_integer_value_is_config_error() {
    let r = load("[k]\nvendor_id = \"4176\"\nproduct_id = 529\n");
    assert!(matches!(r, Err(ConfigError::InvalidEntry)));
}

#[test]
fn non_table_entry_is_config_error() {
    let r = load("k = 5\n");
    assert!(matches!(r, Err(ConfigError::InvalidEntry)));
}

#[test]
fn malformed_syntax_is_config_error() {
    let r = load("[k\nvendor_id = 1\n");
    assert!(matches!(r, Err(ConfigError::Syntax)));
    let r = parse_config(Some("vendor_id = = 3"));
    assert!(matches!(r, Err(ConfigError::Syntax)));
}

#[test]
fn duplicate_label_is_config_error() {
    let entry = |label: &str| TomlEntry {
        label: label.to_string(),
        table: Some(vec![
            field("vendor_id", FieldValue::Integer(1)),
            field("product_id", FieldValue::Integer(2)),
        ]),
    };
    let r = registry_from_document(&vec![entry("a"), entry("b"), entry("a")]);
    assert!(matches!(r, Err(ConfigError::DuplicateLabel)));
    let r = registry_from_document(&vec![entry("a"), entry("b")]);
    assert_eq!(r.unwrap().len(), 2);
}

#[test]
fn device_from_entry_reads_both_identifiers() {
    let e = TomlEntry {
        label: "k".to_string(),
        table: Some(vec![
            field("product_id", FieldValue::Integer(529)),
            field("other", FieldValue::Other),
            field("vendor_id", FieldValue::Integer(4176)),
        ]),
    };
    assert_eq!(device_from_entry(&e), Some(dev(4176, 529)));
    let e = TomlEntry { label: "k".to_string(), table: None };
    assert_eq!(device_from_entry(&e), None);
    let e = TomlEntry {
        label: "k".to_string(),
        table: Some(vec![
            field("vendor_id", FieldValue::Other),
            field("product_id", FieldValue::Integer(529)),
        ]),
    };
    assert_eq!(device_from_entry(&e), None);
}

#[test]
fn new_registry_is_empty() {
    let reg = Registry::new();
    assert_eq!(reg.len(), 0);
    assert_eq!(reg.get("anything"), None);
}
