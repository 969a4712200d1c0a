use lard::{ParamConversions, ReferenceParam};

fn param(id: i32, element_id: &str, is_scalar: bool) -> ReferenceParam {
    ReferenceParam {
        id,
        element_id: element_id.to_string(),
        is_scalar,
    }
}

#[test]
fn table_gives_back_what_was_put_in() {
    let mut table = ParamConversions::new();
    assert!(table.get("TA").is_none());
    table.insert("TA".to_string(), param(211, "air_temperature", true));
    table.insert("KLOBS".to_string(), param(1021, "observation_time", false));
    let found = table.get("TA").unwrap();
    assert_eq!(
        (found.id, found.element_id.as_str(), found.is_scalar),
        (211, "air_temperature", true)
    );
    assert_eq!(table.get("KLOBS").unwrap().id, 1021);
    assert!(table.get("ta").is_none());
    assert!(table.get("").is_none());
}

#[test]
fn later_entry_replaces_an_earlier_one() {
    let mut table = ParamConversions::new();
    table.insert("TA".to_string(), param(1, "first", true));
    table.insert("TA".to_string(), param(2, "second", false));
    let found = table.get("TA").unwrap();
    assert_eq!(
        (found.id, found.element_id.as_str(), found.is_scalar),
        (2, "second", false)
    );
}

#[test]
fn record_gives_a_parameter() {
    let scalar = ReferenceParam::from_record("211", "air_temperature", "t").unwrap();
    assert_eq!(
        (scalar.id, scalar.element_id.as_str(), scalar.is_scalar),
        (211, "air_temperature", true)
    );
    let text = ReferenceParam::from_record("1021", "observation_time", "f").unwrap();
    assert_eq!((text.id, text.is_scalar), (1021, false));
    assert!(ReferenceParam::from_record("x", "air_temperature", "t").is_none());
    assert!(ReferenceParam::from_record("211", "air_temperature", "true").is_none());
    assert!(ReferenceParam::from_record("211", "air_temperature", "").is_none());
}
