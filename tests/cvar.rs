use cvars::{CVar, Error, Value};

fn set_from_text<T: Value>(cell: &CVar<T>, s: &str) -> Result<(), Error> {
    let v = T::parse(s)?;
    cell.set(v);
    Ok(())
}

#[test]
fn new_cell_holds_name_description_and_value() {
    let speed: CVar<u32> = CVar::new("speed", "Movement speed.", 320);
    assert_eq!(speed.name(), "speed");
    assert_eq!(speed.description(), "Movement speed.");
    assert_eq!(speed.get(), 320);
}

#[test]
fn duplicate_handle_shares_the_cell() {
    let first: CVar<String> = CVar::new("map", "Current map.", "dust".to_string());
    let duplicate = first.clone();
    duplicate.set("aztec".to_string());
    assert_eq!(first.get(), "aztec");
    set_from_text(&first, "\"nuke\"").unwrap();
    assert_eq!(duplicate.get(), "nuke");
}

#[test]
fn failed_text_leaves_the_value() {
    let enabled: CVar<bool> = CVar::new("r.full_bright", "Disables lighting.", false);
    assert_eq!(set_from_text(&enabled, "maybe"), Err(Error::invalid_value("maybe")));
    assert!(!enabled.get());
    assert_eq!(set_from_text(&enabled, "T"), Ok(()));
    assert!(enabled.get());
    let limit: CVar<u8> = CVar::new("limit", "", 7);
    assert!(set_from_text(&limit, "256").is_err());
    assert_eq!(limit.get(), 7);
}
