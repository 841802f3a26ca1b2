use gloo::history::browser::EntryStates;

#[test]
fn recorded_states_are_found_by_id() {
    let mut states: EntryStates<&str> = EntryStates::new();
    assert_eq!(states.state_of(Some(7)), None);
    states.record(7, Some("seven"));
    states.record(8, None);
    assert_eq!(states.state_of(Some(7)), Some(&"seven"));
    assert_eq!(states.state_of(Some(8)), None);
    assert_eq!(states.state_of(None), None);
    states.record(7, Some("again"));
    assert_eq!(states.state_of(Some(7)), Some(&"again"));
}
