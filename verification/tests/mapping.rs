use port_mapping::{PortMapping, PortMappingError, LOWEST_PORT, MAX_IDENTIFIER_CHARS};

fn id(text: &str) -> String {
    String::from(text)
}

fn pairs(list: &[(&str, u16)]) -> Vec<(String, u16)> {
    list.iter().map(|(name, port)| (id(name), *port)).collect()
}

#[test]
fn empty_mapping_knows_no_application() {
    let mapping = PortMapping::new();
    assert_eq!(mapping.get_ui_port_for_app(&id("editor")), None);
    assert_eq!(mapping.get_ui_port_for_app(&id("")), None);
}

#[test]
fn assigned_port_is_found_again() {
    let mut mapping = PortMapping::new();
    let outcome = mapping.assign_port(id("app-x"), Some(51423));
    assert_eq!(outcome, Ok((51423, id("app-x: 51423\n"))));
    assert_eq!(mapping.get_ui_port_for_app(&id("app-x")), Some(51423));
}

#[test]
fn assignment_leaves_other_applications_alone() {
    let mut mapping = PortMapping::from_pairs(pairs(&[("app-one", 51423), ("app-two", 51800)]));
    let outcome = mapping.assign_port(id("app-three"), Some(52000));
    assert_eq!(
        outcome,
        Ok((52000, id("app-one: 51423\napp-three: 52000\napp-two: 51800\n")))
    );
    assert_eq!(mapping.get_ui_port_for_app(&id("app-one")), Some(51423));
    assert_eq!(mapping.get_ui_port_for_app(&id("app-two")), Some(51800));
    assert_eq!(mapping.get_ui_port_for_app(&id("app-three")), Some(52000));
}

#[test]
fn second_assignment_replaces_the_first() {
    let mut mapping = PortMapping::new();
    let first = mapping.assign_port(id("app-x"), Some(20001));
    let second = mapping.assign_port(id("app-x"), Some(20002));
    assert_eq!(first, Ok((20001, id("app-x: 20001\n"))));
    assert_eq!(second, Ok((20002, id("app-x: 20002\n"))));
    assert_eq!(mapping.get_ui_port_for_app(&id("app-x")), Some(20002));
    assert_eq!(mapping, PortMapping::from_pairs(pairs(&[("app-x", 20002)])));
}

#[test]
fn second_assignment_may_give_the_same_port() {
    let mut mapping = PortMapping::new();
    let first = mapping.assign_port(id("app-x"), Some(20001));
    let second = mapping.assign_port(id("app-x"), Some(20001));
    assert_eq!(first, second);
    assert_eq!(mapping.get_ui_port_for_app(&id("app-x")), Some(20001));
    assert_eq!(mapping, PortMapping::from_pairs(pairs(&[("app-x", 20001)])));
}

#[test]
fn no_port_from_the_host_is_an_error_and_changes_nothing() {
    let mut mapping = PortMapping::from_pairs(pairs(&[("editor", 15000)]));
    let outcome = mapping.assign_port(id("viewer"), None);
    assert_eq!(outcome, Err(PortMappingError::NoPortsAvailable));
    assert_eq!(mapping.get_ui_port_for_app(&id("viewer")), None);
    assert_eq!(mapping, PortMapping::from_pairs(pairs(&[("editor", 15000)])));
}

#[test]
fn no_port_from_the_host_keeps_the_old_port() {
    let mut mapping = PortMapping::from_pairs(pairs(&[("editor", 15000)]));
    let outcome = mapping.assign_port(id("editor"), None);
    assert_eq!(outcome, Err(PortMappingError::NoPortsAvailable));
    assert_eq!(mapping.get_ui_port_for_app(&id("editor")), Some(15000));
}

#[test]
fn lowest_and_highest_port_can_be_assigned() {
    let mut mapping = PortMapping::new();
    assert_eq!(LOWEST_PORT, 1024);
    assert_eq!(mapping.assign_port(id("low"), Some(1024)), Ok((1024, id("low: 1024\n"))));
    assert_eq!(
        mapping.assign_port(id("high"), Some(65535)),
        Ok((65535, id("high: 65535\nlow: 1024\n")))
    );
    assert_eq!(mapping.get_ui_port_for_app(&id("low")), Some(1024));
    assert_eq!(mapping.get_ui_port_for_app(&id("high")), Some(65535));
}

#[test]
fn port_of_the_host_is_no_port() {
    let mut mapping = PortMapping::from_pairs(pairs(&[("editor", 15000)]));
    assert_eq!(mapping.assign_port(id("web"), Some(80)), Err(PortMappingError::NoPortsAvailable));
    assert_eq!(mapping.assign_port(id("zero"), Some(0)), Err(PortMappingError::NoPortsAvailable));
    assert_eq!(
        mapping.assign_port(id("edge"), Some(1023)),
        Err(PortMappingError::NoPortsAvailable)
    );
    assert_eq!(
        mapping.assign_port(id("editor"), Some(443)),
        Err(PortMappingError::NoPortsAvailable)
    );
    assert_eq!(mapping, PortMapping::from_pairs(pairs(&[("editor", 15000)])));
}

#[test]
fn loaded_mapping_keeps_a_low_port_it_was_given() {
    let mapping = PortMapping::from_pairs(pairs(&[("web", 80)]));
    assert_eq!(mapping.get_ui_port_for_app(&id("web")), Some(80));
    assert_eq!(mapping.write_port_mapping(), Ok(id("web: 80\n")));
}

#[test]
fn long_identifier_is_written() {
    let long = "a".repeat(1025);
    let mut mapping = PortMapping::from_pairs(pairs(&[("editor", 15000)]));
    let outcome = mapping.assign_port(long.clone(), Some(15001));
    assert_eq!(outcome, Ok((15001, format!("? {}\n: 15001\neditor: 15000\n", long))));
    assert_eq!(mapping.get_ui_port_for_app(&long), Some(15001));
    assert_eq!(mapping.remove_app_from_mapping(long), Ok(id("editor: 15000\n")));
}

#[test]
fn identifier_of_a_hundred_thousand_characters_is_written() {
    let long = "\u{e9}".repeat(100_000);
    let mut mapping = PortMapping::new();
    let outcome = mapping.assign_port(long.clone(), Some(15000));
    assert_eq!(outcome, Ok((15000, format!("? {}\n: 15000\n", long))));
    assert_eq!(mapping.get_ui_port_for_app(&long), Some(15000));
}

#[test]
fn identifiers_beyond_the_limit_are_assigned_and_not_written() {
    assert_eq!(MAX_IDENTIFIER_CHARS, 134_217_728);
    let refusal =
        PortMappingError::SerializationError(id("the mapping is too large for a document"));
    let mut mapping = PortMapping::from_pairs(pairs(&[("editor", 15000)]));
    let outcome = mapping.assign_port("a".repeat(MAX_IDENTIFIER_CHARS - 5), Some(15001));
    assert_eq!(outcome, Err(refusal.clone()));
    assert_eq!(mapping.len(), 2);
    assert_eq!(mapping.get_ui_port_for_app(&id("editor")), Some(15000));
    assert_eq!(mapping.write_port_mapping(), Err(refusal));
}

#[test]
fn number_of_applications_is_counted() {
    let mut mapping = PortMapping::new();
    assert_eq!(mapping.len(), 0);
    assert!(mapping.assign_port(id("editor"), Some(15000)).is_ok());
    assert!(mapping.assign_port(id("viewer"), Some(15001)).is_ok());
    assert_eq!(mapping.len(), 2);
    assert!(mapping.assign_port(id("editor"), Some(15002)).is_ok());
    assert_eq!(mapping.len(), 2);
    assert!(mapping.remove_app_from_mapping(id("app-x")).is_ok());
    assert_eq!(mapping.len(), 2);
    assert!(mapping.remove_app_from_mapping(id("editor")).is_ok());
    assert_eq!(mapping.len(), 1);
    assert_eq!(PortMapping::from_pairs(pairs(&[("a", 1), ("b", 2), ("a", 3)])).len(), 2);
}

#[test]
fn document_that_reads_back_is_handed_out() {
    let mapping = PortMapping::from_pairs(pairs(&[("editor", 15000), ("viewer", 15001)]));
    let document = id("editor: 15000\nviewer: 15001\n");
    let read = Ok(pairs(&[("viewer", 15001), ("editor", 15000)]));
    assert_eq!(mapping.accept_document(document.clone(), read), Ok(document));
}

#[test]
fn document_that_reads_back_as_another_mapping_is_kept_back() {
    let mapping = PortMapping::from_pairs(pairs(&[("editor", 15000), ("viewer", 15001)]));
    let refusal = PortMappingError::SerializationError(id(
        "the document does not read back as the mapping",
    ));
    let document = id("editor: 15000\nviewer: 15001\n");
    let other_port = Ok(pairs(&[("editor", 15000), ("viewer", 15002)]));
    assert_eq!(mapping.accept_document(document.clone(), other_port), Err(refusal.clone()));
    let one_missing = Ok(pairs(&[("editor", 15000)]));
    assert_eq!(mapping.accept_document(document.clone(), one_missing), Err(refusal.clone()));
    let one_more = Ok(pairs(&[("editor", 15000), ("viewer", 15001), ("web", 80)]));
    assert_eq!(mapping.accept_document(document.clone(), one_more), Err(refusal.clone()));
    let other_name = Ok(pairs(&[("editor", 15000), ("Viewer", 15001)]));
    assert_eq!(mapping.accept_document(document.clone(), other_name), Err(refusal.clone()));
    assert_eq!(mapping.accept_document(document, Ok(Vec::new())), Err(refusal));
}

#[test]
fn document_that_the_decoder_rejects_is_kept_back() {
    let mapping = PortMapping::from_pairs(pairs(&[("editor", 15000)]));
    let refusal = PortMappingError::SerializationError(id(
        "the document does not read back as the mapping",
    ));
    let read = Err(id("invalid type: string \"editor\", expected a map"));
    assert_eq!(mapping.accept_document(id("editor"), read), Err(refusal.clone()));
    assert_eq!(PortMapping::new().accept_document(id("{}\n"), Err(String::new())), Err(refusal));
    assert_eq!(PortMapping::new().accept_document(id("{}\n"), Ok(Vec::new())), Ok(id("{}\n")));
}

#[test]
fn two_applications_may_hold_the_same_port() {
    let mut mapping = PortMapping::new();
    assert!(mapping.assign_port(id("editor"), Some(15000)).is_ok());
    assert!(mapping.assign_port(id("viewer"), Some(15000)).is_ok());
    assert_eq!(mapping.get_ui_port_for_app(&id("editor")), Some(15000));
    assert_eq!(mapping.get_ui_port_for_app(&id("viewer")), Some(15000));
}

#[test]
fn asking_the_host_assigns_what_it_answered() {
    let mut mapping = PortMapping::from_pairs(pairs(&[("viewer", 15000)]));
    match mapping.set_available_ui_port_for_app(id("editor")) {
        Ok((port, document)) => {
            assert!(port >= 1024);
            assert_eq!(mapping.get_ui_port_for_app(&id("editor")), Some(port));
            assert_eq!(document, format!("editor: {}\nviewer: 15000\n", port));
        }
        Err(PortMappingError::NoPortsAvailable) => {
            assert_eq!(mapping.get_ui_port_for_app(&id("editor")), None);
        }
        Err(other) => panic!("the host cannot cause {:?}", other),
    }
    assert_eq!(mapping.get_ui_port_for_app(&id("viewer")), Some(15000));
}

#[test]
fn asking_the_host_twice_keeps_the_latest_answer() {
    let mut mapping = PortMapping::new();
    let first = mapping.set_available_ui_port_for_app(id("app-x"));
    let second = mapping.set_available_ui_port_for_app(id("app-x"));
    match (first, second) {
        (_, Ok((latest, _))) => {
            assert_eq!(mapping.get_ui_port_for_app(&id("app-x")), Some(latest));
            assert_eq!(mapping, PortMapping::from_pairs(pairs(&[("app-x", latest)])));
        }
        (Ok((earlier, _)), Err(PortMappingError::NoPortsAvailable)) => {
            assert_eq!(mapping.get_ui_port_for_app(&id("app-x")), Some(earlier));
        }
        (Err(PortMappingError::NoPortsAvailable), Err(PortMappingError::NoPortsAvailable)) => {
            assert_eq!(mapping.get_ui_port_for_app(&id("app-x")), None);
        }
        (first, second) => panic!("the host cannot cause {:?} and {:?}", first, second),
    }
}

#[test]
fn removed_application_has_no_port() {
    let mut mapping = PortMapping::from_pairs(pairs(&[("editor", 15000), ("viewer", 15001)]));
    let outcome = mapping.remove_app_from_mapping(id("editor"));
    assert_eq!(outcome, Ok(id("viewer: 15001\n")));
    assert_eq!(mapping.get_ui_port_for_app(&id("editor")), None);
    assert_eq!(mapping.get_ui_port_for_app(&id("viewer")), Some(15001));
}

#[test]
fn removing_an_unknown_application_changes_nothing() {
    let mut mapping = PortMapping::from_pairs(pairs(&[("viewer", 15001)]));
    let outcome = mapping.remove_app_from_mapping(id("app-x"));
    assert_eq!(outcome, Ok(id("viewer: 15001\n")));
    assert_eq!(mapping, PortMapping::from_pairs(pairs(&[("viewer", 15001)])));
}

#[test]
fn removing_twice_is_as_good_as_once() {
    let mut mapping = PortMapping::from_pairs(pairs(&[("app-x", 15000), ("viewer", 15001)]));
    let first = mapping.remove_app_from_mapping(id("app-x"));
    let second = mapping.remove_app_from_mapping(id("app-x"));
    assert_eq!(first, Ok(id("viewer: 15001\n")));
    assert_eq!(second, first);
    assert_eq!(mapping, PortMapping::from_pairs(pairs(&[("viewer", 15001)])));
}

#[test]
fn removing_from_the_empty_mapping_succeeds() {
    let mut mapping = PortMapping::new();
    assert_eq!(mapping.remove_app_from_mapping(id("app-x")), Ok(id("{}\n")));
    assert_eq!(mapping, PortMapping::new());
}

#[test]
fn removing_the_last_application_empties_the_mapping() {
    let mut mapping = PortMapping::from_pairs(pairs(&[("editor", 15000)]));
    assert_eq!(mapping.remove_app_from_mapping(id("editor")), Ok(id("{}\n")));
    assert_eq!(mapping, PortMapping::new());
}

#[test]
fn removing_one_of_many_keeps_the_rest() {
    let mut mapping = PortMapping::from_pairs(pairs(&[("a", 1), ("b", 2), ("c", 3), ("d", 4)]));
    assert_eq!(mapping.remove_app_from_mapping(id("b")), Ok(id("a: 1\nc: 3\nd: 4\n")));
    assert_eq!(mapping.get_ui_port_for_app(&id("a")), Some(1));
    assert_eq!(mapping.get_ui_port_for_app(&id("b")), None);
    assert_eq!(mapping.get_ui_port_for_app(&id("c")), Some(3));
    assert_eq!(mapping.get_ui_port_for_app(&id("d")), Some(4));
    assert!(mapping.remove_app_from_mapping(id("d")).is_ok());
    assert!(mapping.remove_app_from_mapping(id("a")).is_ok());
    assert_eq!(mapping, PortMapping::from_pairs(pairs(&[("c", 3)])));
}

#[test]
fn pairs_give_each_identifier_its_port() {
    let mapping = PortMapping::from_pairs(pairs(&[("app-one", 51423), ("app-two", 51800)]));
    assert_eq!(mapping.get_ui_port_for_app(&id("app-one")), Some(51423));
    assert_eq!(mapping.get_ui_port_for_app(&id("app-two")), Some(51800));
    assert_eq!(mapping.get_ui_port_for_app(&id("app-three")), None);
}

#[test]
fn last_pair_of_an_identifier_counts() {
    let mapping = PortMapping::from_pairs(pairs(&[("a", 1), ("b", 2), ("a", 3)]));
    assert_eq!(mapping.get_ui_port_for_app(&id("a")), Some(3));
    assert_eq!(mapping.get_ui_port_for_app(&id("b")), Some(2));
    assert_eq!(mapping, PortMapping::from_pairs(pairs(&[("b", 2), ("a", 3)])));
}

#[test]
fn no_pairs_give_the_empty_mapping() {
    assert_eq!(PortMapping::from_pairs(Vec::new()), PortMapping::new());
}

#[test]
fn identifiers_are_compared_exactly() {
    let mapping = PortMapping::from_pairs(pairs(&[("Editor", 1), ("editor", 2), ("editor ", 3)]));
    assert_eq!(mapping.get_ui_port_for_app(&id("Editor")), Some(1));
    assert_eq!(mapping.get_ui_port_for_app(&id("editor")), Some(2));
    assert_eq!(mapping.get_ui_port_for_app(&id("editor ")), Some(3));
    assert_eq!(mapping.get_ui_port_for_app(&id("EDITOR")), None);
}

#[test]
fn identifiers_that_begin_alike_are_kept_apart() {
    let mut mapping = PortMapping::new();
    for (name, port) in [("ab", 2002), ("a", 2001), ("abc", 2003), ("", 2000), ("b", 2004)] {
        assert!(mapping.assign_port(id(name), Some(port)).is_ok());
    }
    assert_eq!(
        mapping.write_port_mapping(),
        Ok(id("'': 2000\na: 2001\nab: 2002\nabc: 2003\nb: 2004\n"))
    );
    assert_eq!(mapping.get_ui_port_for_app(&id("")), Some(2000));
    assert_eq!(mapping.get_ui_port_for_app(&id("a")), Some(2001));
    assert_eq!(mapping.get_ui_port_for_app(&id("ab")), Some(2002));
    assert_eq!(mapping.get_ui_port_for_app(&id("abc")), Some(2003));
    assert_eq!(mapping.get_ui_port_for_app(&id("b")), Some(2004));
    assert_eq!(mapping.get_ui_port_for_app(&id("abcd")), None);
    assert_eq!(
        mapping,
        PortMapping::from_pairs(pairs(&[
            ("", 2000),
            ("a", 2001),
            ("ab", 2002),
            ("abc", 2003),
            ("b", 2004)
        ]))
    );
}

#[test]
fn equal_mappings_hold_the_same_pairs_in_any_order() {
    let one = PortMapping::from_pairs(pairs(&[("a", 1), ("b", 2), ("c", 3)]));
    let other = PortMapping::from_pairs(pairs(&[("c", 3), ("a", 1), ("b", 2)]));
    assert_eq!(one, other);
    assert_eq!(other, one);
}

#[test]
fn mappings_with_another_port_differ() {
    let one = PortMapping::from_pairs(pairs(&[("a", 1), ("b", 2)]));
    let other = PortMapping::from_pairs(pairs(&[("a", 1), ("b", 3)]));
    assert_ne!(one, other);
}

#[test]
fn mappings_with_another_identifier_differ() {
    let one = PortMapping::from_pairs(pairs(&[("a", 1), ("b", 2)]));
    let other = PortMapping::from_pairs(pairs(&[("a", 1), ("c", 2)]));
    assert_ne!(one, other);
}

#[test]
fn a_mapping_differs_from_a_part_of_it() {
    let whole = PortMapping::from_pairs(pairs(&[("a", 1), ("b", 2)]));
    let part = PortMapping::from_pairs(pairs(&[("a", 1)]));
    assert_ne!(whole, part);
    assert_ne!(part, whole);
    assert_ne!(part, PortMapping::new());
}
