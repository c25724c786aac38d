use cf_access_sidecar::validation::service_auth::{
    build_header_map, MappingError, ServiceAuthTokenHeaderMap,
};

fn pairs(items: &[(&str, &str)]) -> Vec<(String, String)> {
    items.iter().map(|(k, v)| (k.to_string(), v.to_string())).collect()
}

#[test]
fn empty_table_knows_no_token() {
    let table = ServiceAuthTokenHeaderMap::empty();
    assert!(table.get_header_map_for_token("svc.access").is_none());
}

#[test]
fn table_from_yaml_text_holds_the_headers_of_each_token() {
    let text = "svc.access:\n  X-Role: robot\n  X-Team-Id: platform\nother.access:\n  X-Role: batch\n";
    let table = ServiceAuthTokenHeaderMap::from_mapping_text(text).unwrap();
    let first = table.get_header_map_for_token("svc.access").unwrap();
    assert_eq!(first.len(), 2);
    assert_eq!(first.get("x-role").unwrap(), "robot");
    assert_eq!(first.get("x-team-id").unwrap(), "platform");
    let second = table.get_header_map_for_token("other.access").unwrap();
    assert_eq!(second.len(), 1);
    assert_eq!(second.get("x-role").unwrap(), "batch");
    assert!(table.get_header_map_for_token("unknown").is_none());
}

#[test]
fn empty_yaml_mapping_gives_an_empty_table() {
    let table = ServiceAuthTokenHeaderMap::from_mapping_text("{}").unwrap();
    assert!(table.get_header_map_for_token("svc.access").is_none());
}

#[test]
fn token_without_headers_is_known_with_an_empty_map() {
    let table = ServiceAuthTokenHeaderMap::from_mapping_text("svc.access: {}\n").unwrap();
    assert!(table.get_header_map_for_token("svc.access").unwrap().is_empty());
}

#[test]
fn text_that_is_no_mapping_is_invalid_yaml() {
    assert!(matches!(
        ServiceAuthTokenHeaderMap::from_mapping_text("- just\n- a list\n"),
        Err(MappingError::InvalidYaml(_))
    ));
    assert!(matches!(
        ServiceAuthTokenHeaderMap::from_mapping_text("svc.access: [1, 2]\n"),
        Err(MappingError::InvalidYaml(_))
    ));
    assert!(matches!(
        ServiceAuthTokenHeaderMap::from_mapping_text("a: {b: c"),
        Err(MappingError::InvalidYaml(_))
    ));
}

fn error_of(built: Result<ServiceAuthTokenHeaderMap, MappingError>) -> MappingError {
    match built {
        Ok(_) => panic!("the mapping was taken"),
        Err(e) => e,
    }
}

#[test]
fn invalid_yaml_is_reported_with_what_the_parser_said() {
    let error = error_of(ServiceAuthTokenHeaderMap::from_mapping_text("- just\n- a list\n"));
    let message = error.message();
    assert!(message.starts_with("Failed to deserialize YAML: "));
    assert!(message.len() > "Failed to deserialize YAML: ".len());
}

#[test]
fn illegal_header_key_is_reported_by_name_and_no_table_is_made() {
    let text = "svc-1:\n  X-Ok: a\nsvc-2:\n  \"bad name\": b\n";
    let error = error_of(ServiceAuthTokenHeaderMap::from_mapping_text(text));
    assert_eq!(error, MappingError::InvalidHeaderName("bad name".to_string()));
    assert_eq!(
        error.message(),
        "Failed to parse header key 'bad name': invalid HTTP header name"
    );
}

#[test]
fn illegal_header_value_is_reported_by_value() {
    let error = error_of(ServiceAuthTokenHeaderMap::from_mapping_text(
        "svc.access:\n  X-Role: \"a\\nb\"\n",
    ));
    assert_eq!(error, MappingError::InvalidHeaderValue("a\nb".to_string()));
    assert_eq!(
        error.message(),
        "Failed to parse header value 'a\nb': failed to parse header value"
    );
}

#[test]
fn full_map_is_reported() {
    assert_eq!(
        MappingError::TooManyHeaders.message(),
        "Failed to build header map: max size reached"
    );
}

#[test]
fn mapping_below_the_room_of_a_header_map_always_gets_its_table() {
    let many: Vec<(String, String)> =
        (0..6553).map(|i| (format!("x-{}", i), "v".to_string())).collect();
    assert_eq!(build_header_map(&many).unwrap().len(), 6553);
    let raw = vec![("a".to_string(), many.clone()), ("b".to_string(), many)];
    let table = ServiceAuthTokenHeaderMap::from_raw_mapping(&raw).unwrap();
    assert_eq!(table.get_header_map_for_token("a").unwrap().len(), 6553);
    assert_eq!(table.get_header_map_for_token("b").unwrap().len(), 6553);
}

#[test]
fn table_of_the_two_headers_of_one_token() {
    let table =
        ServiceAuthTokenHeaderMap::from_mapping_text("svc-1:\n  X-Team-Id: ops\n  X-Role: bot\n")
            .unwrap();
    let headers = table.get_header_map_for_token("svc-1").unwrap();
    assert_eq!(headers.len(), 2);
    assert_eq!(headers.get("x-team-id").unwrap(), "ops");
    assert_eq!(headers.get("x-role").unwrap(), "bot");
    assert!(table.get_header_map_for_token("svc-2").is_none());
}

#[test]
fn illegal_header_name_in_yaml_is_refused() {
    assert!(matches!(
        ServiceAuthTokenHeaderMap::from_mapping_text("svc.access:\n  \"X Role\": robot\n"),
        Err(MappingError::InvalidHeaderName(_))
    ));
}

#[test]
fn illegal_header_value_in_yaml_is_refused() {
    assert!(matches!(
        ServiceAuthTokenHeaderMap::from_mapping_text("svc.access:\n  X-Role: \"a\\nb\"\n"),
        Err(MappingError::InvalidHeaderValue(_))
    ));
}

#[test]
fn raw_mapping_is_refused_for_its_first_bad_entry() {
    let raw = vec![
        ("a".to_string(), pairs(&[("X-Ok", "1"), ("X-Bad", "\u{1}")])),
        ("b".to_string(), pairs(&[("bad name", "1")])),
    ];
    assert!(matches!(
        ServiceAuthTokenHeaderMap::from_raw_mapping(&raw),
        Err(MappingError::InvalidHeaderValue(_))
    ));
    let raw = vec![
        ("a".to_string(), pairs(&[("bad name", "\u{1}")])),
    ];
    assert!(matches!(
        ServiceAuthTokenHeaderMap::from_raw_mapping(&raw),
        Err(MappingError::InvalidHeaderName(_))
    ));
}

#[test]
fn later_entry_of_the_same_token_replaces_the_earlier_one() {
    let raw = vec![
        ("a".to_string(), pairs(&[("X-One", "1")])),
        ("a".to_string(), pairs(&[("X-Two", "2")])),
    ];
    let table = ServiceAuthTokenHeaderMap::from_raw_mapping(&raw).unwrap();
    let headers = table.get_header_map_for_token("a").unwrap();
    assert_eq!(headers.len(), 1);
    assert_eq!(headers.get("x-two").unwrap(), "2");
}

#[test]
fn build_header_map_files_names_in_lower_case_and_last_value_wins() {
    let headers = build_header_map(&pairs(&[("X-A", "1"), ("x-a", "2"), ("X-B", "3")])).unwrap();
    assert_eq!(headers.len(), 2);
    assert_eq!(headers.get("x-a").unwrap(), "2");
    assert_eq!(headers.get("x-b").unwrap(), "3");
}

#[test]
fn build_header_map_gives_up_when_the_map_cannot_grow() {
    let many: Vec<(String, String)> =
        (0..40000).map(|i| (format!("x-{}", i), "v".to_string())).collect();
    assert!(matches!(build_header_map(&many), Err(MappingError::TooManyHeaders)));
    let raw = vec![("a".to_string(), many)];
    assert!(matches!(
        ServiceAuthTokenHeaderMap::from_raw_mapping(&raw),
        Err(MappingError::TooManyHeaders)
    ));
}

#[test]
fn build_header_map_of_nothing_is_empty() {
    assert!(build_header_map(&vec![]).unwrap().is_empty());
}

#[test]
fn build_header_map_reports_each_kind_of_error() {
    assert!(matches!(
        build_header_map(&pairs(&[("", "v")])),
        Err(MappingError::InvalidHeaderName(_))
    ));
    assert!(matches!(
        build_header_map(&pairs(&[("X-A", "\u{7f}")])),
        Err(MappingError::InvalidHeaderValue(_))
    ));
}
