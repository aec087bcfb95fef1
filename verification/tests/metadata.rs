use jet_semantics::attributes::{
    UnprocessedMetadata, UnprocessedMetadataEntry, UnprocessedMetadataValue,
};
use jet_semantics::compilation_unit::CompilationUnit;
use jet_semantics::diagnostics::DiagnosticKind;
use jet_semantics::location::Location;
use jet_semantics::metadata::{
    resolve_metadata_file_path, LoadedFile, MetadataEnv, MetadataValue,
};

fn loc(first: usize, last: usize) -> Location {
    Location { compilation_unit: 0, first_offset: first, last_offset: last }
}

fn env_with(files: Vec<LoadedFile>) -> MetadataEnv {
    MetadataEnv { output_directory: "out".to_string(), files }
}

fn number_value(text: &str) -> UnprocessedMetadataValue {
    UnprocessedMetadataValue::Number((text.to_string(), loc(0, text.len())))
}

#[test]
fn numeric_value_resolves_to_double() {
    let mut unit = CompilationUnit::new(None, String::new());
    let env = env_with(vec![]);
    let r = number_value("3.14").process(&env, &mut unit);
    match r {
        Ok(MetadataValue::Number(bits)) => assert_eq!(f64::from_bits(bits), 3.14),
        _ => panic!("expected a resolved number"),
    }
    assert_eq!(unit.error_count(), 0);
}

#[test]
fn negative_numeric_value_resolves_to_negative_double() {
    let mut unit = CompilationUnit::new(None, String::new());
    let env = env_with(vec![]);
    let r = number_value("-2").process(&env, &mut unit);
    match r {
        Ok(MetadataValue::Number(bits)) => assert_eq!(f64::from_bits(bits), -2.0),
        _ => panic!("expected a resolved number"),
    }
}

#[test]
fn more_numeric_values_match_the_platform_parser() {
    for text in ["0", "0.5", "1e3", "-12.75", "2.5E-2", "123456789.25"] {
        let mut unit = CompilationUnit::new(None, String::new());
        let env = env_with(vec![]);
        let r = number_value(text).process(&env, &mut unit);
        match r {
            Ok(MetadataValue::Number(bits)) => {
                let expected: f64 = text.parse().unwrap();
                assert_eq!(f64::from_bits(bits), expected, "text {}", text);
            }
            _ => panic!("expected a resolved number for {}", text),
        }
    }
}

#[test]
fn malformed_numeric_value_records_diagnostic() {
    let mut unit = CompilationUnit::new(None, String::new());
    let env = env_with(vec![]);
    let r = number_value("abc").process(&env, &mut unit);
    assert!(r.is_err());
    assert_eq!(unit.error_count(), 1);
    assert!(unit.invalidated());
    let diags = unit.diagnostics();
    assert_eq!(diags.len(), 1);
    assert!(matches!(diags[0].kind, DiagnosticKind::FailedParsingNumericLiteral));
    assert!(!diags[0].warning);
}

#[test]
fn strings_booleans_pass_through() {
    let mut unit = CompilationUnit::new(None, String::new());
    let env = env_with(vec![]);
    let r = UnprocessedMetadataValue::String(("hello".to_string(), loc(0, 5)))
        .process(&env, &mut unit);
    assert!(matches!(r, Ok(MetadataValue::String(s)) if s == "hello"));
    let r = UnprocessedMetadataValue::IdentifierString(("ident".to_string(), loc(0, 5)))
        .process(&env, &mut unit);
    assert!(matches!(r, Ok(MetadataValue::String(s)) if s == "ident"));
    let r = UnprocessedMetadataValue::Boolean((true, loc(0, 4))).process(&env, &mut unit);
    assert!(matches!(r, Ok(MetadataValue::Boolean(true))));
    assert_eq!(unit.error_count(), 0);
}

#[test]
fn output_and_source_relative_paths() {
    assert_eq!(
        resolve_metadata_file_path(true, "data.bin", "out", "src/a.jet"),
        "out/data.bin"
    );
    assert_eq!(
        resolve_metadata_file_path(false, "data.bin", "out", "src/a.jet"),
        "src/data.bin"
    );
    assert_eq!(
        resolve_metadata_file_path(false, "../data.bin", "out", "src/a.jet"),
        "data.bin"
    );
}

#[test]
fn file_value_resolves_beside_the_source() {
    let mut unit = CompilationUnit::new(Some("src/a.jet".to_string()), String::new());
    let env = env_with(vec![LoadedFile {
        path: "src/data.bin".to_string(),
        data: vec![1, 2, 3],
    }]);
    let v = UnprocessedMetadataValue::File {
        location: loc(0, 10),
        output: false,
        file_path: ("data.bin".to_string(), loc(1, 9)),
    };
    match v.process(&env, &mut unit) {
        Ok(MetadataValue::File { filename, data }) => {
            assert_eq!(filename, "data.bin");
            assert_eq!(data, vec![1, 2, 3]);
        }
        _ => panic!("expected a resolved file"),
    }
    assert_eq!(unit.error_count(), 0);
}

#[test]
fn unreadable_file_records_diagnostic_with_path() {
    let mut unit = CompilationUnit::new(Some("src/a.jet".to_string()), String::new());
    let env = env_with(vec![]);
    let v = UnprocessedMetadataValue::File {
        location: loc(0, 10),
        output: true,
        file_path: ("missing.bin".to_string(), loc(1, 9)),
    };
    assert!(v.process(&env, &mut unit).is_err());
    let diags = unit.diagnostics();
    assert_eq!(diags.len(), 1);
    assert!(matches!(diags[0].kind, DiagnosticKind::FailedLoadingMetadataFile));
    assert_eq!(diags[0].arguments, vec!["out/missing.bin".to_string()]);
}

fn entry(value: UnprocessedMetadataValue) -> UnprocessedMetadataEntry {
    UnprocessedMetadataEntry { location: loc(0, 1), key: None, value }
}

#[test]
fn list_resolution_tolerates_one_bad_entry() {
    // three entries; the second names an unreadable file
    let mut unit = CompilationUnit::new(Some("src/a.jet".to_string()), String::new());
    let env = env_with(vec![]);
    let v = UnprocessedMetadataValue::List((
        vec![
            entry(UnprocessedMetadataValue::Boolean((true, loc(0, 4)))),
            entry(UnprocessedMetadataValue::File {
                location: loc(5, 15),
                output: false,
                file_path: ("gone.bin".to_string(), loc(6, 14)),
            }),
            entry(UnprocessedMetadataValue::String(("third".to_string(), loc(16, 21)))),
        ],
        loc(0, 22),
    ));
    match v.process(&env, &mut unit) {
        Ok(MetadataValue::List(entries)) => {
            assert_eq!(entries.len(), 2);
            assert!(matches!(entries[0].value, MetadataValue::Boolean(true)));
            assert!(matches!(&entries[1].value, MetadataValue::String(s) if s == "third"));
        }
        _ => panic!("expected a resolved list"),
    }
    let diags = unit.diagnostics();
    assert_eq!(diags.len(), 1);
    assert!(matches!(diags[0].kind, DiagnosticKind::FailedLoadingMetadataFile));
    assert_eq!(unit.error_count(), 1);
}

#[test]
fn metadata_resolution_keeps_name_keys_and_is_repeatable() {
    let mut unit = CompilationUnit::new(None, String::new());
    let env = env_with(vec![]);
    let m = UnprocessedMetadata {
        id: 1,
        location: loc(0, 30),
        name: ("Config".to_string(), loc(1, 7)),
        entries: Some(vec![
            UnprocessedMetadataEntry {
                location: loc(8, 15),
                key: Some(("mode".to_string(), loc(8, 12))),
                value: UnprocessedMetadataValue::IdentifierString((
                    "fast".to_string(),
                    loc(13, 17),
                )),
            },
            entry(number_value("7")),
        ]),
    };
    let first = m.process(&env, &mut unit);
    assert_eq!(first.name, "Config");
    assert_eq!(first.entries.len(), 2);
    assert_eq!(first.entries[0].key.as_deref(), Some("mode"));
    assert!(matches!(&first.entries[0].value, MetadataValue::String(s) if s == "fast"));
    assert!(matches!(first.entries[1].value, MetadataValue::Number(b) if f64::from_bits(b) == 7.0));
    // resolution does not consume the raw form; a second pass gives the same result
    let second = m.process(&env, &mut unit);
    assert_eq!(second.name, "Config");
    assert_eq!(second.entries.len(), 2);
    assert_eq!(unit.error_count(), 0);
}

#[test]
fn metadata_without_entries_resolves_to_empty() {
    let mut unit = CompilationUnit::new(None, String::new());
    let env = env_with(vec![]);
    let m = UnprocessedMetadata {
        id: 1,
        location: loc(0, 6),
        name: ("Marker".to_string(), loc(0, 6)),
        entries: None,
    };
    let r = m.process(&env, &mut unit);
    assert_eq!(r.name, "Marker");
    assert!(r.entries.is_empty());
}

#[test]
fn value_location_of_each_variant() {
    assert_eq!(number_value("1").location(), loc(0, 1));
    assert_eq!(
        UnprocessedMetadataValue::Boolean((false, loc(2, 7))).location(),
        loc(2, 7)
    );
    assert_eq!(
        UnprocessedMetadataValue::File {
            location: loc(3, 9),
            output: false,
            file_path: ("x".to_string(), loc(4, 5)),
        }
        .location(),
        loc(3, 9)
    );
    assert_eq!(
        UnprocessedMetadataValue::List((vec![], loc(1, 2))).location(),
        loc(1, 2)
    );
}
