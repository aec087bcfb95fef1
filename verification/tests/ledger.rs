use jet_semantics::compilation_unit::CompilationUnit;
use jet_semantics::diagnostics::{Diagnostic, DiagnosticKind};
use jet_semantics::location::{Comment, Location};

fn loc(first: usize, last: usize) -> Location {
    Location { compilation_unit: 0, first_offset: first, last_offset: last }
}

fn diag(first: usize, kind: DiagnosticKind, warning: bool) -> Diagnostic {
    Diagnostic { location: loc(first, first + 1), kind, warning, arguments: vec![] }
}

#[test]
fn counts_add_up_and_errors_invalidate() {
    let mut unit = CompilationUnit::new(None, String::new());
    assert_eq!(unit.error_count(), 0);
    assert_eq!(unit.warning_count(), 0);
    assert!(!unit.invalidated());
    unit.add_diagnostic(diag(0, DiagnosticKind::Expected, false));
    unit.add_diagnostic(diag(5, DiagnosticKind::UnexpectedEnd, true));
    unit.add_diagnostic(diag(9, DiagnosticKind::NotAllowedHere, false));
    assert_eq!(unit.error_count(), 2);
    assert_eq!(unit.warning_count(), 1);
    assert_eq!(unit.error_count() + unit.warning_count(), unit.diagnostics().len());
    assert!(unit.invalidated());
}

#[test]
fn warnings_alone_do_not_invalidate() {
    let mut unit = CompilationUnit::new(None, String::new());
    unit.add_diagnostic(diag(0, DiagnosticKind::UnexpectedEnd, true));
    unit.add_diagnostic(diag(3, DiagnosticKind::UnexpectedEnd, true));
    assert_eq!(unit.warning_count(), 2);
    assert_eq!(unit.error_count(), 0);
    assert!(!unit.invalidated());
}

#[test]
fn diagnostics_returns_a_snapshot() {
    let mut unit = CompilationUnit::new(None, String::new());
    unit.add_diagnostic(diag(2, DiagnosticKind::Expected, false));
    let snapshot = unit.diagnostics();
    unit.add_diagnostic(diag(4, DiagnosticKind::Expected, false));
    assert_eq!(snapshot.len(), 1);
    assert_eq!(unit.diagnostics().len(), 2);
    assert_eq!(snapshot[0].location, loc(2, 3));
}

#[test]
fn sort_orders_by_location_then_kind() {
    let mut unit = CompilationUnit::new(None, String::new());
    unit.add_diagnostic(diag(9, DiagnosticKind::UnexpectedEnd, false));
    unit.add_diagnostic(diag(0, DiagnosticKind::NotAllowedHere, false));
    unit.add_diagnostic(diag(0, DiagnosticKind::Expected, false));
    unit.sort_diagnostics();
    let diags = unit.diagnostics();
    assert_eq!(diags.len(), 3);
    assert_eq!(diags[0].location, loc(0, 1));
    assert!(matches!(diags[0].kind, DiagnosticKind::Expected));
    assert!(matches!(diags[1].kind, DiagnosticKind::NotAllowedHere));
    assert_eq!(diags[2].location, loc(9, 10));
    // counts and the invalidation flag survive sorting
    assert_eq!(unit.error_count(), 3);
    assert!(unit.invalidated());
}

#[test]
fn sort_breaks_ties_on_severity_and_arguments() {
    let mut unit = CompilationUnit::new(None, String::new());
    // same location and kind throughout: severity, then arguments decide
    unit.add_diagnostic(Diagnostic {
        location: loc(4, 5),
        kind: DiagnosticKind::Expected,
        warning: true,
        arguments: vec![],
    });
    unit.add_diagnostic(Diagnostic {
        location: loc(4, 5),
        kind: DiagnosticKind::Expected,
        warning: false,
        arguments: vec!["beta".to_string()],
    });
    unit.add_diagnostic(Diagnostic {
        location: loc(4, 5),
        kind: DiagnosticKind::Expected,
        warning: false,
        arguments: vec!["alpha".to_string()],
    });
    unit.sort_diagnostics();
    let diags = unit.diagnostics();
    assert_eq!(diags[0].arguments, vec!["alpha".to_string()]);
    assert!(!diags[0].warning);
    assert_eq!(diags[1].arguments, vec!["beta".to_string()]);
    assert!(diags[2].warning);
}

#[test]
fn sort_orders_units_before_offsets() {
    let mut unit = CompilationUnit::new(None, String::new());
    unit.add_diagnostic(Diagnostic {
        location: Location { compilation_unit: 2, first_offset: 0, last_offset: 1 },
        kind: DiagnosticKind::Expected,
        warning: false,
        arguments: vec![],
    });
    unit.add_diagnostic(Diagnostic {
        location: Location { compilation_unit: 1, first_offset: 9, last_offset: 10 },
        kind: DiagnosticKind::Expected,
        warning: false,
        arguments: vec![],
    });
    unit.sort_diagnostics();
    let diags = unit.diagnostics();
    assert_eq!(diags[0].location.compilation_unit, 1);
    assert_eq!(diags[1].location.compilation_unit, 2);
}

#[test]
fn sorting_twice_changes_nothing() {
    let mut unit = CompilationUnit::new(None, String::new());
    unit.add_diagnostic(diag(9, DiagnosticKind::UnexpectedEnd, false));
    unit.add_diagnostic(diag(0, DiagnosticKind::NotAllowedHere, true));
    unit.add_diagnostic(diag(0, DiagnosticKind::NotAllowedHere, false));
    unit.sort_diagnostics();
    let once = unit.diagnostics();
    unit.sort_diagnostics();
    let twice = unit.diagnostics();
    assert_eq!(once.len(), twice.len());
    for (a, b) in once.iter().zip(twice.iter()) {
        assert_eq!(a.location, b.location);
        assert!(a.kind == b.kind);
        assert_eq!(a.warning, b.warning);
        assert_eq!(a.arguments, b.arguments);
    }
}

#[test]
fn text_and_file_path_are_kept() {
    let unit = CompilationUnit::new(Some("a/b.jet".to_string()), "let x;".to_string());
    assert_eq!(unit.file_path(), Some("a/b.jet".to_string()));
    assert_eq!(unit.text(), "let x;");
    let pathless = CompilationUnit::new(None, String::new());
    assert_eq!(pathless.file_path(), None);
}

#[test]
fn default_unit_is_empty() {
    let unit = CompilationUnit::default();
    assert_eq!(unit.file_path(), None);
    assert_eq!(unit.text(), "");
    assert_eq!(unit.diagnostics().len(), 0);
    assert!(!unit.invalidated());
}

#[test]
fn comments_snapshot_and_mutation() {
    let mut unit = CompilationUnit::new(None, String::new());
    assert!(unit.comments().is_empty());
    unit.comments_mut().push(Comment {
        multiline: false,
        content: " note".to_string(),
        location: loc(0, 7),
    });
    let snapshot = unit.comments();
    assert_eq!(snapshot.len(), 1);
    assert_eq!(snapshot[0].content, " note");
    assert!(!snapshot[0].multiline);
}

#[test]
fn line_lookup_follows_the_source_text() {
    let unit = CompilationUnit::new(None, "foo\r\nbar\r\nqux".to_string());
    assert_eq!(unit.get_line_number(0), 1);
    assert_eq!(unit.get_line_number(5), 2);
    assert_eq!(unit.get_line_offset(2), Some(5));
    assert_eq!(unit.get_line_offset(9), None);
    assert_eq!(unit.get_line_offset_from_offset(7), 5);
    assert_eq!(unit.get_column(0), 0);
    assert_eq!(unit.get_column(7), 2);
}

#[test]
fn diagnostic_kind_ids_are_stable() {
    assert_eq!(DiagnosticKind::UnexpectedOrInvalidToken.id(), 1024);
    assert_eq!(DiagnosticKind::UnexpectedEnd.id(), 1025);
    assert_eq!(DiagnosticKind::DuplicateVisibility.id(), 1047);
    // the numbering skips one value between these two kinds
    assert_eq!(DiagnosticKind::UnallowedAttribute.id(), 1049);
    assert_eq!(DiagnosticKind::MalformedEnumMember.id(), 1051);
    assert_eq!(DiagnosticKind::FailedParsingNumericLiteral.id(), 1078);
    assert_eq!(DiagnosticKind::FailedLoadingMetadataFile.id(), 1082);
    assert_eq!(DiagnosticKind::MissingPropertyInLiteral.id(), 1091);
}

#[test]
fn location_character_count() {
    assert_eq!(loc(3, 9).character_count(), 6);
    assert_eq!(loc(4, 4).character_count(), 0);
}
