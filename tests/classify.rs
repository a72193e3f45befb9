use last_off::classify::{
    classify, detect_healthcare_risk, detect_todo, marker_in_lowered, risk_in_lowered,
    should_skip_file, skip_lowered_name, tag_in_lowered, Severity, Tag,
};

fn chars(s: &str) -> Vec<char> {
    s.chars().collect()
}

#[test]
fn compliance_wins_over_marker_on_one_line() {
    assert_eq!(classify("TODO: remove the SSN field"), Some(Tag::Ssn));
    assert_eq!(classify("FIXME patient id leaks"), Some(Tag::PatientId));
    assert_eq!(classify("hack around PHI"), Some(Tag::Phi));
    assert_eq!(classify("xxx dob check"), Some(Tag::Dob));
    assert!(classify("todo: ssn").unwrap().is_compliance());
}

#[test]
fn lines_without_keywords_have_no_tag() {
    assert_eq!(classify("nothing to see"), None);
    assert_eq!(classify(""), None);
    assert_eq!(detect_healthcare_risk("plain text"), None);
    assert_eq!(detect_todo("plain text"), None);
}

#[test]
fn compliance_table_order() {
    assert_eq!(risk_in_lowered(&chars("social security and mrn")), Some(Tag::Ssn));
    assert_eq!(risk_in_lowered(&chars("mrn and phi")), Some(Tag::PatientId));
    assert_eq!(risk_in_lowered(&chars("patient_id")), Some(Tag::PatientId));
    assert_eq!(risk_in_lowered(&chars("protected health and date of birth")), Some(Tag::Phi));
    assert_eq!(risk_in_lowered(&chars("date of birth")), Some(Tag::Dob));
    assert_eq!(risk_in_lowered(&chars("todo")), None);
}

#[test]
fn marker_table_order() {
    assert_eq!(marker_in_lowered(&chars("todo fixme")), Some(Tag::Fixme));
    assert_eq!(marker_in_lowered(&chars("todo xxx")), Some(Tag::Todo));
    assert_eq!(marker_in_lowered(&chars("xxx hack")), Some(Tag::Xxx));
    assert_eq!(marker_in_lowered(&chars("a hack")), Some(Tag::Hack));
    assert_eq!(marker_in_lowered(&chars("nothing")), None);
    assert_eq!(tag_in_lowered(&chars("fixme ssn")), Some(Tag::Ssn));
}

#[test]
fn lowered_tables_are_case_sensitive() {
    assert_eq!(tag_in_lowered(&chars("SSN")), None);
}

#[test]
fn matching_ignores_case() {
    assert_eq!(classify("Social Security Number"), Some(Tag::Ssn));
    assert_eq!(detect_healthcare_risk("MRN: 123"), Some(Tag::PatientId));
    assert_eq!(detect_todo("FixMe later"), Some(Tag::Fixme));
    assert_eq!(detect_todo("TODO"), Some(Tag::Todo));
}

#[test]
fn severities() {
    assert_eq!(Tag::Ssn.severity(), Severity::Critical);
    assert_eq!(Tag::PatientId.severity(), Severity::Critical);
    assert_eq!(Tag::Phi.severity(), Severity::Warning);
    assert_eq!(Tag::Dob.severity(), Severity::Warning);
    assert_eq!(Tag::Todo.severity(), Severity::Marker);
    assert!(!Tag::Hack.is_compliance());
}

#[test]
fn skipped_file_names() {
    assert!(should_skip_file("photo.PNG"));
    assert!(should_skip_file("scan.jpg"));
    assert!(should_skip_file("Report.Pdf"));
    assert!(should_skip_file("bundle.zip"));
    assert!(should_skip_file("target-report.txt"));
    assert!(should_skip_file("my_node_modules_list.txt"));
    assert!(should_skip_file("TARGET.md"));
    assert!(!should_skip_file("main.rs"));
    assert!(!should_skip_file("png.txt"));
    assert!(skip_lowered_name(&chars("a.zip")));
    assert!(!skip_lowered_name(&chars("a.ZIP")));
}
