use last_off::classify::Tag;
use last_off::scan::{scan_files, Finding, SourceFile, MAX_DEPTH};

fn file(path: &str, depth: usize, content: &str) -> SourceFile {
    let name = path.rsplit('/').next().unwrap().to_string();
    SourceFile {
        path: path.to_string(),
        name,
        depth,
        is_file: true,
        content: Some(content.to_string()),
    }
}

fn key(f: &Finding) -> (usize, String, usize, Tag, String) {
    (f.id, f.file_path.clone(), f.line_number, f.tag, f.text.clone())
}

#[test]
fn notes_file_gives_two_findings() {
    let files = vec![file("./notes.txt", 1, "TODO: refactor\nPatient SSN here\nnothing")];
    let r = scan_files(&files, MAX_DEPTH);
    assert_eq!(r.len(), 2);
    assert_eq!(r[0].id, 1);
    assert_eq!(r[0].line_number, 1);
    assert_eq!(r[0].tag, Tag::Todo);
    assert_eq!(r[0].text, "TODO: refactor");
    assert_eq!(r[1].id, 2);
    assert_eq!(r[1].line_number, 2);
    assert_eq!(r[1].tag, Tag::Ssn);
    assert_eq!(r[1].text, "Patient SSN here");
    assert_eq!(r[1].file_path, "./notes.txt");
}

#[test]
fn ids_are_dense_across_files() {
    let files = vec![
        file("a.rs", 1, "// todo\nx\n// hack"),
        file("b.rs", 2, "nothing"),
        file("c.rs", 1, "dob\n\n  fixme  \r\n"),
    ];
    let r = scan_files(&files, MAX_DEPTH);
    let ids: Vec<usize> = r.iter().map(|f| f.id).collect();
    assert_eq!(ids, vec![1, 2, 3, 4]);
    assert_eq!(r[2].file_path, "c.rs");
    assert_eq!(r[3].line_number, 3);
    assert_eq!(r[3].text, "fixme");
}

#[test]
fn skipped_names_contribute_nothing() {
    let files = vec![
        file("x/image.PNG", 1, "ssn ssn"),
        file("x/target-notes.txt", 1, "todo"),
        file("x/node_modules.txt", 1, "todo"),
        file("x/archive.zip", 1, "todo"),
        file("x/doc.pdf", 1, "todo"),
        file("x/pic.jpg", 1, "todo"),
    ];
    assert!(scan_files(&files, MAX_DEPTH).is_empty());
}

#[test]
fn entries_below_the_depth_bound_contribute_nothing() {
    let files = vec![file("a/b/c/d/deep.txt", 4, "todo"), file("a/b/c/ok.txt", 3, "todo")];
    let r = scan_files(&files, MAX_DEPTH);
    assert_eq!(r.len(), 1);
    assert_eq!(r[0].file_path, "a/b/c/ok.txt");
    assert_eq!(r[0].id, 1);
}

#[test]
fn unreadable_files_and_directories_are_passed_over() {
    let mut dir = file("src", 1, "todo");
    dir.is_file = false;
    let mut unreadable = file("blob.bin", 1, "");
    unreadable.content = None;
    let files = vec![dir, unreadable, file("z.txt", 1, "hack")];
    let r = scan_files(&files, MAX_DEPTH);
    assert_eq!(r.len(), 1);
    assert_eq!(r[0].tag, Tag::Hack);
}

#[test]
fn unmatched_lines_give_no_findings() {
    let r = scan_files(&vec![file("a.txt", 1, "one\ntwo\nthree")], MAX_DEPTH);
    assert!(r.is_empty());
}

#[test]
fn scanning_twice_gives_the_same_findings() {
    let files = vec![
        file("a.rs", 1, "todo\nMRN\nxxx"),
        file("b.rs", 2, "Date of Birth\nfine"),
    ];
    let first: Vec<_> = scan_files(&files, MAX_DEPTH).iter().map(key).collect();
    let second: Vec<_> = scan_files(&files, MAX_DEPTH).iter().map(key).collect();
    assert_eq!(first, second);
    assert_eq!(first.len(), 4);
}

#[test]
fn trailing_newline_adds_no_line() {
    let r = scan_files(&vec![file("t.txt", 0, "todo\n")], MAX_DEPTH);
    assert_eq!(r.len(), 1);
    let r = scan_files(&vec![file("t.txt", 0, "\n\ntodo")], MAX_DEPTH);
    assert_eq!(r[0].line_number, 3);
}
