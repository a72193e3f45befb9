use last_off::classify::Tag;
use last_off::dispatch::{
    direct_command, install_command, launch_command, menu_command, package, step, Action, Availability, Editor,
    Phase,
};
use last_off::scan::Finding;
use last_off::select::{context_lines, context_range, select_item, summarize, Selection};

fn finding(id: usize, tag: Tag) -> Finding {
    Finding { id, file_path: "f.rs".to_string(), line_number: id, tag, text: "x".to_string() }
}

#[test]
fn context_window_is_clamped() {
    assert_eq!(context_range(1, 10), (1, 3));
    assert_eq!(context_range(3, 10), (1, 5));
    assert_eq!(context_range(5, 10), (2, 7));
    assert_eq!(context_range(10, 10), (7, 10));
    assert_eq!(context_range(9, 10), (6, 10));
    assert_eq!(context_range(2, 1), (1, 1));
}

#[test]
fn context_lines_mark_the_target() {
    let content = "l1\nl2\nl3\nl4\nl5\nl6\nl7";
    let r = context_lines(content, 5);
    let numbers: Vec<usize> = r.iter().map(|c| c.number).collect();
    assert_eq!(numbers, vec![2, 3, 4, 5, 6, 7]);
    assert!(r[3].is_target);
    assert!(!r[0].is_target);
    assert_eq!(r[3].text, "l5");
    assert_eq!(r[5].text, "l7");
    assert!(context_lines("", 3).is_empty());
}

#[test]
fn selection_out_of_range() {
    assert_eq!(select_item("0", 3), Selection::OutOfRange);
    assert_eq!(select_item("4", 3), Selection::OutOfRange);
    assert_eq!(select_item("3", 3), Selection::Inspect(2));
    assert_eq!(select_item("1", 3), Selection::Inspect(0));
}

#[test]
fn one_past_the_end_is_out_of_range() {
    for n in [1usize, 7, 12] {
        assert_eq!(select_item(&(n + 1).to_string(), n), Selection::OutOfRange);
        assert_eq!(select_item("0", n), Selection::OutOfRange);
        assert_eq!(select_item(&n.to_string(), n), Selection::Inspect(n - 1));
    }
}

#[test]
fn selection_commands() {
    assert_eq!(select_item("", 3), Selection::Exit);
    assert_eq!(select_item("  \n", 3), Selection::Exit);
    assert_eq!(select_item("a\n", 3), Selection::ListAll);
    assert_eq!(select_item("A", 3), Selection::ListAll);
    assert_eq!(select_item("abc", 3), Selection::Ignored);
    assert_eq!(select_item("-1", 3), Selection::OutOfRange);
    assert_eq!(select_item("-", 3), Selection::Ignored);
    assert_eq!(select_item("+-1", 3), Selection::Ignored);
    assert_eq!(select_item("1.5", 3), Selection::Ignored);
    assert_eq!(select_item(" 2 \n", 3), Selection::Inspect(1));
    assert_eq!(select_item("+2", 3), Selection::Inspect(1));
    assert_eq!(select_item("+", 3), Selection::Ignored);
    assert_eq!(select_item("18446744073709551616", 3), Selection::OutOfRange);
    assert_eq!(select_item("18446744073709551615", 3), Selection::OutOfRange);
}

#[test]
fn summary_counts() {
    let items = vec![
        finding(1, Tag::Ssn),
        finding(2, Tag::PatientId),
        finding(3, Tag::Phi),
        finding(4, Tag::Fixme),
        finding(5, Tag::Todo),
        finding(6, Tag::Todo),
        finding(7, Tag::Hack),
    ];
    let s = summarize(&items);
    assert_eq!((s.critical, s.warnings, s.fixmes, s.todos, s.total), (2, 1, 1, 2, 7));
}

fn none_installed() -> Availability {
    Availability { code: false, vim: false, nano: false, gedit: false }
}

#[test]
fn declined_vim_install_ends_without_launch() {
    let avail = Availability { code: true, vim: false, nano: true, gedit: true };
    let (p, a) = step(Phase::Choosing, &avail, "2\n");
    assert_eq!(a, Action::OfferInstall(Editor::Vim));
    let (p, a) = step(p, &avail, "n\n");
    assert_eq!(a, Action::AskRetry(Editor::Vim));
    let (p, a) = step(p, &avail, "n\n");
    assert_eq!(a, Action::Stop);
    assert_eq!(p, Phase::Done);
}

#[test]
fn editor_dialogue_branches() {
    let all = Availability { code: true, vim: true, nano: true, gedit: true };
    assert_eq!(step(Phase::Choosing, &all, "1"), (Phase::Done, Action::Launch(Editor::VsCode)));
    assert_eq!(step(Phase::Choosing, &all, "4"), (Phase::Done, Action::Launch(Editor::Gedit)));
    assert_eq!(step(Phase::Choosing, &all, "5"), (Phase::Done, Action::ListCommands));
    assert_eq!(step(Phase::Choosing, &all, "6"), (Phase::Done, Action::Cancel));
    assert_eq!(step(Phase::Choosing, &all, "7"), (Phase::Done, Action::OutOfRange));
    assert_eq!(step(Phase::Choosing, &all, "0"), (Phase::Done, Action::OutOfRange));
    assert_eq!(step(Phase::Choosing, &all, "vim"), (Phase::Done, Action::NotANumber));
    let none = none_installed();
    assert_eq!(
        step(Phase::Choosing, &none, "1"),
        (Phase::ConfirmRetry, Action::ManualInstall(Editor::VsCode))
    );
    assert_eq!(step(Phase::ConfirmRetry, &none, "Y"), (Phase::Choosing, Action::ShowMenu));
    assert_eq!(
        step(Phase::Choosing, &none, "3"),
        (Phase::ConfirmInstall(Editor::Nano), Action::OfferInstall(Editor::Nano))
    );
    assert_eq!(
        step(Phase::ConfirmInstall(Editor::Nano), &none, "y\n"),
        (Phase::Done, Action::RunInstall(Editor::Nano))
    );
    assert_eq!(step(Phase::Done, &none, "1"), (Phase::Done, Action::Stop));
}

#[test]
fn editor_commands() {
    assert_eq!(direct_command(Editor::VsCode, "/p/a.rs", 42), "code --goto '/p/a.rs':42");
    assert_eq!(direct_command(Editor::Vim, "/p/a.rs", 7), "vim +7 '/p/a.rs'");
    assert_eq!(direct_command(Editor::Gedit, "/p/a.rs", 105), "gedit +105 '/p/a.rs'");
    assert_eq!(
        launch_command(Editor::Nano, "/p/a.rs", 3),
        "gnome-terminal -- bash -c \"nano +3 '/p/a.rs'; exec bash\""
    );
    assert_eq!(launch_command(Editor::VsCode, "/p", 1), "code --goto '/p':1");
    assert_eq!(menu_command(Editor::VsCode, "/p/a.rs", 0), "code --goto /p/a.rs:0");
    assert_eq!(menu_command(Editor::Nano, "/p/a.rs", 1907), "nano +1907 '/p/a.rs'");
    assert_eq!(install_command(Editor::Vim), Some("sudo apt install vim".to_string()));
    assert_eq!(install_command(Editor::VsCode), None);
    assert_eq!(package(Editor::Gedit), Some("gedit".to_string()));
}
