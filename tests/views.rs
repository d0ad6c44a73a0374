use repo_locator::app::{Command, CleanRequest};
use repo_locator::details::{self, shown_ignored_path_infos};
use repo_locator::key::Key;
use repo_locator::window::WindowError;
use repo_locator::{
    App, AppState, Details, HelpWindow, IgnoredPathInfo, List, Repository, RepositoryStore,
    StatusBar, UsageBar, Window,
};

fn repo(path: &str, infos: &[(&str, u64)]) -> Repository {
    Repository::new(
        path.to_string(),
        infos.iter().map(|(p, s)| IgnoredPathInfo::new(p.to_string(), *s)).collect(),
    )
}

fn requested(command: Command) -> Vec<(String, String)> {
    match command {
        Command::Clean(requests) => requests
            .iter()
            .map(|r: &CleanRequest| (r.repository.path().clone(), r.ignored_path_info.path().clone()))
            .collect(),
        Command::Nothing => panic!("nothing requested"),
        Command::Quit => panic!("quit requested"),
    }
}

#[test]
fn details_rows_are_the_summary_and_the_nonempty_paths() {
    let r = repo("/a", &[("/a/x", 10), ("/a/empty", 0), ("/a/y", 20)]);
    let shown = shown_ignored_path_infos(&r);
    assert_eq!(shown.len(), 2);
    assert_eq!(shown[1].path(), "/a/y");
    let mut d = Details { list: List { pos: 0, offset: 0, height: 10 } };
    assert!(matches!(d.input(Key::Char('d'), &r), Some(details::Event::DeleteAll)));
    assert!(d.input(Key::Char('j'), &r).is_none());
    match d.input(Key::Char('d'), &r) {
        Some(details::Event::Delete(p)) => assert_eq!(p, "/a/x"),
        _ => panic!("no deletion"),
    }
    d.input(Key::Down, &r);
    d.input(Key::Down, &r);
    assert_eq!(d.list.pos, 2);
    match d.input(Key::Char('d'), &r) {
        Some(details::Event::Delete(p)) => assert_eq!(p, "/a/y"),
        _ => panic!("no deletion"),
    }
    assert!(matches!(d.input(Key::Enter, &r), Some(details::Event::Close)));
    assert_eq!(d.list.pos, 0);
}

#[test]
fn details_row_past_the_paths_deletes_nothing() {
    let r = repo("/a", &[("/a/x", 10)]);
    let mut d = Details { list: List { pos: 3, offset: 0, height: 10 } };
    assert!(d.input(Key::Char('d'), &r).is_none());
}

fn store() -> RepositoryStore {
    let mut store = RepositoryStore::new();
    store.add(repo("/b", &[("/b/y", 5)])).unwrap();
    store.add(repo("/a", &[("/a/x", 10), ("/a/z", 1)])).unwrap();
    store
}

#[test]
fn app_opens_deletes_and_closes() {
    let store = store();
    let mut app = App::new("/".to_string(), 10);
    assert!(matches!(app.input(Key::Enter, &store), Command::Nothing));
    match &app.state {
        AppState::Details(path) => assert_eq!(path, "/a"),
        AppState::PathList => panic!("details not opened"),
    }
    assert_eq!(
        requested(app.input(Key::Char('d'), &store)),
        vec![("/a".to_string(), "/a/x".to_string()), ("/a".to_string(), "/a/z".to_string())]
    );
    app.input(Key::Char('j'), &store);
    app.input(Key::Char('j'), &store);
    assert_eq!(requested(app.input(Key::Char('d'), &store)), vec![("/a".to_string(), "/a/z".to_string())]);
    assert!(matches!(app.input(Key::Enter, &store), Command::Nothing));
    assert!(matches!(app.state, AppState::PathList));
}

#[test]
fn app_help_holds_back_other_keys() {
    let store = store();
    let mut app = App::new("/".to_string(), 10);
    app.input(Key::Char('h'), &store);
    assert!(app.help_window.show);
    app.input(Key::Char('j'), &store);
    app.input(Key::Enter, &store);
    assert_eq!(app.path_list.list.pos, 0);
    assert!(matches!(app.state, AppState::PathList));
    app.input(Key::Char('h'), &store);
    assert!(!app.help_window.show);
    app.input(Key::Char('j'), &store);
    assert_eq!(app.path_list.list.pos, 1);
}

#[test]
fn app_quits() {
    let store = store();
    let mut app = App::new("/".to_string(), 10);
    assert!(matches!(app.input(Key::Char('q'), &store), Command::Quit));
    assert!(matches!(app.input(Key::Ctrl('c'), &store), Command::Quit));
    app.input(Key::Char('h'), &store);
    assert!(matches!(app.input(Key::Char('q'), &store), Command::Quit));
}

#[test]
fn app_details_of_a_vanished_repository_go_back() {
    let store = store();
    let mut app = App::new("/".to_string(), 10);
    app.state = AppState::Details("/gone".to_string());
    assert!(matches!(app.input(Key::Char('d'), &store), Command::Nothing));
    assert!(matches!(app.state, AppState::PathList));
}

#[test]
fn clean_repository_asks_for_each_path() {
    let app = App::new("/".to_string(), 10);
    let r = repo("/a", &[("/a/x", 10), ("/a/z", 1)]);
    let requests = app.clean_repository(&r);
    assert_eq!(requests.len(), 2);
    assert_eq!(requests[1].ignored_path_info.path(), "/a/z");
    assert_eq!(requests[0].repository.path(), "/a");
}

#[test]
fn set_height_resizes_both_lists() {
    let mut app = App::new("/".to_string(), 10);
    app.set_height(4);
    assert_eq!(app.path_list.list.height, 4);
    assert_eq!(app.details.list.height, 4);
}

#[test]
fn window_is_centred_and_padded() {
    let w = Window { message: vec!["ab".to_string(), "abcd".to_string()] };
    let frame = w.draw(20, 10).unwrap().unwrap();
    assert_eq!((frame.column, frame.row), (6, 2));
    assert_eq!(
        frame.lines,
        vec!["        ", "        ", "  ab    ", "  abcd  ", "        ", "        "]
    );
}

#[test]
fn window_that_does_not_fit_is_not_drawn() {
    let w = Window { message: vec!["abcd".to_string()] };
    assert!(w.draw(3, 10).unwrap().is_none());
    assert!(w.draw(6, 10).unwrap().is_none());
    assert!(w.draw(20, 3).unwrap().is_none());
    let empty = Window { message: vec![] };
    assert!(empty.draw(80, 24).unwrap().is_none());
}

#[test]
fn window_error_names_the_format() {
    let w = Window { message: vec!["x".to_string()] };
    let r: Result<_, WindowError> = w.draw(20, 20);
    assert!(r.is_ok());
}

#[test]
fn help_window_starts_hidden() {
    let help = HelpWindow::new();
    assert!(!help.show);
    assert_eq!(help.window.message.len(), 5);
    assert_eq!(help.window.message[2], "Enter: Show details of the selected repository");
    let frame = help.draw(80, 24).unwrap().unwrap();
    assert_eq!(frame.lines.len(), 9);
    assert_eq!(frame.lines[2], format!("  {:<46}  ", "  j,k: Move up, down"));
    assert_eq!(frame.lines[0], " ".repeat(50));
}

#[test]
fn status_bar_spins_until_done() {
    let mut bar = StatusBar { done: false, spinner_phase: 0 };
    bar.advance_spinner();
    assert_eq!(bar.spinner_phase, 1);
    assert_eq!(bar.text(&"/src".to_string()), "⊙⊙ Searching under /src");
    bar.advance_spinner();
    bar.advance_spinner();
    bar.advance_spinner();
    assert_eq!(bar.spinner_phase, 0);
    assert_eq!(bar.text(&"/src".to_string()), "◡◡ Searching under /src");
    bar.done = true;
    assert_eq!(bar.text(&"/src".to_string()), "Done.");
}

#[test]
fn usage_bar_follows_the_view() {
    let bar = UsageBar;
    assert_eq!(bar.text(&AppState::PathList), "j,k: Move | Enter: Details | q: Quit | h: Help");
    assert_eq!(
        bar.text(&AppState::Details("/a".to_string())),
        "j,k: Move | Enter: Back to list | d: Delete | q: Quit | h: Help"
    );
}
