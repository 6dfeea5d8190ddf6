use le_grillon::db::LeGrillonDb;
use le_grillon::ids::IdAllocator;
use le_grillon::messages::{DbCommand, GlobalAppMsg};
use le_grillon::registry::LeGrillon;
use le_grillon::req_window::RequestWindow;
use le_grillon::response::{Exchange, ResponseSummary};
use le_grillon::row::OpenWindow;
use le_grillon::verb::Verb;

fn row(id: usize, method: &str, uri: &str) -> OpenWindow {
    OpenWindow {
        id,
        method: method.to_string(),
        uri: uri.to_string(),
        path: String::new(),
        query: String::new(),
        headers: vec![("content-type".to_string(), "text/plain".to_string())],
        body: "stored body".to_string(),
    }
}

fn answered(status: u16, body: &str) -> Exchange {
    Exchange::Answered(ResponseSummary {
        status,
        content_length: None,
        round_trip: 3_000_000,
        latency: 1_000_000,
        body: Ok(body.to_string()),
    })
}

fn open_empty(app: &mut LeGrillon) -> usize {
    let effect = app.dispatch(&GlobalAppMsg::OpenEmptyWindow);
    assert!(matches!(effect.command, DbCommand::Nothing));
    assert!(!effect.exit);
    effect.opened.expect("ids are left")
}

#[test]
fn empty_window_has_defaults() {
    let mut ids = IdAllocator::new();
    ids.advance_past(4);
    let window = RequestWindow::new(None, &mut ids);
    assert_eq!(window.id(), 5);
    assert_eq!(window.verb(), Verb::Get);
    assert_eq!(window.uri(), "");
    assert_eq!(window.headers(), "");
    assert_eq!(window.body(), "");
    assert_eq!(window.title(), "Le Grillon");
    assert_eq!(window.status(), "");
    assert_eq!(window.result(), "");
    assert!(window.run_enabled());
    assert!(window.is_open());
    assert_eq!(ids.next(), 6);
}

#[test]
fn restored_window_is_filled_from_its_row() {
    let mut ids = IdAllocator::new();
    let window = RequestWindow::new(Some(&row(7, "PATCH", "http://h/")), &mut ids);
    assert_eq!(window.id(), 7);
    assert_eq!(window.verb(), Verb::Patch);
    assert_eq!(window.uri(), "http://h/");
    assert_eq!(window.title(), "http://h/");
    assert_eq!(window.headers(), "text/plain: content-type \n");
    assert_eq!(window.body(), "stored body");
    assert!(window.run_enabled());
    assert_eq!(ids.next(), 0);
}

#[test]
fn restored_window_with_unknown_verb_selects_first_option() {
    let mut ids = IdAllocator::new();
    let window = RequestWindow::new(Some(&row(7, "TRACE", "http://h/")), &mut ids);
    assert_eq!(window.verb(), Verb::Get);
}

#[test]
fn run_saves_the_fields_and_disables_the_control() {
    let mut ids = IdAllocator::new();
    let mut window = RequestWindow::new(None, &mut ids);
    window.set_verb(Verb::Post);
    window.set_uri("http://example.test");
    window.set_headers("application/json: Content-Type\nbogus-line\nbar: foo");
    window.set_body("x");
    let saved = window.run().expect("an idle window runs");
    assert_eq!(saved.id, 0);
    assert_eq!(saved.method, "POST");
    assert_eq!(saved.uri, "http://example.test");
    assert_eq!(saved.path, "");
    assert_eq!(saved.query, "");
    assert_eq!(
        saved.headers,
        vec![
            ("Content-Type".to_string(), "application/json".to_string()),
            ("foo".to_string(), "bar".to_string()),
        ]
    );
    assert_eq!(saved.body, "x");
    assert!(!window.run_enabled());
    assert_eq!(window.status(), "Sending POST request...");
    assert_eq!(window.title(), "http://example.test");
}

#[test]
fn run_while_running_does_nothing() {
    let mut ids = IdAllocator::new();
    let mut window = RequestWindow::new(None, &mut ids);
    assert!(window.run().is_some());
    window.set_uri("http://later/");
    assert!(window.run().is_none());
    assert!(!window.run_enabled());
    assert_eq!(window.status(), "Sending GET request...");
    assert_eq!(window.title(), "");
}

#[test]
fn completion_enables_the_control_after_success() {
    let mut ids = IdAllocator::new();
    let mut window = RequestWindow::new(None, &mut ids);
    window.run();
    window.complete(&answered(201, "created"));
    assert!(window.run_enabled());
    assert_eq!(window.status(), "STATUS=201 | BYTES=7 B | RTT=3ms | LAT=1ms");
    assert_eq!(window.result(), "created");
}

#[test]
fn completion_enables_the_control_after_failure() {
    let mut ids = IdAllocator::new();
    let mut window = RequestWindow::new(None, &mut ids);
    window.run();
    window.complete(&Exchange::Failed("connection refused".to_string()));
    assert!(window.run_enabled());
    assert_eq!(window.status(), "");
    assert_eq!(window.result(), "connection refused");
}

#[test]
fn completion_with_unreadable_body_shows_the_error() {
    let mut ids = IdAllocator::new();
    let mut window = RequestWindow::new(None, &mut ids);
    window.run();
    window.complete(&Exchange::Answered(ResponseSummary {
        status: 200,
        content_length: Some(2_000_000),
        round_trip: 5_000_000,
        latency: 4_000_000,
        body: Err("decode error".to_string()),
    }));
    assert!(window.run_enabled());
    assert_eq!(window.status(), "STATUS=200 | BYTES=2 MB | RTT=5ms | LAT=4ms");
    assert_eq!(window.result(), "decode error");
}

#[test]
fn close_takes_the_window_off_screen() {
    let mut ids = IdAllocator::new();
    let mut window = RequestWindow::new(None, &mut ids);
    window.set_body("kept");
    window.close();
    assert!(!window.is_open());
    assert_eq!(window.body(), "kept");
    window.complete(&Exchange::Failed("late".to_string()));
    assert_eq!(window.result(), "late");
}

#[test]
fn registry_starts_with_the_control_window_only() {
    let mut app = LeGrillon::new(Vec::new());
    assert_eq!(app.controls_id(), 0);
    assert_eq!(app.window_count(), 0);
    assert!(app.restore().is_empty());
    open_empty(&mut app);
    assert!(app.window(1).is_some());
    assert!(app.window(0).is_none());
}

#[test]
fn scenario_open_run_close() {
    let mut app = LeGrillon::new(Vec::new());
    let mut db = LeGrillonDb::new(Vec::new());
    let n = open_empty(&mut app);
    assert_eq!(n, 1);
    assert_eq!(app.window_count(), 1);
    assert_eq!(app.window(n).expect("the fresh window").id(), n);

    assert!(app.edit_window(n, Verb::Post, "http://example.test", "", "x"));
    let event = app.run_window(n).expect("the window is idle");
    assert!(matches!(db.handle(&event), DbCommand::Upsert(_)));
    let effect = app.dispatch(&event);
    match &effect.command {
        DbCommand::Upsert(r) => {
            assert_eq!(r.id, n);
            assert_eq!(r.method, "POST");
            assert_eq!(r.uri, "http://example.test");
            assert_eq!(r.body, "x");
        },
        other => panic!("unexpected command {:?}", other),
    }
    let stored = db.fetch_all();
    assert_eq!(stored.len(), 1);
    assert_eq!(stored[0].id, n);
    assert_eq!(stored[0].method, "POST");
    assert_eq!(stored[0].uri, "http://example.test");
    assert_eq!(stored[0].body, "x");

    let close = GlobalAppMsg::CloseWindow(n);
    let effect = app.dispatch(&close);
    assert!(matches!(effect.command, DbCommand::Delete(1)));
    assert!(!effect.exit);
    let closed = effect.closed.expect("the window was registered");
    assert_eq!(closed.id(), n);
    assert!(!closed.is_open());
    assert_eq!(closed.uri(), "http://example.test");
    assert!(matches!(db.handle(&close), DbCommand::Delete(1)));
    assert!(app.window(n).is_none());
    assert_eq!(app.window_count(), 0);
    assert!(db.fetch_all().iter().all(|r| r.id != n));
    assert!(app.restore().is_empty());
}

#[test]
fn edits_reach_only_a_registered_window() {
    let mut app = LeGrillon::new(Vec::new());
    open_empty(&mut app);
    assert!(!app.edit_window(5, Verb::Put, "http://nowhere/", "", ""));
    assert!(app.edit_window(1, Verb::Put, "http://u/", "1: a", "b"));
    let window = app.window(1).expect("registered");
    assert_eq!(window.verb(), Verb::Put);
    assert_eq!(window.uri(), "http://u/");
    assert_eq!(window.headers(), "1: a");
    assert_eq!(window.body(), "b");
    assert!(window.run_enabled());
}

#[test]
fn run_takes_events_up_to_close_app() {
    let mut app = LeGrillon::new(vec![row(7, "GET", "http://h/")]);
    let mut inbox: Vec<GlobalAppMsg> = Vec::new();
    inbox.push(GlobalAppMsg::OpenEmptyWindow);
    inbox.push(GlobalAppMsg::SaveWindowState(row(8, "PUT", "http://p/")));
    inbox.push(GlobalAppMsg::CloseWindow(7));
    inbox.push(GlobalAppMsg::CloseApp);
    inbox.push(GlobalAppMsg::OpenEmptyWindow);
    inbox.push(GlobalAppMsg::CloseWindow(8));
    let commands = app.run(&inbox);
    assert_eq!(commands.len(), 5);
    assert!(matches!(commands[0], DbCommand::Nothing));
    assert!(matches!(commands[1], DbCommand::Nothing));
    assert!(matches!(&commands[2], DbCommand::Upsert(r) if r.id == 8 && r.method == "PUT"));
    assert!(matches!(commands[3], DbCommand::Delete(7)));
    assert!(matches!(commands[4], DbCommand::Nothing));
    assert_eq!(app.window_count(), 1);
    assert!(app.window(7).is_none());
    assert!(!app.window(8).expect("registered").is_open());
    assert!(app.window(9).is_none());
    let mut next_session = LeGrillon::new(Vec::new());
    assert!(next_session.run(&Vec::new()).is_empty());
    assert_eq!(next_session.window_count(), 0);
}

#[test]
fn scenario_run_through_the_registry_persists_then_close_deletes() {
    let mut app = LeGrillon::new(Vec::new());
    open_empty(&mut app);
    let event = app.run_window(1).expect("the window is idle");
    let effect = app.dispatch(&event);
    match &effect.command {
        DbCommand::Upsert(r) => {
            assert_eq!(r.id, 1);
            assert_eq!(r.method, "GET");
        },
        other => panic!("unexpected command {:?}", other),
    }
    assert!(!app.window(1).expect("registered").run_enabled());
    assert!(app.run_window(1).is_none());
    assert!(app.run_window(99).is_none());
    app.complete_window(1, &answered(200, "ok"));
    assert!(app.window(1).expect("registered").run_enabled());
    let effect = app.dispatch(&GlobalAppMsg::CloseWindow(1));
    assert!(matches!(effect.command, DbCommand::Delete(1)));
    let again = app.dispatch(&GlobalAppMsg::CloseWindow(1));
    assert!(matches!(again.command, DbCommand::Delete(1)));
    assert!(again.closed.is_none());
    assert_eq!(app.window_count(), 0);
}

#[test]
fn scenario_failure_in_one_window_leaves_the_other() {
    let mut app = LeGrillon::new(Vec::new());
    let a = open_empty(&mut app);
    let b = open_empty(&mut app);
    assert_ne!(a, b);
    assert!(app.run_window(a).is_some());
    assert!(app.run_window(b).is_some());
    app.complete_window(a, &Exchange::Failed("transport error".to_string()));
    {
        let wb = app.window(b).expect("b is registered");
        assert!(!wb.run_enabled());
        assert_eq!(wb.status(), "Sending GET request...");
        assert_eq!(wb.result(), "");
    }
    app.complete_window(b, &answered(200, "fine"));
    let wa = app.window(a).expect("a is registered");
    assert_eq!(wa.status(), "");
    assert_eq!(wa.result(), "transport error");
    assert!(wa.run_enabled());
    let wb = app.window(b).expect("b is registered");
    assert_eq!(wb.status(), "STATUS=200 | BYTES=4 B | RTT=3ms | LAT=1ms");
    assert_eq!(wb.result(), "fine");
    assert!(wb.run_enabled());
}

#[test]
fn scenario_restart_with_one_row() {
    let mut app = LeGrillon::new(vec![row(7, "GET", "http://h/")]);
    let msgs = app.restore();
    assert_eq!(msgs.len(), 1);
    for msg in msgs {
        let effect = app.dispatch(&msg);
        assert!(matches!(effect.command, DbCommand::Nothing));
        assert_eq!(effect.opened, Some(7));
    }
    assert_eq!(app.window_count(), 1);
    {
        let restored = app.window(7).expect("window 7 is restored");
        assert_eq!(restored.id(), 7);
        assert_eq!(restored.verb(), Verb::Get);
        assert_eq!(restored.uri(), "http://h/");
        assert_eq!(restored.body(), "stored body");
    }
    let fresh = open_empty(&mut app);
    assert!(fresh > 7);
    assert_eq!(fresh, 8);
    assert_eq!(app.window_count(), 2);
    assert!(app.window(8).is_some());
}

#[test]
fn scenario_restart_through_run() {
    let mut app = LeGrillon::new(vec![row(7, "GET", "http://h/")]);
    let commands = app.run(&vec![GlobalAppMsg::OpenEmptyWindow]);
    assert_eq!(commands.len(), 2);
    assert_eq!(app.window_count(), 2);
    assert_eq!(app.window(7).expect("restored").uri(), "http://h/");
    assert!(app.window(8).is_some());
}

#[test]
fn dispatch_all_stops_after_close_app() {
    let mut app = LeGrillon::new(vec![row(7, "GET", "http://h/")]);
    let commands = app.dispatch_all(&vec![
        GlobalAppMsg::OpenEmptyWindow,
        GlobalAppMsg::CloseApp,
        GlobalAppMsg::OpenEmptyWindow,
    ]);
    assert_eq!(commands.len(), 2);
    assert_eq!(app.window_count(), 1);
    assert!(app.window(7).is_none());
    assert!(!app.window(1).expect("registered").is_open());
}

#[test]
fn completion_for_a_closed_window_is_ignored() {
    let mut app = LeGrillon::new(Vec::new());
    open_empty(&mut app);
    assert!(app.run_window(1).is_some());
    app.dispatch(&GlobalAppMsg::CloseWindow(1));
    app.complete_window(1, &answered(200, "late"));
    assert_eq!(app.window_count(), 0);
    assert!(app.window(1).is_none());
}

#[test]
fn close_app_closes_every_window_and_keeps_rows() {
    let mut app = LeGrillon::new(vec![row(3, "GET", "http://a/"), row(4, "PUT", "http://b/")]);
    for msg in app.restore() {
        app.dispatch(&msg);
    }
    open_empty(&mut app);
    let effect = app.dispatch(&GlobalAppMsg::CloseApp);
    assert!(effect.exit);
    assert!(matches!(effect.command, DbCommand::Nothing));
    assert_eq!(app.window_count(), 3);
    for id in [3usize, 4, 5] {
        assert!(!app.window(id).expect("still registered").is_open());
    }
    let mut next_session = LeGrillon::new(vec![row(3, "GET", "http://a/"), row(4, "PUT", "http://b/")]);
    assert_eq!(next_session.restore().len(), 2);
}

#[test]
fn restore_replaces_a_window_with_the_same_id() {
    let mut app = LeGrillon::new(Vec::new());
    open_empty(&mut app);
    app.dispatch(&GlobalAppMsg::Restore(row(1, "DELETE", "http://again/")));
    assert_eq!(app.window_count(), 1);
    assert_eq!(app.window(1).expect("registered").verb(), Verb::Delete);
}

#[test]
fn restored_window_saves_the_same_row() {
    let mut ids = IdAllocator::new();
    let mut window = RequestWindow::new(None, &mut ids);
    window.set_verb(Verb::Patch);
    window.set_uri("http://example.test/a");
    window.set_headers("  text/plain :  Accept \nno header\n1: X-One\r\n");
    window.set_body("body");
    let first = window.run().expect("an idle window runs");
    assert_eq!(
        first.headers,
        vec![
            ("Accept".to_string(), "text/plain".to_string()),
            ("X-One".to_string(), "1".to_string()),
        ]
    );
    let mut restored = RequestWindow::new(Some(&first), &mut ids);
    assert_eq!(restored.headers(), "text/plain: Accept \n1: X-One \n");
    let second = restored.run().expect("a restored window is idle");
    assert_eq!(second.id, first.id);
    assert_eq!(second.method, first.method);
    assert_eq!(second.uri, first.uri);
    assert_eq!(second.path, first.path);
    assert_eq!(second.query, first.query);
    assert_eq!(second.headers, first.headers);
    assert_eq!(second.body, first.body);
}

#[test]
fn no_window_opens_once_ids_are_used_up() {
    let mut app = LeGrillon::new(vec![row(usize::MAX, "GET", "http://last/")]);
    let commands = app.run(&Vec::new());
    assert_eq!(commands.len(), 1);
    assert_eq!(app.window_count(), 1);
    let effect = app.dispatch(&GlobalAppMsg::OpenEmptyWindow);
    assert_eq!(effect.opened, None);
    assert!(matches!(effect.command, DbCommand::Nothing));
    assert_eq!(app.window_count(), 1);
    assert!(app.window(usize::MAX).is_some());
}
