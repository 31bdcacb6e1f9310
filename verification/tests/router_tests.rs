use eve_rs::App;
use eve_rs::HttpMethod;

#[derive(Clone, Debug, PartialEq)]
struct Tag(&'static str);

type TestApp = App<Tag, (), ()>;

#[test]
fn registration_order_is_selection_order() {
    let mut app = TestApp::create(());
    app.get("/x", vec![Tag("first")]);
    app.get("/x", vec![Tag("second")]);
    let selected = app.get_middleware_stack(&HttpMethod::Get, "/x");
    assert_eq!(selected.len(), 2);
    assert_eq!(selected[0].handler, Tag("first"));
    assert_eq!(selected[1].handler, Tag("second"));
}

#[test]
fn selection_filters_by_path() {
    let mut app = TestApp::create(());
    app.get("/a", vec![Tag("a")]);
    app.get("/b", vec![Tag("b")]);
    let selected = app.get_middleware_stack(&HttpMethod::Get, "/b");
    assert_eq!(selected.len(), 1);
    assert_eq!(selected[0].handler, Tag("b"));
}

#[test]
fn selection_is_per_method() {
    let mut app = TestApp::create(());
    app.get("/x", vec![Tag("get")]);
    app.post("/x", vec![Tag("post")]);
    let selected = app.get_middleware_stack(&HttpMethod::Post, "/x");
    assert_eq!(selected.len(), 1);
    assert_eq!(selected[0].handler, Tag("post"));
}

#[test]
fn use_middleware_reaches_every_method() {
    let mut app = TestApp::create(());
    app.use_middleware("/", vec![Tag("all")]);
    for method in [
        HttpMethod::Get,
        HttpMethod::Post,
        HttpMethod::Put,
        HttpMethod::Delete,
        HttpMethod::Head,
        HttpMethod::Options,
        HttpMethod::Connect,
        HttpMethod::Patch,
        HttpMethod::Trace,
    ] {
        let selected = app.get_middleware_stack(&method, "/whatever");
        assert_eq!(selected.len(), 1);
        assert_eq!(selected[0].handler, Tag("all"));
    }
}

#[test]
fn use_middleware_matches_prefix_only() {
    let mut app = TestApp::create(());
    app.use_middleware("/api", vec![Tag("api")]);
    assert_eq!(app.get_middleware_stack(&HttpMethod::Get, "/api/users").len(), 1);
    assert_eq!(app.get_middleware_stack(&HttpMethod::Get, "/other").len(), 0);
}

#[test]
fn mount_round_trip() {
    let mut sub = TestApp::create(());
    sub.get("/todos/:id", vec![Tag("todo")]);
    let mut app = TestApp::create(());
    app.use_sub_app("/api", sub);

    // A path under the mount selects exactly what the sub-table selects
    // for the unprefixed path.
    let selected = app.get_middleware_stack(&HttpMethod::Get, "/api/todos/7");
    assert_eq!(selected.len(), 1);
    assert_eq!(selected[0].handler, Tag("todo"));
    assert_eq!(selected[0].mounted_url, "/api/todos/:id");
    assert_eq!(app.get_middleware_stack(&HttpMethod::Get, "/todos/7").len(), 0);
    assert_eq!(app.get_middleware_stack(&HttpMethod::Get, "/api/other").len(), 0);
}

#[test]
fn mount_under_root_keeps_paths() {
    let mut sub = TestApp::create(());
    sub.get("/x", vec![Tag("x")]);
    let mut app = TestApp::create(());
    app.use_sub_app("/", sub);
    assert_eq!(app.get_middleware_stack(&HttpMethod::Get, "/x").len(), 1);
}

#[test]
fn mounted_entries_come_after_own_entries() {
    let mut sub = TestApp::create(());
    sub.get("/x", vec![Tag("sub")]);
    let mut app = TestApp::create(());
    app.get("/api/x", vec![Tag("own")]);
    app.use_sub_app("/api", sub);
    let selected = app.get_middleware_stack(&HttpMethod::Get, "/api/x");
    assert_eq!(selected.len(), 2);
    assert_eq!(selected[0].handler, Tag("own"));
    assert_eq!(selected[1].handler, Tag("sub"));
}

#[test]
fn error_handler_slot() {
    let mut app: App<Tag, (), u32> = App::create(());
    assert!(app.error_handler.is_none());
    app.set_error_handler(7);
    assert_eq!(app.error_handler, Some(7));
    app.remove_error_handler();
    assert!(app.error_handler.is_none());
}

#[test]
fn state_is_kept() {
    let app: App<Tag, u64, ()> = App::create(99);
    assert_eq!(*app.get_state(), 99);
}
