use eve_rs::pattern::normalize_template;
use eve_rs::router::MiddlewareHandler;

fn entry(template: &str, is_endpoint: bool) -> MiddlewareHandler<()> {
    MiddlewareHandler::new(template, (), is_endpoint)
}

#[test]
fn normalizes_templates() {
    assert_eq!(normalize_template(""), "/");
    assert_eq!(normalize_template("/"), "/");
    assert_eq!(normalize_template("foo"), "/foo");
    assert_eq!(normalize_template("/foo/"), "/foo");
    assert_eq!(normalize_template("./foo"), "/foo");
    assert_eq!(normalize_template("./"), "/");
}

#[test]
fn endpoint_route_with_capture() {
    let e = entry("/todos/:id", true);
    assert!(e.is_match("/todos/42"));
    assert!(!e.is_match("/todos/42/extra"));
    let caps = e.path_match.captures("/todos/42").expect("should match");
    assert_eq!(caps.len(), 1);
    assert_eq!(caps[0].0, "id");
    assert_eq!(caps[0].1, "42");
}

#[test]
fn endpoint_route_tolerates_trailing_slash() {
    let e = entry("/todos/:id", true);
    assert!(e.is_match("/todos/42/"));
    let caps = e.path_match.captures("/todos/42/").expect("should match");
    assert_eq!(caps[0].1, "42");
}

#[test]
fn use_route_matches_prefixes() {
    let e = entry("/static/**", false);
    assert!(e.is_match("/static/css/app.css"));
    assert!(!e.is_match("/other"));
}

#[test]
fn endpoint_rejects_extra_segments() {
    let e = entry("/a/b", true);
    assert!(e.is_match("/a/b"));
    assert!(e.is_match("/a/b/"));
    assert!(!e.is_match("/a/b/c"));
}

#[test]
fn use_route_accepts_extra_segments() {
    let e = entry("/a/b", false);
    assert!(e.is_match("/a/b"));
    assert!(e.is_match("/a/b/c"));
    assert!(e.is_match("/a/b/c/d"));
    assert!(!e.is_match("/a"));
}

#[test]
fn single_star_stays_in_segment() {
    let e = entry("/files/*", true);
    assert!(e.is_match("/files/photo.png"));
    assert!(!e.is_match("/files/a/b"));
    assert!(!e.is_match("/files/"));
}

#[test]
fn double_star_crosses_segments() {
    let e = entry("/files/**", true);
    assert!(e.is_match("/files/a/b/c"));
    assert!(!e.is_match("/files"));
}

#[test]
fn capture_stops_at_separator_and_space() {
    let e = entry("/u/:name/p", true);
    assert!(e.is_match("/u/alice/p"));
    assert!(!e.is_match("/u/al/ice/p"));
    assert!(!e.is_match("/u/a b/p"));
}

#[test]
fn root_use_route_matches_everything() {
    let e = entry("/", false);
    assert!(e.is_match("/"));
    assert!(e.is_match("/anything/at/all"));
}

#[test]
fn root_endpoint_route_matches_only_root() {
    let e = entry("/", true);
    assert!(e.is_match("/"));
    assert!(!e.is_match("/x"));
}

#[test]
fn two_captures_are_listed_in_order() {
    let e = entry("/a/:x/b/:y", true);
    let caps = e.path_match.captures("/a/1/b/2").expect("should match");
    assert_eq!(caps.len(), 2);
    assert_eq!(caps[0].0, "x");
    assert_eq!(caps[0].1, "1");
    assert_eq!(caps[1].0, "y");
    assert_eq!(caps[1].1, "2");
}

#[test]
fn no_captures_for_wildcards() {
    let e = entry("/static/**", false);
    let caps = e.path_match.captures("/static/css/app.css").expect("should match");
    assert_eq!(caps.len(), 0);
}

#[test]
fn non_matching_path_has_no_captures() {
    let e = entry("/todos/:id", true);
    assert!(e.path_match.captures("/other").is_none());
}

#[test]
fn mounted_url_is_recorded_normalized() {
    let e = entry("todos/", true);
    assert_eq!(e.mounted_url, "/todos");
}
