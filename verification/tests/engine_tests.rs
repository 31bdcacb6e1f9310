use eve_rs::App;
use eve_rs::DefaultContext;
use eve_rs::DefaultError;
use eve_rs::HttpMethod;
use eve_rs::Middleware;
use eve_rs::NextHandler;
use eve_rs::Request;
use eve_rs::Response;
use eve_rs::dispatch::assemble_response_head;

/// A test middleware that appends its tag to the `x-trail` response
/// header, optionally sets a status, and either calls its continuation or
/// short-circuits.
#[derive(Clone)]
struct TagMiddleware {
    tag: &'static str,
    status: Option<u16>,
    call_next: bool,
}

impl Middleware for TagMiddleware {
    fn run_middleware(
        &self,
        mut context: DefaultContext,
        next: NextHandler<Self>,
    ) -> Result<DefaultContext, DefaultError> {
        let trail = match context.get_response().get_header("x-trail") {
            Some(t) => t,
            None => String::new(),
        };
        let _ = context.remove_header("x-trail");
        let mut new_trail = trail;
        new_trail.push_str(self.tag);
        let _ = context.header("x-trail", &new_trail);
        if let Some(code) = self.status {
            let _ = context.status(code);
        }
        if self.call_next {
            next.call(context)
        } else {
            Ok(context)
        }
    }
}

/// A test middleware that copies the `id` path capture into the `x-id`
/// response header and short-circuits.
#[derive(Clone)]
struct ParamEcho;

impl Middleware for ParamEcho {
    fn run_middleware(
        &self,
        mut context: DefaultContext,
        _next: NextHandler<Self>,
    ) -> Result<DefaultContext, DefaultError> {
        let id = context
            .get_request()
            .get_param("id")
            .unwrap_or_else(|| "missing".to_string());
        let _ = context.header("x-id", &id);
        Ok(context)
    }
}

fn context_for(method: HttpMethod, path: &str) -> DefaultContext {
    let request = Request::new("127.0.0.1:80".to_string(), method, path.to_string());
    DefaultContext::new(request, Response::new())
}

#[test]
fn chain_short_circuit() {
    let mut app: App<TagMiddleware, (), ()> = App::create(());
    app.get(
        "/x",
        vec![
            TagMiddleware { tag: "A", status: None, call_next: true },
            TagMiddleware { tag: "B", status: Some(201), call_next: false },
            TagMiddleware { tag: "C", status: None, call_next: true },
        ],
    );
    let result = app.resolve(context_for(HttpMethod::Get, "/x"));
    let context = result.expect("chain should succeed");
    assert_eq!(context.get_status(), 201);
    let trail = context.get_response().get_header("x-trail").expect("trail set");
    assert_eq!(trail, "AB");
}

#[test]
fn middleware_wraps_rest_of_chain() {
    let mut app: App<TagMiddleware, (), ()> = App::create(());
    app.use_middleware(
        "/",
        vec![TagMiddleware { tag: "outer", status: None, call_next: true }],
    );
    app.get(
        "/x",
        vec![TagMiddleware { tag: "-inner", status: Some(200), call_next: false }],
    );
    let context = app
        .resolve(context_for(HttpMethod::Get, "/x"))
        .expect("chain should succeed");
    let trail = context.get_response().get_header("x-trail").expect("trail set");
    assert_eq!(trail, "outer-inner");
}

#[test]
fn captures_are_injected_per_entry() {
    let mut app: App<ParamEcho, (), ()> = App::create(());
    app.get("/todos/:id", vec![ParamEcho]);
    let context = app
        .resolve(context_for(HttpMethod::Get, "/todos/42"))
        .expect("chain should succeed");
    let id = context.get_response().get_header("x-id").expect("id set");
    assert_eq!(id, "42");
}

#[test]
fn exhausted_chain_is_not_found() {
    let app: App<TagMiddleware, (), ()> = App::create(());
    let mut context = app
        .resolve(context_for(HttpMethod::Get, "/missing"))
        .expect("terminal state is not an error");
    assert_eq!(context.get_status(), 404);
    let events = context.response.take_events();
    let (status, _headers, first_chunk) = assemble_response_head(&events);
    assert_eq!(status, Some(404));
    let body = String::from_utf8(first_chunk.expect("body sent")).expect("utf8 body");
    assert_eq!(body, "Cannot GET route /missing");
}

#[test]
fn unmatched_method_is_not_found() {
    let mut app: App<TagMiddleware, (), ()> = App::create(());
    app.get(
        "/x",
        vec![TagMiddleware { tag: "A", status: Some(200), call_next: false }],
    );
    let context = app
        .resolve(context_for(HttpMethod::Post, "/x"))
        .expect("terminal state is not an error");
    assert_eq!(context.get_status(), 404);
}
