use normalized_resource::guard::Guard;
use normalized_resource::handler::Handler;
use normalized_resource::http::{Method, Request};
use normalized_resource::middleware::Middleware;
use normalized_resource::registry::AppService;
use normalized_resource::resource::NormalizedResource;
use normalized_resource::route::Route;

fn md() -> Middleware {
    Middleware::response_header("content-type", "0001")
}

#[test]
fn test_middleware() {
    let mut srv = AppService::new(true);
    NormalizedResource::new("/test")
        .name("test")
        .wrap(md())
        .route(Route::get().to(Handler::Respond(200)))
        .register(&mut srv);
    let req = Request::with_uri("/test");
    let resp = srv.call(&req);
    assert_eq!(resp.status(), 200);
    assert_eq!(resp.headers().get("content-type").unwrap(), "0001");
}

#[test]
fn test_middleware_fn() {
    let mut srv = AppService::new(true);
    NormalizedResource::new("/test")
        .wrap_fn(Middleware::response_header("content-type", "0001"))
        .route(Route::get().to(Handler::Respond(200)))
        .register(&mut srv);
    let req = Request::with_uri("/test");
    let resp = srv.call(&req);
    assert_eq!(resp.status(), 200);
    assert_eq!(resp.headers().get("content-type").unwrap(), "0001");
}

#[test]
fn test_to_async() {
    let mut srv = AppService::new(true);
    NormalizedResource::new("/test").to_async(Handler::Respond(200)).register(&mut srv);
    let req = Request::with_uri("/test");
    let resp = srv.call(&req);
    assert_eq!(resp.status(), 200);
}

#[test]
fn test_default_resource() {
    let mut srv = AppService::new(true);
    NormalizedResource::new("/test")
        .route(Route::get().to(Handler::Respond(200)))
        .register(&mut srv);
    srv.default_service(Handler::Respond(400));
    let req = Request::with_uri("/test");
    let resp = srv.call(&req);
    assert_eq!(resp.status(), 200);

    let req = Request::with_uri("/test").method(Method::Post);
    let resp = srv.call(&req);
    assert_eq!(resp.status(), 405);

    let mut srv = AppService::new(true);
    let built: Result<Handler, ()> = Ok(Handler::Respond(400));
    NormalizedResource::new("/test")
        .route(Route::get().to(Handler::Respond(200)))
        .default_service(built)
        .register(&mut srv);

    let req = Request::with_uri("/test");
    let resp = srv.call(&req);
    assert_eq!(resp.status(), 200);

    let req = Request::with_uri("/test").method(Method::Post);
    let resp = srv.call(&req);
    assert_eq!(resp.status(), 400);
}

#[test]
fn test_resource_guards() {
    let mut srv = AppService::new(true);
    NormalizedResource::new("/test/{p}")
        .guard(Guard::get())
        .to(Handler::Respond(200))
        .register(&mut srv);
    NormalizedResource::new("/test/{p}")
        .guard(Guard::put())
        .to(Handler::Respond(201))
        .register(&mut srv);
    NormalizedResource::new("/test/{p}")
        .guard(Guard::delete())
        .to(Handler::Respond(204))
        .register(&mut srv);

    let req = Request::with_uri("/test/it").method(Method::Get);
    let resp = srv.call(&req);
    assert_eq!(resp.status(), 200);

    let req = Request::with_uri("/test/it").method(Method::Put);
    let resp = srv.call(&req);
    assert_eq!(resp.status(), 201);

    let req = Request::with_uri("/test/it").method(Method::Delete);
    let resp = srv.call(&req);
    assert_eq!(resp.status(), 204);
}

#[test]
fn registers_pattern_with_and_without_trailing_slash() {
    let mut srv = AppService::new(true);
    NormalizedResource::new("/a//b").to(Handler::Respond(200)).register(&mut srv);
    assert_eq!(srv.len(), 2);
    assert_eq!(srv.service_count(), 1);
    assert_eq!(srv.pattern(0), Some("/a/b"));
    assert_eq!(srv.pattern(1), Some("/a/b/"));
    assert_eq!(srv.service(0), Some(0));
    assert_eq!(srv.service(1), Some(0));
    assert_eq!(srv.guards(0), None);
    assert_eq!(srv.guards(1), None);
}

#[test]
fn both_patterns_reach_one_service() {
    let mut srv = AppService::new(true);
    NormalizedResource::new("/test").to(Handler::Respond(200)).register(&mut srv);
    assert_eq!(srv.served(0), Some(0));
    assert_eq!(srv.call(&Request::with_uri("/test")).status(), 200);
    assert_eq!(srv.served(0), Some(1));
    assert_eq!(srv.call(&Request::with_uri("/test/")).status(), 200);
    assert_eq!(srv.served(0), Some(2));
    assert_eq!(srv.call(&Request::with_uri("/other")).status(), 404);
    assert_eq!(srv.served(0), Some(2));
    assert_eq!(srv.served(1), None);
}

#[test]
fn pattern_with_trailing_slash_gets_sibling_without() {
    let mut srv = AppService::new(true);
    NormalizedResource::new("/container///").to(Handler::Respond(200)).register(&mut srv);
    assert_eq!(srv.pattern(0), Some("/container/"));
    assert_eq!(srv.pattern(1), Some("/container"));
    assert_eq!(srv.call(&Request::with_uri("/container")).status(), 200);
    assert_eq!(srv.call(&Request::with_uri("/container/")).status(), 200);
}

#[test]
fn root_pattern_gets_empty_sibling() {
    let mut srv = AppService::new(true);
    NormalizedResource::new("/").to(Handler::Respond(200)).register(&mut srv);
    assert_eq!(srv.pattern(0), Some("/"));
    assert_eq!(srv.pattern(1), Some(""));
    assert_eq!(srv.call(&Request::with_uri("/")).status(), 200);
    assert_eq!(srv.call(&Request::with_uri("")).status(), 200);
}

#[test]
fn name_goes_to_the_primary_registration() {
    let mut srv = AppService::new(true);
    NormalizedResource::new("/test").name("test").to(Handler::Respond(200)).register(&mut srv);
    assert_eq!(srv.name(0), Some("test"));
    assert_eq!(srv.name(1), Some(""));
    assert_eq!(srv.name(2), None);
}

#[test]
fn guards_are_shared_by_both_registrations() {
    let mut srv = AppService::new(false);
    assert!(!srv.is_root());
    NormalizedResource::new("/test")
        .guard(Guard::get())
        .add_guards(vec![Guard::header("accept", "text/plain")])
        .to(Handler::Respond(200))
        .register(&mut srv);
    assert_eq!(srv.guards(0), Some(0));
    assert_eq!(srv.guards(1), Some(0));
    let plain = Request::with_uri("/test/").header("accept", "text/plain");
    assert_eq!(srv.call(&plain).status(), 200);
    let json = Request::with_uri("/test/").header("accept", "text/json");
    assert_eq!(srv.call(&json).status(), 404);
    let post = Request::new(Method::Post, "/test").header("accept", "text/plain");
    assert_eq!(srv.call(&post).status(), 404);
}

#[test]
fn routes_are_tried_in_registration_order() {
    let mut srv = AppService::new(true);
    NormalizedResource::new("/test")
        .route(Route::get().to(Handler::Respond(200)))
        .route(Route::put().to(Handler::Respond(201)))
        .route(Route::new().method(Method::Get).to(Handler::Respond(202)))
        .register(&mut srv);
    assert_eq!(srv.call(&Request::new(Method::Get, "/test")).status(), 200);
    assert_eq!(srv.call(&Request::new(Method::Put, "/test")).status(), 201);
    assert_eq!(srv.call(&Request::new(Method::Delete, "/test")).status(), 405);
}

#[test]
fn default_handler_answers_what_no_route_accepts() {
    let mut srv = AppService::new(true);
    let built: Result<Handler, ()> = Ok(Handler::Respond(400));
    NormalizedResource::new("/test")
        .route(Route::get().to(Handler::Respond(200)))
        .route(Route::put().to(Handler::Respond(201)))
        .default_service(built)
        .register(&mut srv);
    assert_eq!(srv.call(&Request::new(Method::Get, "/test")).status(), 200);
    assert_eq!(srv.call(&Request::new(Method::Put, "/test")).status(), 201);
    assert_eq!(srv.call(&Request::new(Method::Delete, "/test")).status(), 400);
}

#[test]
fn failed_default_service_leaves_no_default() {
    let mut srv = AppService::new(true);
    let first: Result<Handler, String> = Ok(Handler::Respond(400));
    let second: Result<Handler, String> = Err(String::from("cannot construct"));
    NormalizedResource::new("/test")
        .route(Route::get().to(Handler::Respond(200)))
        .default_service(first)
        .default_service(second)
        .register(&mut srv);
    assert_eq!(srv.call(&Request::new(Method::Delete, "/test")).status(), 405);
}

#[test]
fn middleware_header_is_on_route_default_and_fallback_responses() {
    let mut srv = AppService::new(true);
    let built: Result<Handler, ()> = Ok(Handler::Respond(400));
    NormalizedResource::new("/test")
        .wrap(Middleware::response_header("x-tag", "0001"))
        .route(Route::get().to(Handler::Respond(200)))
        .default_service(built)
        .register(&mut srv);
    NormalizedResource::new("/bare")
        .wrap(Middleware::response_header("x-tag", "0001"))
        .route(Route::get().to(Handler::Respond(200)))
        .register(&mut srv);
    let matched = srv.call(&Request::new(Method::Get, "/test"));
    assert_eq!(matched.status(), 200);
    assert_eq!(matched.headers().get("x-tag"), Some(String::from("0001")));
    let fallback = srv.call(&Request::new(Method::Delete, "/test"));
    assert_eq!(fallback.status(), 400);
    assert_eq!(fallback.headers().get("x-tag"), Some(String::from("0001")));
    let refused = srv.call(&Request::new(Method::Delete, "/bare"));
    assert_eq!(refused.status(), 405);
    assert_eq!(refused.headers().get("x-tag"), Some(String::from("0001")));
    let missed = srv.call(&Request::new(Method::Get, "/none"));
    assert_eq!(missed.status(), 404);
    assert_eq!(missed.headers().get("x-tag"), None);
}

#[test]
fn last_registered_layer_is_outermost() {
    let mut srv = AppService::new(true);
    NormalizedResource::new("/test")
        .wrap(Middleware::response_header("x-tag", "inner"))
        .wrap(Middleware::request_header("x-mode", "inner"))
        .wrap(Middleware::response_header("x-tag", "outer"))
        .wrap(Middleware::request_header("x-mode", "outer"))
        .route(Route::new().guard(Guard::header("x-mode", "inner")).to(Handler::Respond(200)))
        .route(Route::new().guard(Guard::header("x-mode", "outer")).to(Handler::Respond(201)))
        .register(&mut srv);
    let resp = srv.call(&Request::with_uri("/test"));
    assert_eq!(resp.status(), 200);
    assert_eq!(resp.headers().get("x-tag"), Some(String::from("outer")));
}

#[test]
fn scoped_data_reaches_every_route_and_overrides_outer_data() {
    let mut srv = AppService::new(true);
    srv.data(7, "outer");
    srv.data(8, "shared");
    NormalizedResource::new("/own")
        .data(7, "first")
        .data(7, "own")
        .route(Route::get().to(Handler::Extract(7)))
        .route(Route::put().to(Handler::Extract(7)))
        .route(Route::post().to(Handler::Extract(8)))
        .route(Route::delete().to(Handler::Extract(9)))
        .register(&mut srv);
    NormalizedResource::new("/plain").to(Handler::Extract(7)).register(&mut srv);

    let resp = srv.call(&Request::new(Method::Get, "/own"));
    assert_eq!(resp.status(), 200);
    assert_eq!(resp.body(), "own");
    let resp = srv.call(&Request::new(Method::Put, "/own/"));
    assert_eq!(resp.body(), "own");
    let resp = srv.call(&Request::new(Method::Post, "/own"));
    assert_eq!(resp.status(), 200);
    assert_eq!(resp.body(), "shared");
    let resp = srv.call(&Request::new(Method::Delete, "/own"));
    assert_eq!(resp.status(), 500);
    assert_eq!(resp.body(), "");
    let resp = srv.call(&Request::new(Method::Get, "/plain"));
    assert_eq!(resp.status(), 200);
    assert_eq!(resp.body(), "outer");
}

#[test]
fn default_handler_extracts_from_the_outer_scope() {
    let mut srv = AppService::new(true);
    srv.data(7, "outer");
    let built: Result<Handler, ()> = Ok(Handler::Extract(7));
    NormalizedResource::new("/own")
        .data(7, "own")
        .route(Route::get().to(Handler::Extract(7)))
        .default_service(built)
        .register(&mut srv);
    assert_eq!(srv.call(&Request::new(Method::Get, "/own")).body(), "own");
    assert_eq!(srv.call(&Request::new(Method::Post, "/own")).body(), "outer");
}

#[test]
fn into_new_service_fills_the_slot() {
    let service = NormalizedResource::new("/test")
        .route(Route::get().to(Handler::Respond(200)))
        .into_new_service();
    assert!(service.is_ready());
    let outer = normalized_resource::data::Extensions::new();
    assert_eq!(service.call(&Request::new(Method::Get, "/anything"), &outer).status(), 200);
    assert_eq!(service.call(&Request::new(Method::Put, "/anything"), &outer).status(), 405);
}
