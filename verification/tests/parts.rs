use normalized_resource::data::Extensions;
use normalized_resource::guard::{check_all, check_any, Guard};
use normalized_resource::handler::Handler;
use normalized_resource::http::{same_text, HeaderMap, Method, Request, Response};
use normalized_resource::middleware::Middleware;
use normalized_resource::pattern::{chars_of, ResourceDef};
use normalized_resource::route::Route;
use normalized_resource::service::{
    FactorySlot, Pipeline, ResourceEndpoint, ResourceFactory,
};

#[test]
fn header_map_keeps_the_last_value() {
    let mut headers = HeaderMap::new();
    assert_eq!(headers.get("a"), None);
    headers.insert("a", "1");
    headers.insert("b", "2");
    headers.insert("a", "3");
    assert_eq!(headers.get("a"), Some(String::from("3")));
    assert_eq!(headers.get("b"), Some(String::from("2")));
    assert_eq!(headers.get("A"), None);
    assert!(headers.has("a", "3"));
    assert!(!headers.has("a", "1"));
    assert!(!headers.has("c", ""));
    let copy = headers.duplicate();
    assert_eq!(copy.get("a"), Some(String::from("3")));
}

#[test]
fn same_text_compares_characters() {
    assert!(same_text("abc", "abc"));
    assert!(!same_text("abc", "abd"));
    assert!(!same_text("abc", "ab"));
    assert!(same_text("", ""));
}

#[test]
fn request_builders_set_their_part() {
    let req = Request::with_uri("/x").method(Method::Patch).header("k", "v");
    assert_eq!(req.get_method(), Method::Patch);
    assert_eq!(req.path(), "/x");
    assert_eq!(req.headers().get("k"), Some(String::from("v")));
    let mut copy = req.duplicate();
    copy.set_header("k", "w");
    assert_eq!(copy.headers().get("k"), Some(String::from("w")));
    assert_eq!(req.headers().get("k"), Some(String::from("v")));
}

#[test]
fn response_builders_set_their_part() {
    let mut resp = Response::with_body(201, "made");
    assert_eq!(resp.status(), 201);
    assert_eq!(resp.body(), "made");
    assert_eq!(resp.headers().get("k"), None);
    resp.set_header("k", "v");
    assert_eq!(resp.headers().get("k"), Some(String::from("v")));
    assert_eq!(Response::new(204).body(), "");
}

#[test]
fn guards_evaluate_method_header_and_composites() {
    let get = Request::new(Method::Get, "/").header("accept", "text/plain");
    let put = Request::new(Method::Put, "/");
    assert!(Guard::get().check(&get));
    assert!(!Guard::get().check(&put));
    assert!(Guard::put().check(&put));
    assert!(!Guard::post().check(&put));
    assert!(!Guard::delete().check(&get));
    assert!(Guard::header("accept", "text/plain").check(&get));
    assert!(!Guard::header("accept", "text/json").check(&get));
    assert!(!Guard::header("accept", "text/plain").check(&put));
    assert!(Guard::Not(Box::new(Guard::get())).check(&put));
    assert!(!Guard::Not(Box::new(Guard::get())).check(&get));
    assert!(Guard::Any(vec![Guard::get(), Guard::put()]).check(&put));
    assert!(!Guard::Any(vec![Guard::get(), Guard::post()]).check(&put));
    assert!(!Guard::Any(vec![]).check(&put));
    assert!(Guard::All(vec![Guard::get(), Guard::header("accept", "text/plain")]).check(&get));
    assert!(!Guard::All(vec![Guard::get(), Guard::header("accept", "text/json")]).check(&get));
    assert!(Guard::All(vec![]).check(&put));
    assert!(Guard::All(vec![Guard::Any(vec![Guard::post(), Guard::put()])]).check(&put));
}

#[test]
fn guard_sets_need_every_guard() {
    let get = Request::new(Method::Get, "/").header("accept", "text/plain");
    assert!(check_all(&vec![], &get));
    assert!(check_all(&vec![Guard::get(), Guard::header("accept", "text/plain")], &get));
    assert!(!check_all(&vec![Guard::get(), Guard::put()], &get));
    assert!(!check_any(&vec![], &get));
    assert!(check_any(&vec![Guard::put(), Guard::get()], &get));
    assert!(!check_any(&vec![Guard::put(), Guard::post()], &get));
}

#[test]
fn extensions_keep_the_last_value_per_key() {
    let mut ext = Extensions::new();
    assert!(ext.is_empty());
    assert!(!ext.contains(1));
    ext.insert(1, "a");
    ext.insert(2, "b");
    ext.insert(1, "c");
    assert!(!ext.is_empty());
    assert!(ext.contains(1));
    assert_eq!(ext.get(1), Some(String::from("c")));
    assert_eq!(ext.get(2), Some(String::from("b")));
    assert_eq!(ext.get(3), None);
}

#[test]
fn extensions_inherit_only_missing_keys() {
    let mut outer = Extensions::new();
    outer.insert(1, "outer-1");
    outer.insert(3, "outer-3");
    let mut own = Extensions::new();
    own.insert(1, "own-1");
    own.insert(2, "own-2");
    own.inherit(&outer);
    assert_eq!(own.get(1), Some(String::from("own-1")));
    assert_eq!(own.get(2), Some(String::from("own-2")));
    assert_eq!(own.get(3), Some(String::from("outer-3")));
    assert_eq!(outer.get(2), None);
}

#[test]
fn handlers_answer_as_described() {
    let req = Request::with_uri("/");
    let mut data = Extensions::new();
    data.insert(5, "value");
    let resp = Handler::Respond(418).call(&req, &data);
    assert_eq!(resp.status(), 418);
    assert_eq!(resp.body(), "");
    let resp = Handler::Extract(5).call(&req, &data);
    assert_eq!(resp.status(), 200);
    assert_eq!(resp.body(), "value");
    let resp = Handler::Extract(6).call(&req, &data);
    assert_eq!(resp.status(), 500);
}

#[test]
fn route_builders_and_check() {
    let route = Route::new();
    assert_eq!(route.handler(), Handler::Respond(404));
    assert!(!route.is_deferred());
    assert!(route.check(&Request::new(Method::Trace, "/")));
    let route = Route::post().guard(Guard::header("k", "v")).to_async(Handler::Respond(202));
    assert!(route.is_deferred());
    assert_eq!(route.handler(), Handler::Respond(202));
    assert!(route.check(&Request::new(Method::Post, "/").header("k", "v")));
    assert!(!route.check(&Request::new(Method::Post, "/")));
    assert!(!route.check(&Request::new(Method::Get, "/").header("k", "v")));
    assert!(Route::delete().check(&Request::new(Method::Delete, "/")));
    assert!(!Route::put().check(&Request::new(Method::Delete, "/")));
    assert!(!Route::get().to(Handler::Respond(200)).is_deferred());
}

#[test]
fn dispatcher_picks_first_match_then_default_then_405() {
    let routes = vec![
        Route::get().to(Handler::Respond(200)),
        Route::put().to(Handler::Respond(201)),
        Route::new().method(Method::Put).to(Handler::Respond(202)),
    ];
    let outer = Extensions::new();
    let factory = ResourceFactory::new(routes, None, None);
    assert_eq!(factory.dispatch(&Request::new(Method::Get, "/"), &outer).status(), 200);
    assert_eq!(factory.dispatch(&Request::new(Method::Put, "/"), &outer).status(), 201);
    assert_eq!(factory.dispatch(&Request::new(Method::Delete, "/"), &outer).status(), 405);
    let routes = vec![Route::get().to(Handler::Respond(200))];
    let factory = ResourceFactory::new(routes, None, Some(Handler::Respond(400)));
    assert_eq!(factory.dispatch(&Request::new(Method::Get, "/"), &outer).status(), 200);
    assert_eq!(factory.dispatch(&Request::new(Method::Delete, "/"), &outer).status(), 400);
    let empty = ResourceFactory::new(vec![], None, None);
    assert_eq!(empty.dispatch(&Request::new(Method::Get, "/"), &outer).status(), 405);
}

#[test]
fn slot_is_empty_until_filled() {
    let mut slot = FactorySlot::new();
    assert!(!slot.is_filled());
    slot.fill(ResourceFactory::new(vec![], None, Some(Handler::Respond(400))));
    assert!(slot.is_filled());
    let outer = Extensions::new();
    assert_eq!(slot.get().dispatch(&Request::with_uri("/"), &outer).status(), 400);
    let endpoint = ResourceEndpoint::new(slot);
    assert_eq!(endpoint.new_service().dispatch(&Request::with_uri("/"), &outer).status(), 400);
}

#[test]
fn pipeline_can_be_wrapped_before_the_slot_is_filled() {
    let pipeline = Pipeline::new(ResourceEndpoint::new(FactorySlot::new()));
    assert!(!pipeline.is_ready());
    let mut pipeline = pipeline.wrap(Middleware::response_header("x-tag", "0001"));
    assert!(!pipeline.is_ready());
    pipeline.fill(ResourceFactory::new(vec![Route::new().to(Handler::Respond(200))], None, None));
    assert!(pipeline.is_ready());
    let resp = pipeline.call(&Request::with_uri("/"), &Extensions::new());
    assert_eq!(resp.status(), 200);
    assert_eq!(resp.headers().get("x-tag"), Some(String::from("0001")));
}

#[test]
fn middleware_rewrites_only_its_side() {
    let mut req = Request::with_uri("/");
    let mut resp = Response::new(200);
    let layer = Middleware::request_header("a", "1");
    layer.on_request(&mut req);
    layer.on_response(&mut resp);
    assert_eq!(req.headers().get("a"), Some(String::from("1")));
    assert_eq!(resp.headers().get("a"), None);
    let layer = Middleware::response_header("b", "2");
    layer.on_request(&mut req);
    layer.on_response(&mut resp);
    assert_eq!(req.headers().get("b"), None);
    assert_eq!(resp.headers().get("b"), Some(String::from("2")));
}

#[test]
fn patterns_match_literally_and_by_placeholder() {
    let rdef = ResourceDef::new("/test/{p}");
    assert_eq!(rdef.pattern(), "/test/{p}");
    assert_eq!(rdef.name(), "");
    assert!(rdef.is_match("/test/it"));
    assert!(!rdef.is_match("/test/"));
    assert!(!rdef.is_match("/test"));
    assert!(!rdef.is_match("/test/it/"));
    assert!(!rdef.is_match("/test/it/more"));
    let rdef = ResourceDef::new("/user/{id}/profile");
    assert!(rdef.is_match("/user/42/profile"));
    assert!(!rdef.is_match("/user//profile"));
    assert!(!rdef.is_match("/user/42/profiles"));
    let mut rdef = ResourceDef::new("");
    assert!(rdef.is_match(""));
    assert!(!rdef.is_match("/"));
    rdef.set_name("root");
    assert_eq!(rdef.name(), "root");
    assert!(ResourceDef::new("/{a}/{b}").is_match("/x/y"));
    assert!(!ResourceDef::new("/{a}/{b}").is_match("/x"));
    assert!(ResourceDef::new("/{open").is_match("/x"));
}

#[test]
fn chars_of_lists_characters() {
    assert_eq!(chars_of("a/é"), vec!['a', '/', 'é']);
    assert_eq!(chars_of(""), Vec::<char>::new());
}
