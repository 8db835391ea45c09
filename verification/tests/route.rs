use qrstats::error::Error;
use qrstats::form::FormValue;
use qrstats::page::{create_success, stats_view};
use qrstats::record::{Stats, Target};
use qrstats::route::{
    create_reply, failure, post_create, post_stats_login, redirect, redirect_reply, stats,
    stats_reply, Reply,
};
use qrstats::service::Shortener;

fn text(value: &str) -> Option<FormValue> {
    Some(FormValue::Field(value.to_string()))
}

fn service_with(id: &str, target: &Target) -> Shortener {
    let mut service = Shortener::new();
    assert_eq!(service.create_from(true, target, &vec![id.to_string()]), Ok(id.to_string()));
    service
}

fn created_id(service: &Shortener, reply: &Reply, target: &Target) -> String {
    let body = match reply {
        Reply::Page(body) => body.clone(),
        other => panic!("no page: {:?}", other),
    };
    let marker = "\") is: ";
    let start = body.find(marker).expect("the page names the identifier") + marker.len();
    let id = body[start..start + 8].to_string();
    assert_eq!(body, create_success(target, &id));
    assert!(service.get_target_by_id(&id).is_ok());
    id
}

#[test]
fn failures_go_out_under_their_status() {
    assert_eq!(
        failure(Error::Validation),
        Reply::Failure(400, "Bad Request: a well-formed absolute URL is required".to_string())
    );
    assert_eq!(failure(Error::NotFound), Reply::Failure(404, "ID Not Found in our System".to_string()));
    assert_eq!(failure(Error::Auth), Reply::Failure(401, "Unauthorized".to_string()));
    assert_eq!(
        failure(Error::GenerationExhausted),
        Reply::Failure(500, "Could not find a free ID, please try again".to_string())
    );
    assert_eq!(failure(Error::Store), Reply::Failure(500, "Internal Server Error".to_string()));
}

#[test]
fn outcomes_become_replies() {
    let target = Target { url: "http://example.com".to_string(), pw_hash: None };
    assert_eq!(
        create_reply(&target, Ok("a1b2c3d4".to_string())),
        Reply::Page(create_success(&target, "a1b2c3d4"))
    );
    assert_eq!(create_reply(&target, Err(Error::GenerationExhausted)), failure(Error::GenerationExhausted));
    assert_eq!(
        redirect_reply(Ok("http://example.com".to_string())),
        Reply::Redirect("http://example.com".to_string())
    );
    assert_eq!(redirect_reply(Err(Error::NotFound)), failure(Error::NotFound));
    let counted = Stats { id: "a1b2c3d4".to_string(), count: 3 };
    assert_eq!(stats_reply(Ok(counted.clone())), Reply::Page(stats_view(&counted)));
    assert_eq!(stats_reply(Err(Error::Auth)), failure(Error::Auth));
}

#[test]
fn creation_form_stores_a_record() {
    let mut service = Shortener::new();
    let reply = post_create(&mut service, text("http://example.com"), None, 8);
    let target = Target { url: "http://example.com".to_string(), pw_hash: None };
    let id = created_id(&service, &reply, &target);
    assert_eq!(service.get_target_by_id(&id), Ok(target));
    assert_eq!(
        redirect(&mut service, Some(id.as_str())),
        Reply::Redirect("http://example.com".to_string())
    );
}

#[test]
fn creation_form_with_bad_input_is_a_bad_request() {
    let mut service = Shortener::new();
    let bad = failure(Error::Validation);
    assert_eq!(post_create(&mut service, text("not-a-url"), None, 8), bad);
    assert_eq!(post_create(&mut service, None, text("secret"), 8), bad);
    assert_eq!(post_create(&mut service, Some(FormValue::File), None, 8), bad);
    assert_eq!(post_create(&mut service, text(""), None, 8), bad);
}

#[test]
fn creation_form_without_attempts_is_a_server_failure() {
    let mut service = Shortener::new();
    assert_eq!(
        post_create(&mut service, text("http://example.com"), None, 0),
        failure(Error::GenerationExhausted)
    );
}

#[test]
fn redirect_route_needs_a_known_identifier() {
    let target = Target { url: "http://example.com".to_string(), pw_hash: None };
    let mut service = service_with("a1b2c3d4", &target);
    assert_eq!(
        redirect(&mut service, None),
        Reply::Failure(400, "Bad Request: No ID in URL".to_string())
    );
    assert_eq!(redirect(&mut service, Some("ffffffff")), failure(Error::NotFound));
    assert_eq!(service.get_redirect_count("a1b2c3d4"), 0);
    assert_eq!(
        redirect(&mut service, Some("a1b2c3d4")),
        Reply::Redirect("http://example.com".to_string())
    );
    assert_eq!(service.get_redirect_count("a1b2c3d4"), 1);
}

#[test]
fn login_form_needs_identifier_and_password() {
    let target = Target { url: "http://example.com".to_string(), pw_hash: None };
    let service = service_with("a1b2c3d4", &target);
    assert_eq!(
        post_stats_login(&service, None, text("secret")),
        Reply::Failure(400, "Bad Request: ID Not Found".to_string())
    );
    assert_eq!(
        post_stats_login(&service, Some(FormValue::File), text("secret")),
        Reply::Failure(400, "Bad Request: ID Not Found".to_string())
    );
    assert_eq!(
        post_stats_login(&service, text("a1b2c3d4"), None),
        Reply::Failure(400, "Bad Request: Password Not Found".to_string())
    );
    assert_eq!(
        post_stats_login(&service, None, None),
        Reply::Failure(400, "Bad Request: ID Not Found".to_string())
    );
}

#[test]
fn login_form_shows_statistics_to_the_password() {
    let mut service = Shortener::new();
    let reply = post_create(&mut service, text("http://x.com"), text("secret"), 8);
    let stored = match &reply {
        Reply::Page(body) => {
            let marker = "\") is: ";
            let start = body.find(marker).expect("the page names the identifier") + marker.len();
            body[start..start + 8].to_string()
        }
        other => panic!("no page: {:?}", other),
    };
    let _ = redirect(&mut service, Some(stored.as_str()));
    let _ = redirect(&mut service, Some(stored.as_str()));
    assert_eq!(
        post_stats_login(&service, text(&stored), text("secret")),
        Reply::Page(stats_view(&Stats { id: stored.clone(), count: 2 }))
    );
    assert_eq!(post_stats_login(&service, text(&stored), text("wrong")), failure(Error::Auth));
    assert_eq!(post_stats_login(&service, text(&stored), text("")), failure(Error::Auth));
    assert_eq!(
        post_stats_login(&service, text("ffffffff"), text("secret")),
        failure(Error::NotFound)
    );
}

#[test]
fn statistics_route_answers_by_identifier_and_credential() {
    let open = Target { url: "http://example.com".to_string(), pw_hash: None };
    let mut service = service_with("a1b2c3d4", &open);
    let _ = redirect(&mut service, Some("a1b2c3d4"));
    let page = Reply::Page(stats_view(&Stats { id: "a1b2c3d4".to_string(), count: 1 }));
    assert_eq!(stats(&service, "https://qr.example", Some("a1b2c3d4"), None), page);
    assert_eq!(
        stats(&service, "https://qr.example", Some("a1b2c3d4"), Some(&"any".to_string())),
        page
    );
    assert_eq!(
        stats(&service, "https://qr.example", Some("ffffffff"), None),
        failure(Error::NotFound)
    );
    assert_eq!(
        stats(&service, "https://qr.example", None, None),
        Reply::Redirect("https://qr.example/stats".to_string())
    );
}

#[test]
fn statistics_route_refuses_a_gated_record_without_its_password() {
    let mut service = Shortener::new();
    let id = service
        .create("http://x.com".to_string(), Some("secret".to_string()), 8)
        .expect("the store is empty");
    assert_eq!(stats(&service, "https://qr.example", Some(id.as_str()), None), failure(Error::Auth));
    assert_eq!(
        stats(&service, "https://qr.example", Some(id.as_str()), Some(&"wrong".to_string())),
        failure(Error::Auth)
    );
    assert_eq!(
        stats(&service, "https://qr.example", Some(id.as_str()), Some(&"secret".to_string())),
        Reply::Page(stats_view(&Stats { id: id.clone(), count: 0 }))
    );
}
