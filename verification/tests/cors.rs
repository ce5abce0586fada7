use free_agent_gateway::cors::{any_origin, parse_cors_headers, parse_cors_methods};

#[test]
fn cors_methods_follow_configuration_and_ignore_invalid_values() {
    let methods =
        parse_cors_methods(&vec!["GET".into(), "POST".into(), "not a method".into()]);

    assert_eq!(
        methods,
        vec![axum::http::Method::GET.as_str(), axum::http::Method::POST.as_str()]
    );
}

#[test]
fn cors_headers_follow_configuration_and_ignore_invalid_values() {
    let headers = parse_cors_headers(&vec![
        "Authorization".into(),
        "Content-Type".into(),
        "bad header".into(),
    ]);

    assert_eq!(
        headers,
        vec![
            axum::http::header::AUTHORIZATION.as_str(),
            axum::http::header::CONTENT_TYPE.as_str()
        ]
    );
}

#[test]
fn a_star_allows_every_origin() {
    assert!(any_origin(&vec!["*".into()]));
    assert!(!any_origin(&vec!["http://a".into()]));
}
