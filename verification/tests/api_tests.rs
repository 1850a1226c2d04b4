use rust_repos::api::{
    file_probe_url, handle_errors, list_repositories_path, parse_error_type, request_url,
    user_agent, GitHubApi,
    GitHubErrorType, GraphData, GraphError, GraphEvent, GraphLanguage, GraphLanguages,
    GraphPayload, GraphRef, GraphRepository, HttpEvent, RestEvent, RestRepository,
};
use rust_repos::errors::{classify, ApiFailure, ErrorClass};
use rust_repos::retry::{retry_step, RetryDecision, RetryState};

fn sample_graph_repo(branch: Option<&str>) -> GraphRepository {
    GraphRepository {
        id: String::from("node1"),
        name_with_owner: String::from("octo/widget"),
        default_branch_ref: branch.map(|b| GraphRef { name: String::from(b) }),
        languages: GraphLanguages {
            nodes: vec![Some(GraphLanguage { name: String::from("Rust") }), None],
        },
    }
}

#[test]
fn graph_not_found_slot_is_absent_not_a_failure() {
    let api = GitHubApi::new(String::from("t"));
    let data = GraphData {
        nodes: vec![None, Some(sample_graph_repo(Some("main")))],
        rate_limit_cost: 1,
    };
    let payload = GraphPayload {
        data: Some(data.clone()),
        errors: Some(vec![GraphError {
            message: String::from("Could not resolve to a node"),
            error_type: Some(String::from("NOT_FOUND")),
        }]),
        message: None,
    };
    let out = api.interpret_graph_response(GraphEvent::Payload(payload));
    let got = out.expect("a response with data must not be classified as a failure");
    assert_eq!(got.nodes.len(), 2);
    assert!(got.nodes[0].is_none());
    assert!(got.nodes[1].is_some());
    let loaded = api.load_repositories(got).expect("cost 1 is within the bound");
    assert!(loaded[0].is_none());
    assert_eq!(loaded[1].as_ref().unwrap().name_with_owner, "octo/widget");
}

#[test]
fn graph_cost_above_bound_fails_fatally() {
    let api = GitHubApi::new(String::from("t"));
    let data = GraphData {
        nodes: vec![Some(sample_graph_repo(Some("main")))],
        rate_limit_cost: 2,
    };
    let out = api.load_repositories(data);
    assert_eq!(out, Err(ApiFailure::CostTooHigh { cost: 2 }));
    assert_eq!(classify(&ApiFailure::CostTooHigh { cost: 2 }), ErrorClass::Fatal);
}

#[test]
fn graph_errors_without_data_fail() {
    let api = GitHubApi::new(String::from("t"));
    let payload = GraphPayload {
        data: None,
        errors: Some(vec![
            GraphError { message: String::from("first"), error_type: None },
            GraphError { message: String::from("second"), error_type: None },
        ]),
        message: None,
    };
    let out = api.interpret_graph_response(GraphEvent::Payload(payload));
    assert_eq!(out, Err(ApiFailure::GraphFailed { message: String::from("second") }));
}

#[test]
fn graph_abuse_message_is_retriable() {
    let api = GitHubApi::new(String::from("t"));
    let payload = GraphPayload {
        data: None,
        errors: None,
        message: Some(String::from("You have triggered an abuse detection mechanism.")),
    };
    let out = api.interpret_graph_response(GraphEvent::Payload(payload));
    assert_eq!(out, Err(ApiFailure::AbuseDetected));
    assert_eq!(classify(&ApiFailure::AbuseDetected), ErrorClass::Retriable);
}

#[test]
fn graph_empty_response_is_fatal() {
    let api = GitHubApi::new(String::from("t"));
    let payload = GraphPayload { data: None, errors: None, message: None };
    let out = api.interpret_graph_response(GraphEvent::Payload(payload));
    assert_eq!(out, Err(ApiFailure::EmptyResponse));
}

#[test]
fn scrape_returns_repositories_on_ok() {
    let api = GitHubApi::new(String::from("t"));
    let repos = vec![
        None,
        Some(RestRepository {
            id: 42,
            full_name: String::from("octo/widget"),
            node_id: String::from("node1"),
            fork: false,
        }),
    ];
    let out = api.scrape_repositories(RestEvent::Repositories(repos));
    let got = out.expect("a 200 listing succeeds");
    assert_eq!(got.len(), 2);
    assert!(got[0].is_none());
    assert_eq!(got[1].as_ref().unwrap().id, 42);
}

#[test]
fn scrape_abuse_payload_is_retriable_other_payloads_fatal() {
    let api = GitHubApi::new(String::from("t"));
    let out = api.scrape_repositories(RestEvent::ErrorPayload {
        status: 403,
        message: String::from("abuse detection triggered, slow down"),
    });
    assert_eq!(out, Err(ApiFailure::AbuseDetected));
    let out = api.scrape_repositories(RestEvent::ErrorPayload {
        status: 403,
        message: String::from("bad credentials"),
    });
    assert_eq!(
        out,
        Err(ApiFailure::ApiMessage { status: 403, message: String::from("bad credentials") })
    );
    let out = api.scrape_repositories(RestEvent::ErrorPayload {
        status: 502,
        message: String::from("ignored"),
    });
    assert_eq!(out, Err(ApiFailure::Status(502)));
}

#[test]
fn probe_statuses_map_to_existence() {
    let api = GitHubApi::new(String::from("t"));
    assert_eq!(api.file_exists(HttpEvent::Status(200)), Ok(true));
    assert_eq!(api.file_exists(HttpEvent::Status(404)), Ok(false));
    assert_eq!(api.file_exists(HttpEvent::Status(500)), Err(ApiFailure::Status(500)));
    assert_eq!(api.file_exists(HttpEvent::Status(403)), Err(ApiFailure::Status(403)));
    assert_eq!(api.file_exists(HttpEvent::Timeout), Err(ApiFailure::Timeout));
}

#[test]
fn probe_server_error_follows_backoff_then_succeeds() {
    let api = GitHubApi::new(String::from("t"));
    let mut state = RetryState::new();
    let mut flags = GitHubApi::new(String::from("t"));
    let mut sleeps = Vec::new();
    for _ in 0..3 {
        let out = api.file_exists(HttpEvent::Status(500));
        match retry_step(&mut state, &mut flags, out) {
            RetryDecision::SleepFor(s) => sleeps.push(s),
            other => panic!("expected a retry, got {:?}", other),
        }
    }
    assert_eq!(sleeps, vec![10, 20, 40]);
    let out = api.file_exists(HttpEvent::Status(200));
    assert_eq!(retry_step(&mut state, &mut flags, out), RetryDecision::Done(true));
}

#[test]
fn probe_url_uses_default_branch_and_falls_back() {
    let with_branch = sample_graph_repo(Some("trunk"));
    assert_eq!(
        file_probe_url(&with_branch, "Cargo.toml"),
        "https://raw.githubusercontent.com/octo/widget/trunk/Cargo.toml"
    );
    let without = sample_graph_repo(None);
    assert_eq!(
        file_probe_url(&without, "Cargo.lock"),
        "https://raw.githubusercontent.com/octo/widget/master/Cargo.lock"
    );
}

#[test]
fn request_urls_resolve_against_the_api_base() {
    assert_eq!(request_url("graphql"), "https://api.github.com/graphql");
    assert_eq!(
        request_url("https://raw.githubusercontent.com/a/b/c"),
        "https://raw.githubusercontent.com/a/b/c"
    );
    assert_eq!(list_repositories_path(12345), "repositories?since=12345");
    assert_eq!(list_repositories_path(0), "repositories?since=0");
    assert_eq!(user_agent(), "rust-repos (https://github.com/rust-ops/rust-repos)");
}

#[test]
fn auth_header_carries_the_token() {
    let api = GitHubApi::new(String::from("sample-value"));
    assert_eq!(api.auth_header(), "token sample-value");
}

#[test]
fn response_precheck_retries_transient_server_errors() {
    for s in [500u16, 502, 503, 504] {
        assert_eq!(handle_errors(s), Err(ApiFailure::Status(s)));
        assert_eq!(classify(&ApiFailure::Status(s)), ErrorClass::Retriable);
    }
    for s in [200u16, 301, 401, 404, 429, 501] {
        assert_eq!(handle_errors(s), Ok(s));
    }
}

#[test]
fn error_type_tags_parse() {
    assert_eq!(parse_error_type("NOT_FOUND"), GitHubErrorType::NotFound);
    assert_eq!(
        parse_error_type("FORBIDDEN"),
        GitHubErrorType::Other(String::from("FORBIDDEN"))
    );
}
