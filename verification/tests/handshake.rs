use slot_session::approval::{
    approval_page, approval_url, callback_uri, port_text, MAX_PAGE_BYTES,
};
use slot_session::error::SessionError;
use slot_session::felt::Felt;
use slot_session::handshake::{Action, CallbackEndpoint, Event, Handshake, Phase, Reply};
use slot_session::model::{Policy, Session, SessionCredentials};
use slot_session::storage::locate;

fn policy(target: &str, method: &str) -> Policy {
    Policy { target: Felt::from_dec_str(target).expect("a target"), method: method.to_string() }
}

fn session(expires_at: &str) -> Session {
    Session {
        expires_at: expires_at.to_string(),
        policies: vec![policy("1", "transfer")],
        credentials: SessionCredentials {
            private_key: "0xkey".to_string(),
            authorization: vec!["0xa".to_string(), "0xb".to_string()],
        },
    }
}

fn waiting() -> Handshake {
    let (state, _) = Handshake::begin(Some("alice"), "http://localhost:5050/", &[policy("1", "transfer")]);
    let (state, _) = state.step(Event::EndpointBound(Some(8080)));
    let (state, action) = state.step(Event::BrowserLaunched(true));
    assert_eq!(action, Action::AwaitSession);
    assert_eq!(state.phase, Phase::Waiting);
    state
}

#[test]
fn the_callback_address_names_the_port() {
    assert_eq!(callback_uri(8080), "http://localhost:8080/callback");
    assert_eq!(callback_uri(0), "http://localhost:0/callback");
    assert_eq!(callback_uri(65535), "http://localhost:65535/callback");
    assert_eq!(port_text(7), "7");
    assert_eq!(port_text(10), "10");
    assert_eq!(port_text(40001), "40001");
}

#[test]
fn the_approval_page_is_the_base_and_the_query() {
    let page = approval_page("alice", "http://localhost:5050/", &[policy("1", "transfer")]).unwrap();
    assert_eq!(
        page,
        "https://x.cartridge.gg/slot/session?username=alice&rpc_url=http%3A%2F%2Flocalhost%3A5050%2F&policies=[%7B%22target%22%3A%221%22%2C%22method%22%3A%22transfer%22%7D]"
    );
}

#[test]
fn the_approval_url_carries_the_callback_address() {
    let page = approval_page("alice", "http://localhost:5050/", &[policy("1", "transfer")]).unwrap();
    let url = approval_url(&page, 8080).unwrap();
    assert_eq!(
        url,
        "https://x.cartridge.gg/slot/session?username=alice&rpc_url=http%3A%2F%2Flocalhost%3A5050%2F&policies=[%7B%22target%22%3A%221%22%2C%22method%22%3A%22transfer%22%7D]&callback_uri=http%3A%2F%2Flocalhost%3A8080%2Fcallback"
    );
}

#[test]
fn an_endpoint_with_a_query_of_its_own_stays_one_parameter() {
    let page = approval_page("alice", "http://h/?a=1&b=2#f", &[policy("1", "transfer")]).unwrap();
    let url = approval_url(&page, 8080).unwrap();
    assert_eq!(
        url,
        "https://x.cartridge.gg/slot/session?username=alice&rpc_url=http%3A%2F%2Fh%2F%3Fa%3D1%26b%3D2%23f&policies=[%7B%22target%22%3A%221%22%2C%22method%22%3A%22transfer%22%7D]&callback_uri=http%3A%2F%2Flocalhost%3A8080%2Fcallback"
    );
    assert!(!url.contains('#'));
    let query = url.split_once('?').unwrap().1;
    let names: Vec<&str> = query.split('&').map(|pair| pair.split_once('=').unwrap().0).collect();
    assert_eq!(names, ["username", "rpc_url", "policies", "callback_uri"]);
}

#[test]
fn an_endpoint_cannot_bring_a_callback_address_of_its_own() {
    let page = approval_page("alice", "http://h/?x=1&callback_uri=http://evil/", &[]).unwrap();
    let url = approval_url(&page, 8080).unwrap();
    assert_eq!(url.matches("callback_uri=").count(), 1);
    assert!(url.ends_with("&callback_uri=http%3A%2F%2Flocalhost%3A8080%2Fcallback"));
    assert!(!url.contains("evil/&"));
}

#[test]
fn an_address_that_is_no_url_is_refused() {
    assert_eq!(approval_url("not a url", 8080), Err(SessionError::EncodingError));
    assert_eq!(approval_url("", 8080), Err(SessionError::EncodingError));
    assert_eq!(
        approval_url("https://example.com/p", 1).unwrap(),
        "https://example.com/p?callback_uri=http%3A%2F%2Flocalhost%3A1%2Fcallback"
    );
}

#[test]
fn without_an_account_the_handshake_fails_at_once() {
    let (state, action) = Handshake::begin(None, "http://localhost:5050/", &[]);
    assert_eq!(action, Action::Fail(SessionError::IdentityUnavailable));
    assert_eq!(state.phase, Phase::Failed);
    let (state, action) = state.step(Event::EndpointBound(Some(1)));
    assert_eq!(action, Action::Nothing);
    assert_eq!(state.phase, Phase::Failed);
    let chain = Felt::from_dec_str("1").unwrap();
    assert_eq!(locate(None, &chain), Err(SessionError::IdentityUnavailable));
}

#[test]
fn the_handshake_goes_through_its_phases() {
    let (state, action) = Handshake::begin(Some("alice"), "http://localhost:5050/", &[]);
    assert_eq!(action, Action::BindEndpoint);
    assert_eq!(state.phase, Phase::Binding);
    assert_eq!(
        state.page,
        "https://x.cartridge.gg/slot/session?username=alice&rpc_url=http%3A%2F%2Flocalhost%3A5050%2F&policies=[]"
    );
    let (state, action) = state.step(Event::EndpointBound(Some(4242)));
    assert_eq!(
        action,
        Action::OpenBrowser(
            "https://x.cartridge.gg/slot/session?username=alice&rpc_url=http%3A%2F%2Flocalhost%3A5050%2F&policies=[]&callback_uri=http%3A%2F%2Flocalhost%3A4242%2Fcallback"
                .to_string()
        )
    );
    assert_eq!(state.phase, Phase::Launching);
    let (state, action) = state.step(Event::BrowserLaunched(true));
    assert_eq!(action, Action::AwaitSession);
    assert_eq!(state.phase, Phase::Waiting);
    let (state, action) = state.step(Event::Received(Some(session("soon"))));
    assert_eq!(action, Action::Return(session("soon")));
    assert_eq!(state.phase, Phase::Done);
}

#[test]
fn each_outside_failure_ends_the_handshake() {
    let (state, _) = Handshake::begin(Some("alice"), "http://rpc", &[]);
    let (state, action) = state.step(Event::EndpointBound(None));
    assert_eq!(action, Action::Fail(SessionError::EndpointBindFailed));
    assert_eq!(state.phase, Phase::Failed);

    let (state, _) = Handshake::begin(Some("alice"), "http://rpc", &[]);
    let (state, _) = state.step(Event::EndpointBound(Some(9)));
    let (state, action) = state.step(Event::BrowserLaunched(false));
    assert_eq!(action, Action::Fail(SessionError::BrowserLaunchFailed));
    assert_eq!(state.phase, Phase::Failed);

    let (state, action) = waiting().step(Event::Received(None));
    assert_eq!(action, Action::Fail(SessionError::ChannelClosed));
    assert_eq!(state.phase, Phase::Failed);
}

#[test]
fn a_report_out_of_turn_changes_nothing() {
    let (state, _) = Handshake::begin(Some("alice"), "http://rpc", &[]);
    let (state, action) = state.step(Event::BrowserLaunched(true));
    assert_eq!(action, Action::Nothing);
    assert_eq!(state.phase, Phase::Binding);
    let (state, action) = state.step(Event::Received(Some(session("soon"))));
    assert_eq!(action, Action::Nothing);
    assert_eq!(state.phase, Phase::Binding);
    let (state, action) = waiting().step(Event::EndpointBound(Some(1)));
    assert_eq!(action, Action::Nothing);
    assert_eq!(state.phase, Phase::Waiting);
}

#[test]
fn single_delivery() {
    let mut endpoint = CallbackEndpoint::new();
    let reply = endpoint.on_callback(Some(session("soon")));
    assert_eq!(reply.status(), 200);
    let forwarded = match reply {
        Reply::Forward(forwarded) => forwarded,
        other => panic!("expected a forward, got {:?}", other),
    };
    assert_eq!(forwarded, session("soon"));
    let (state, action) = waiting().step(Event::Received(Some(forwarded)));
    assert_eq!(action, Action::Return(session("soon")));
    let (state, action) = state.step(Event::Received(Some(session("later"))));
    assert_eq!(action, Action::Nothing);
    assert_eq!(state.phase, Phase::Done);
}

#[test]
fn a_second_delivery_is_a_conflict() {
    let mut endpoint = CallbackEndpoint::new();
    assert_eq!(endpoint.on_callback(Some(session("soon"))), Reply::Forward(session("soon")));
    assert!(endpoint.fulfilled);
    let again = endpoint.on_callback(Some(session("soon")));
    assert_eq!(again, Reply::Conflict);
    assert_eq!(again.status(), 409);
    assert_eq!(endpoint.on_callback(Some(session("later"))), Reply::Conflict);
    assert!(endpoint.fulfilled);
}

#[test]
fn malformed_rejection() {
    let mut endpoint = CallbackEndpoint::new();
    for _ in 0..3 {
        let reply = endpoint.on_callback(None);
        assert_eq!(reply, Reply::Malformed);
        assert_eq!(reply.status(), 400);
        assert!(!endpoint.fulfilled);
    }
    assert_eq!(endpoint.on_callback(Some(session("soon"))), Reply::Forward(session("soon")));
    assert_eq!(endpoint.on_callback(None), Reply::Malformed);
    assert!(endpoint.fulfilled);
}

#[test]
fn a_malformed_callback_does_not_abort() {
    assert!(!SessionError::MalformedCallback.aborts_handshake());
    for error in [
        SessionError::IdentityUnavailable,
        SessionError::BrowserLaunchFailed,
        SessionError::EndpointBindFailed,
        SessionError::EncodingError,
        SessionError::ChannelClosed,
        SessionError::SessionNotFound,
        SessionError::DeserializationError,
        SessionError::PersistenceWriteFailed,
    ] {
        assert!(error.aborts_handshake());
        assert!(!error.message().is_empty());
    }
    assert_eq!(
        SessionError::IdentityUnavailable.message(),
        "no authenticated account: log in first"
    );
}

#[test]
fn end_to_end() {
    let policies = vec![policy("1", "transfer")];
    let chain = Felt::from_dec_str("23448594291968334").unwrap();
    let (state, action) = Handshake::begin(Some("alice"), "http://localhost:5050/", &policies);
    assert_eq!(action, Action::BindEndpoint);
    let port = 51234;
    let (state, action) = state.step(Event::EndpointBound(Some(port)));
    let url = match action {
        Action::OpenBrowser(url) => url,
        other => panic!("expected the browser to be opened, got {:?}", other),
    };
    assert!(url.contains("callback_uri=http%3A%2F%2Flocalhost%3A51234%2Fcallback"));
    assert!(url.starts_with("https://x.cartridge.gg/slot/session?username=alice&"));
    let (state, _) = state.step(Event::BrowserLaunched(true));
    let mut endpoint = CallbackEndpoint::new();
    let approved = Session {
        expires_at: "1718000000".to_string(),
        policies,
        credentials: SessionCredentials {
            private_key: "0x1234".to_string(),
            authorization: vec!["0xaa".to_string()],
        },
    };
    let forwarded = match endpoint.on_callback(Some(approved.clone())) {
        Reply::Forward(forwarded) => forwarded,
        other => panic!("expected a forward, got {:?}", other),
    };
    let (_, action) = state.step(Event::Received(Some(forwarded)));
    assert_eq!(action, Action::Return(approved));
    let place = locate(Some("alice"), &chain).unwrap();
    assert_eq!(place.account, "alice");
    assert_eq!(place.file_name, "0x534e5f4d41494e-session.json");
}

#[test]
fn a_refused_body_is_logged_as_malformed() {
    assert_eq!(Reply::Malformed.failure(), Some(SessionError::MalformedCallback));
    assert_eq!(Reply::Conflict.failure(), None);
    assert_eq!(Reply::Forward(session("soon")).failure(), None);
}

#[test]
fn the_browser_is_opened_only_on_a_url() {
    let (state, action) =
        Handshake::launching("page".to_string(), Ok("https://example.com/".to_string()));
    assert_eq!(state, Handshake { phase: Phase::Launching, page: "page".to_string() });
    assert_eq!(action, Action::OpenBrowser("https://example.com/".to_string()));
    let (state, action) =
        Handshake::launching("page".to_string(), Err(SessionError::EncodingError));
    assert_eq!(state, Handshake { phase: Phase::Failed, page: "page".to_string() });
    assert_eq!(action, Action::Fail(SessionError::EncodingError));
}

#[test]
fn a_page_address_that_does_not_parse_fails_the_handshake() {
    let state = Handshake { phase: Phase::Binding, page: "no url".to_string() };
    let (state, action) = state.step(Event::EndpointBound(Some(8080)));
    assert_eq!(action, Action::Fail(SessionError::EncodingError));
    assert_eq!(state.phase, Phase::Failed);
}

#[test]
fn the_url_crate_normalises_the_page_address() {
    assert_eq!(
        approval_url("HTTPS://Example.COM/a b?x=<y>#frag", 9).unwrap(),
        "https://example.com/a%20b?x=%3Cy%3E&callback_uri=http%3A%2F%2Flocalhost%3A9%2Fcallback#frag"
    );
}

#[test]
fn an_overlong_page_address_is_refused() {
    let mut page = "https://example.com/?".to_string();
    page.push_str(&"a".repeat(MAX_PAGE_BYTES + 1 - page.len()));
    assert_eq!(page.len(), MAX_PAGE_BYTES + 1);
    assert_eq!(approval_url(&page, 8080), Err(SessionError::EncodingError));
}
