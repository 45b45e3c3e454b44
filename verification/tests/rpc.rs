use light_letter::request::{
    client_request_channel, request_failure, Delivery, RequestChannel, RequestError,
    RequestStage,
};
use light_letter::rpc::{
    current_user, hash_pwd, login, normalize_id, register, rpc_reply, rpc_route,
    CurrentUserResp, LoginEvent, LoginReq, LoginResp, LoginStep, RegisterEvent, RegisterReq,
    RegisterResp, RegisterStep, RpcError, RpcMethod, StoredAccount,
};
use light_letter::session::{LoginUser, Session};

fn login_req(account: &str, pwd: &str) -> LoginReq {
    LoginReq { account: account.to_string(), pwd: pwd.to_string() }
}

fn register_req(name: &str, account: &str, pwd: &str, email: &str) -> RegisterReq {
    RegisterReq {
        name: name.to_string(),
        account: account.to_string(),
        pwd: pwd.to_string(),
        email: email.to_string(),
    }
}

#[test]
fn declared_paths_name_their_procedures() {
    assert_eq!(rpc_route("/backstage/login"), Ok(RpcMethod::Login));
    assert_eq!(rpc_route("/backstage/register"), Ok(RpcMethod::Register));
    assert_eq!(rpc_route("/backstage/current-user"), Ok(RpcMethod::CurrentUser));
}

#[test]
fn an_undeclared_path_is_no_such_route() {
    assert_eq!(rpc_route("/backstage/post/recent"), Err(RpcError::NoSuchRoute));
    assert_eq!(rpc_route(""), Err(RpcError::NoSuchRoute));
    assert_eq!(rpc_route("/backstage/login/"), Err(RpcError::NoSuchRoute));
    assert_eq!(rpc_route("backstage/login"), Err(RpcError::NoSuchRoute));
}

#[test]
fn errors_have_their_statuses_and_words() {
    assert_eq!(RpcError::InternalError("boom".to_string()).status(), 500);
    assert_eq!(RpcError::ParseError("bad".to_string()).status(), 400);
    assert_eq!(RpcError::NoSuchRoute.status(), 404);
    assert_eq!(RpcError::IllegalArgs("short".to_string()).status(), 400);
    assert_eq!(RpcError::InternalError("boom".to_string()).to_string(), "boom");
    assert_eq!(RpcError::ParseError("bad".to_string()).to_string(), "bad");
    assert_eq!(RpcError::NoSuchRoute.to_string(), "");
    assert_eq!(RpcError::IllegalArgs("short".to_string()).to_string(), "short");
    assert_eq!(
        RpcError::no_database(),
        RpcError::InternalError("Fail connecting to database".to_string())
    );
}

#[test]
fn a_short_account_is_illegal_arguments() {
    let e = login_req("abc", "x").validate().unwrap_err();
    assert_eq!(e, RpcError::IllegalArgs("account: Validation error: length".to_string()));
    assert_eq!(e.status(), 400);
    assert!(login_req("abcd", "x").validate().is_ok());
    assert!(login_req(&"a".repeat(32), "").validate().is_ok());
    assert!(login_req(&"a".repeat(33), "").validate().is_err());
    assert!(login_req("abcd", &"p".repeat(64)).validate().is_ok());
    assert_eq!(
        login_req("abcd", &"p".repeat(65)).validate(),
        Err(RpcError::IllegalArgs("pwd: Validation error: length".to_string()))
    );
    assert!(login_req("\u{e4}\u{f6}\u{fc}\u{df}", "").validate().is_ok());
}

#[test]
fn a_registration_is_held_against_its_constraints() {
    assert!(register_req("Alice", "alice", "pw", "a@example.com").validate().is_ok());
    assert_eq!(
        register_req("Al", "alice", "pw", "a@example.com").validate(),
        Err(RpcError::IllegalArgs("name: Validation error: length".to_string()))
    );
    assert_eq!(
        register_req("Alice", "al", "pw", "a@example.com").validate(),
        Err(RpcError::IllegalArgs("account: Validation error: length".to_string()))
    );
    assert_eq!(
        register_req("Alice", "alice", &"p".repeat(65), "a@example.com").validate(),
        Err(RpcError::IllegalArgs("pwd: Validation error: length".to_string()))
    );
    assert_eq!(
        register_req("Alice", "alice", "pw", "not an address").validate(),
        Err(RpcError::IllegalArgs("email: Validation error: email".to_string()))
    );
    assert_eq!(
        register_req("Alice", "alice", "pw", "").validate(),
        Err(RpcError::IllegalArgs("email: Validation error: email".to_string()))
    );
    let long = format!("{}@example.com", "a".repeat(60));
    assert_eq!(
        register_req("Alice", "alice", "pw", &long).validate(),
        Err(RpcError::IllegalArgs("email: Validation error: length".to_string()))
    );
}

#[test]
fn an_account_name_stands_for_its_id_in_lower_case() {
    assert_eq!(normalize_id("AbCd"), Some("abcd".to_string()));
    assert_eq!(normalize_id("user_01-X"), Some("user_01-x".to_string()));
    assert_eq!(normalize_id("abc"), None);
    assert_eq!(normalize_id("ab cd"), None);
    assert_eq!(normalize_id("\u{e4}bcd"), None);
    assert_eq!(normalize_id(&"a".repeat(33)), None);
}

#[test]
fn a_stored_password_is_a_digest() {
    assert_eq!(
        hash_pwd("abcd", "pw"),
        "715460f092031669491afb94866bfc5d86de41f715756e575977c94ffbb3959e"
    );
}

fn stored() -> StoredAccount {
    StoredAccount {
        id: "abcd".to_string(),
        name: "Alice".to_string(),
        pwd: hash_pwd("abcd", "pw"),
    }
}

#[test]
fn logging_in_goes_by_steps() {
    let mut session = Session::new();
    let req = login_req("AbCd", "pw");
    assert_eq!(login(&req, LoginEvent::Begin, &mut session), Ok(LoginStep::Connect));
    assert_eq!(
        login(&req, LoginEvent::Connected, &mut session),
        Ok(LoginStep::Lookup("abcd".to_string()))
    );
    let bad = login_req("ab;cd", "pw");
    assert_eq!(login(&bad, LoginEvent::Begin, &mut session), Ok(LoginStep::Connect));
    assert_eq!(
        login(&bad, LoginEvent::Connected, &mut session),
        Ok(LoginStep::Reply(LoginResp::IdIllegal))
    );
    assert_eq!(
        login(&bad, LoginEvent::Found(Some(stored())), &mut session),
        Ok(LoginStep::Reply(LoginResp::IdIllegal))
    );
    assert_eq!(session, Session::new());
}

#[test]
fn a_login_that_breaks_a_constraint_takes_no_step() {
    let refusal = Err(RpcError::IllegalArgs("account: Validation error: length".to_string()));
    let mut session = Session::new();
    let req = login_req("abc", "pw");
    assert_eq!(login(&req, LoginEvent::Begin, &mut session), refusal);
    assert_eq!(login(&req, LoginEvent::Connected, &mut session), refusal);
    assert_eq!(login(&req, LoginEvent::Found(Some(stored())), &mut session), refusal);
    assert_eq!(login(&req, LoginEvent::Found(None), &mut session), refusal);
    assert_eq!(session, Session::new());
    let req = login_req("abcd", &"p".repeat(65));
    assert_eq!(
        login(&req, LoginEvent::Begin, &mut session),
        Err(RpcError::IllegalArgs("pwd: Validation error: length".to_string()))
    );
}

#[test]
fn a_login_that_succeeds_changes_the_session() {
    let mut session = Session::new();
    let step = login(&login_req("ABCD", "pw"), LoginEvent::Found(Some(stored())), &mut session);
    assert_eq!(step, Ok(LoginStep::Reply(LoginResp::Success)));
    assert!(session.need_update());
    assert_eq!(
        session.login_user,
        Some(LoginUser { id: "abcd".to_string(), name: "Alice".to_string() })
    );
}

#[test]
fn a_login_that_fails_leaves_the_session() {
    let mut session = Session::new();
    let step = login(&login_req("abcd", "wrong"), LoginEvent::Found(Some(stored())), &mut session);
    assert_eq!(step, Ok(LoginStep::Reply(LoginResp::WrongPassword)));
    assert_eq!(session, Session::new());
    let step = login(&login_req("abcd", "pw"), LoginEvent::Found(None), &mut session);
    assert_eq!(step, Ok(LoginStep::Reply(LoginResp::NoSuchAccount)));
    assert_eq!(session, Session::new());
}

#[test]
fn the_current_user_is_read_from_the_session() {
    let mut session = Session::new();
    assert_eq!(current_user(&session), CurrentUserResp::NoLogged);
    session.log_in(LoginUser { id: "abcd".to_string(), name: "Alice".to_string() });
    assert_eq!(
        current_user(&session),
        CurrentUserResp::Logged(LoginUser { id: "abcd".to_string(), name: "Alice".to_string() })
    );
}

#[test]
fn registering_goes_by_steps() {
    let req = register_req("Alice", "AbCd", "pw", "a@example.com");
    assert_eq!(register(&req, RegisterEvent::Begin), Ok(RegisterStep::Connect));
    assert_eq!(register(&req, RegisterEvent::Connected), Ok(RegisterStep::ReadSetting));
    assert_eq!(
        register(&req, RegisterEvent::Setting(true)),
        Ok(RegisterStep::Reply(RegisterResp::Denied))
    );
    assert_eq!(
        register(&req, RegisterEvent::Setting(false)),
        Ok(RegisterStep::Lookup("abcd".to_string()))
    );
    assert_eq!(
        register(&req, RegisterEvent::Found(true)),
        Ok(RegisterStep::Reply(RegisterResp::IdUsed))
    );
    match register(&req, RegisterEvent::Found(false)) {
        Ok(RegisterStep::Insert(a)) => {
            assert_eq!(a.id, "abcd");
            assert_eq!(a.name, "Alice");
            assert_eq!(a.pwd, hash_pwd("abcd", "pw"));
            assert_eq!(a.email, "a@example.com");
        }
        other => panic!("{:?}", other),
    }
    assert_eq!(
        register(&req, RegisterEvent::Inserted),
        Ok(RegisterStep::Reply(RegisterResp::Success))
    );
    let bad = register_req("Alice", "ab cd", "pw", "a@example.com");
    assert_eq!(
        register(&bad, RegisterEvent::Setting(false)),
        Ok(RegisterStep::Reply(RegisterResp::IdIllegal))
    );
    assert_eq!(
        register(&bad, RegisterEvent::Setting(true)),
        Ok(RegisterStep::Reply(RegisterResp::Denied))
    );
    assert_eq!(
        register(&bad, RegisterEvent::Found(false)),
        Ok(RegisterStep::Reply(RegisterResp::IdIllegal))
    );
}

#[test]
fn a_registration_that_breaks_a_constraint_takes_no_step() {
    let events = [
        RegisterEvent::Begin,
        RegisterEvent::Connected,
        RegisterEvent::Setting(false),
        RegisterEvent::Setting(true),
        RegisterEvent::Found(false),
        RegisterEvent::Found(true),
        RegisterEvent::Inserted,
    ];
    let cases = [
        (register_req("ab", "abcd", "pw", "a@example.com"), "name: Validation error: length"),
        (register_req("Alice", "abc", "pw", "a@example.com"), "account: Validation error: length"),
        (
            register_req("Alice", &"a".repeat(33), "pw", "a@example.com"),
            "account: Validation error: length",
        ),
        (
            register_req("Alice", "abcd", &"p".repeat(65), "a@example.com"),
            "pwd: Validation error: length",
        ),
        (register_req("Alice", "abcd", "pw", "nobody"), "email: Validation error: email"),
    ];
    for (req, words) in cases.iter() {
        for event in events.iter() {
            assert_eq!(register(req, *event), Err(RpcError::IllegalArgs(words.to_string())));
        }
    }
}

#[test]
fn a_session_is_handed_back_only_where_it_was_changed() {
    let (body, session) = rpc_reply("\"Success\"".to_string(), Session::new());
    assert_eq!(body, "\"Success\"");
    assert_eq!(session, None);
    let mut changed = Session::new();
    changed.update();
    let (body, session) = rpc_reply("x".to_string(), changed.clone());
    assert_eq!(body, "x");
    assert_eq!(session, Some(changed));
}

#[test]
fn the_wire_goes_to_rpc_and_reads_the_status() {
    let wire = client_request_channel();
    assert_eq!(wire.delivery, Delivery::Wire);
    assert_eq!(wire.delivery_path("/backstage/login"), "/rpc/backstage/login");
    let local = RequestChannel::new(Delivery::InProcess);
    assert_eq!(local.delivery_path("/backstage/login"), "/backstage/login");
    assert_eq!(RequestChannel::wire_response(200, "ok".to_string()), Ok("ok".to_string()));
    assert_eq!(RequestChannel::wire_response(204, "".to_string()), Ok("".to_string()));
    assert_eq!(RequestChannel::wire_response(299, "ok".to_string()), Ok("ok".to_string()));
    assert_eq!(
        RequestChannel::wire_response(199, "early".to_string()),
        Err(RequestError::Custom("early".to_string()))
    );
    assert_eq!(
        RequestChannel::wire_response(300, "moved".to_string()),
        Err(RequestError::Custom("moved".to_string()))
    );
    assert_eq!(
        RequestChannel::wire_response(500, "boom".to_string()),
        Err(RequestError::Custom("boom".to_string()))
    );
    assert_eq!(
        RequestChannel::wire_response(404, "".to_string()),
        Err(RequestError::Custom("".to_string()))
    );
    assert_eq!(RequestChannel::local_response(Ok("ok".to_string())), Ok("ok".to_string()));
    assert_eq!(
        RequestChannel::local_response(Err(RpcError::IllegalArgs("short".to_string()))),
        Err(RequestError::Custom("short".to_string()))
    );
    assert_eq!(
        RequestChannel::local_response(Err(RpcError::NoSuchRoute)),
        Err(RequestError::Custom("".to_string()))
    );
}

#[test]
fn request_errors_are_written_with_their_kind() {
    assert_eq!(RequestError::Custom("a\"b".to_string()).to_string(), "Custom(\"a\\\"b\")");
    assert_eq!(RequestError::InvalidRequest("x".to_string()).to_string(), "InvalidRequest(\"x\")");
    assert_eq!(
        RequestError::InvalidResponse("line\n".to_string()).to_string(),
        "InvalidResponse(\"line\\n\")"
    );
    assert_eq!(
        RequestError::Custom("a\"b".to_string()).to_string(),
        format!("{:?}", RequestError::Custom("a\"b".to_string()))
    );
}

#[test]
fn a_failure_is_told_by_its_stage() {
    assert_eq!(
        request_failure(RequestStage::Serialize, "a".to_string()),
        RequestError::InvalidRequest("a".to_string())
    );
    assert_eq!(
        request_failure(RequestStage::Deliver, "b".to_string()),
        RequestError::Custom("b".to_string())
    );
    assert_eq!(
        request_failure(RequestStage::Deserialize, "c".to_string()),
        RequestError::InvalidResponse("c".to_string())
    );
}
