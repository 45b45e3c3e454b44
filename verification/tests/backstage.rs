use light_letter::backstage::{
    hash_pwd, load_post_list, login_outcome, login_request, register_outcome, register_request,
    HintArea, HintKind,
};
use light_letter::post::{
    list, list_finish, post_meta, Post, PostListFilter, PostListReq, PostListResp, PostQuery,
    PostStatus,
};
use light_letter::rpc::{LoginResp, RegisterResp, RpcError};

#[test]
fn a_password_leaves_the_browser_as_a_digest() {
    assert_eq!(
        hash_pwd("abcd", "pw"),
        "a702325ca5a5fd84a17454b1e2f63c19cca84c1d8faade69e80cd681ea0bc559"
    );
    let req = login_request("ABcd", "pw");
    assert_eq!(req.account, "ABcd");
    assert_eq!(req.pwd, "a702325ca5a5fd84a17454b1e2f63c19cca84c1d8faade69e80cd681ea0bc559");
}

#[test]
fn the_login_form_shows_what_came_of_it() {
    let o = login_outcome(LoginResp::Success);
    assert_eq!(o.kind, HintKind::Info);
    assert_eq!(o.message, "Login success!");
    assert_eq!(o.redirect, Some(("/backstage".to_string(), None)));
    let o = login_outcome(LoginResp::IdIllegal);
    assert_eq!(o.kind, HintKind::Error);
    assert_eq!(o.message, "Username cannot contain special characters");
    assert_eq!(o.redirect, None);
    assert_eq!(login_outcome(LoginResp::NoSuchAccount).message, "The username does not exist");
    assert_eq!(login_outcome(LoginResp::WrongPassword).message, "Password is wrong");
    assert_eq!(login_outcome(LoginResp::WrongPassword).redirect, None);
}

#[test]
fn a_registration_needs_the_password_twice() {
    assert_eq!(register_request("Alice", "pw", "pW", "a@example.com"), None);
    let req = register_request("Alice", "pw", "pw", "a@example.com").unwrap();
    assert_eq!(req.account, "Alice");
    assert_eq!(req.name, "Alice");
    assert_eq!(req.email, "a@example.com");
    assert_eq!(req.pwd, hash_pwd("alice", "pw"));
}

#[test]
fn the_registration_form_shows_what_came_of_it() {
    let o = register_outcome(RegisterResp::Success, "Alice");
    assert_eq!(o.kind, HintKind::Info);
    assert_eq!(o.message, "Registered!");
    assert_eq!(o.redirect, Some(("/backstage/login".to_string(), Some("Alice".to_string()))));
    assert_eq!(register_outcome(RegisterResp::IdUsed, "a").message, "The username is already used");
    assert_eq!(
        register_outcome(RegisterResp::Denied, "a").message,
        "Registration is currently not available"
    );
    assert_eq!(
        register_outcome(RegisterResp::IdIllegal, "a").message,
        "Username cannot contain special characters"
    );
    assert_eq!(register_outcome(RegisterResp::IdIllegal, "a").redirect, None);
    assert_eq!(register_outcome(RegisterResp::Denied, "a").kind, HintKind::Error);
}

#[test]
fn hints_are_shown_in_their_order() {
    let mut area = HintArea::new();
    assert_eq!(area.len(), 0);
    assert!(!area.needs_update());
    area.show_error("e");
    assert!(area.needs_update());
    area.show_warn("w");
    area.show_info("i");
    area.show_common("c");
    area.show(HintKind::Info, "again");
    assert_eq!(area.len(), 5);
    assert_eq!(area.get(0), (HintKind::Error, "e"));
    assert_eq!(area.get(1), (HintKind::Warn, "w"));
    assert_eq!(area.get(2), (HintKind::Info, "i"));
    assert_eq!(area.get(3), (HintKind::Common, "c"));
    assert_eq!(area.get(4), (HintKind::Info, "again"));
    area.remove(1);
    assert_eq!(area.len(), 4);
    assert_eq!(area.get(1), (HintKind::Info, "i"));
    assert_eq!(HintKind::Error.class(), "hint hint-error");
    assert_eq!(HintKind::Warn.class(), "hint hint-warn");
    assert_eq!(HintKind::Info.class(), "hint hint-info");
    assert_eq!(HintKind::Common.class(), "hint hint-common");
}

fn post(status: i32) -> Post {
    Post {
        id: "7f6d0f1e-0000-4000-8000-000000000001".to_string(),
        status,
        timestamp: 1_600_000_000,
        url: Some("first".to_string()),
        title: "First".to_string(),
        abstract_: "About".to_string(),
        content: "Text".to_string(),
        file: None,
        series: None,
        category: "7f6d0f1e-0000-4000-8000-000000000002".to_string(),
        commentable: 1,
    }
}

#[test]
fn posts_are_listed_a_hundred_at_most() {
    let req = load_post_list(40);
    assert_eq!(req, PostListReq { skip: 40, count: 20, filter: PostListFilter::All });
    assert_eq!(list(&req), Ok(PostQuery { offset: 40, limit: 20 }));
    let req = PostListReq { skip: 0, count: 100, filter: PostListFilter::Tag("x".to_string()) };
    assert_eq!(list(&req), Ok(PostQuery { offset: 0, limit: 100 }));
    let req = PostListReq { skip: 0, count: 101, filter: PostListFilter::All };
    assert_eq!(
        list(&req),
        Err(RpcError::IllegalArgs("count: Validation error: range".to_string()))
    );
}

#[test]
fn stored_posts_are_told_of() {
    assert_eq!(PostStatus::from_i32(0), Some(PostStatus::Draft));
    assert_eq!(PostStatus::from_i32(1), Some(PostStatus::Published));
    assert_eq!(PostStatus::from_i32(2), Some(PostStatus::HiddenLink));
    assert_eq!(PostStatus::from_i32(3), None);
    assert_eq!(PostStatus::from_i32(-1), None);
    let meta = post_meta(post(1));
    assert_eq!(meta.id, "7f6d0f1e-0000-4000-8000-000000000001");
    assert_eq!(meta.status, PostStatus::Published);
    assert_eq!(meta.timestamp, 1_600_000_000);
    assert_eq!(meta.url, Some("first".to_string()));
    assert_eq!(meta.title, "First");
    assert_eq!(meta.abstract_, "About");
    assert_eq!(meta.series, None);
    assert_eq!(meta.category, "7f6d0f1e-0000-4000-8000-000000000002");
    assert_eq!(post_meta(post(9)).status, PostStatus::Draft);
    match list_finish(vec![post(2), post(0)]) {
        PostListResp::Success(metas) => {
            assert_eq!(metas.len(), 2);
            assert_eq!(metas[0].status, PostStatus::HiddenLink);
            assert_eq!(metas[1].status, PostStatus::Draft);
        }
        PostListResp::Fail => panic!("the list failed"),
    }
    assert_eq!(list_finish(Vec::new()), PostListResp::Success(Vec::new()));
}
