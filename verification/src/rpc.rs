//! The remote procedures of the backstage: which path names which
//! procedure, which requests are refused before storage is touched, and
//! what each procedure answers once storage has answered.

use vstd::prelude::*;
use crate::hash::{sha256_hex, sha256_hex_of};
use crate::names::{account_id_is_legal, is_account_id};
use crate::session::{LoginUser, LoginUserView, Session, SessionView};
use crate::text::{joined, str_eq};

verus! {

/// Why a call failed.
#[derive(Clone, Debug, PartialEq, Eq)]
pub enum RpcError {
    /// Storage or transport failed.
    InternalError(String),
    /// The request or the response could not be read or written.
    ParseError(String),
    /// No procedure has this path.
    NoSuchRoute,
    /// The request breaks a constraint of its shape.
    IllegalArgs(String),
}

pub enum RpcErrorView {
    InternalError(Seq<char>),
    ParseError(Seq<char>),
    NoSuchRoute,
    IllegalArgs(Seq<char>),
}

impl View for RpcError {
    type V = RpcErrorView;

    open spec fn view(&self) -> RpcErrorView {
        match self {
            RpcError::InternalError(m) => RpcErrorView::InternalError(m@),
            RpcError::ParseError(m) => RpcErrorView::ParseError(m@),
            RpcError::NoSuchRoute => RpcErrorView::NoSuchRoute,
            RpcError::IllegalArgs(m) => RpcErrorView::IllegalArgs(m@),
        }
    }
}

/// The words of an error; an unknown path has none.
pub open spec fn rpc_message_of(e: RpcErrorView) -> Seq<char> {
    match e {
        RpcErrorView::InternalError(m) => m,
        RpcErrorView::ParseError(m) => m,
        RpcErrorView::NoSuchRoute => Seq::empty(),
        RpcErrorView::IllegalArgs(m) => m,
    }
}

/// The HTTP status of an error.
pub open spec fn rpc_status_of(e: RpcErrorView) -> u16 {
    match e {
        RpcErrorView::InternalError(_) => 500,
        RpcErrorView::ParseError(_) => 400,
        RpcErrorView::NoSuchRoute => 404,
        RpcErrorView::IllegalArgs(_) => 400,
    }
}

impl RpcError {
    /// The words of this error.
    pub fn to_string(&self) -> (r: String)
        ensures
            r@ == rpc_message_of(self@),
    {
        match self {
            RpcError::InternalError(m) => m.clone(),
            RpcError::ParseError(m) => m.clone(),
            RpcError::NoSuchRoute => String::new(),
            RpcError::IllegalArgs(m) => m.clone(),
        }
    }

    /// The HTTP status that this error is answered with.
    pub fn status(&self) -> (r: u16)
        ensures
            r == rpc_status_of(self@),
    {
        match self {
            RpcError::InternalError(_) => 500,
            RpcError::ParseError(_) => 400,
            RpcError::NoSuchRoute => 404,
            RpcError::IllegalArgs(_) => 400,
        }
    }

    /// The error of a site whose database cannot be reached.
    pub fn no_database() -> (r: RpcError)
        ensures
            r@ == RpcErrorView::InternalError("Fail connecting to database"@),
    {
        RpcError::InternalError("Fail connecting to database".to_owned())
    }
}

/// A procedure of the backstage.
#[derive(Clone, Copy, Debug, PartialEq, Eq, Structural)]
pub enum RpcMethod {
    Login,
    Register,
    CurrentUser,
}

/// The procedure that a path names.
pub open spec fn method_of(path: Seq<char>) -> Option<RpcMethod> {
    if path == "/backstage/login"@ {
        Some(RpcMethod::Login)
    } else if path == "/backstage/register"@ {
        Some(RpcMethod::Register)
    } else if path == "/backstage/current-user"@ {
        Some(RpcMethod::CurrentUser)
    } else {
        None
    }
}

/// Finds the procedure that `path` names; a path that names none is no such route.
pub fn rpc_route(path: &str) -> (r: Result<RpcMethod, RpcError>)
    ensures
        match r {
            Ok(m) => method_of(path@) == Some(m),
            Err(e) => method_of(path@) is None && e@ == RpcErrorView::NoSuchRoute,
        },
{
    if str_eq(path, "/backstage/login") {
        Ok(RpcMethod::Login)
    } else if str_eq(path, "/backstage/register") {
        Ok(RpcMethod::Register)
    } else if str_eq(path, "/backstage/current-user") {
        Ok(RpcMethod::CurrentUser)
    } else {
        Err(RpcError::NoSuchRoute)
    }
}

/// What a call hands back: the serialised response, and the session where
/// the procedure changed it, so that a new token is minted for it.
pub fn rpc_reply(response: String, session: Session) -> (r: (String, Option<Session>))
    ensures
        r.0@ == response@,
        session@.need_update ==> r.1 == Some(session),
        !session@.need_update ==> r.1 is None,
{
    if session.need_update() {
        (response, Some(session))
    } else {
        (response, None)
    }
}

/// Whether a length lies within the bounds that are given.
pub open spec fn length_within(s: Seq<char>, min: Option<u64>, max: Option<u64>) -> bool {
    &&& match min {
        Some(m) => s.len() >= m,
        None => true,
    }
    &&& match max {
        Some(m) => s.len() <= m,
        None => true,
    }
}

/// Calls `validator::ValidateLength::validate_length` on a string, with no
/// exact length asked. Trusted: the length that is held against the bounds
/// is the number of characters, and a bound that is given must hold.
#[verifier::external_body]
fn validate_length(value: &str, min: Option<u64>, max: Option<u64>) -> (r: bool)
    ensures
        r == length_within(value@, min, max),
{
    validator::ValidateLength::validate_length(value, min, max, None)
}

/// What `validator` takes for an e-mail address.
pub uninterp spec fn is_email(value: Seq<char>) -> bool;

/// Calls `validator::ValidateEmail::validate_email` on a string. Trusted:
/// the answer depends on the characters alone.
#[verifier::external_body]
fn validate_email(value: &str) -> (r: bool)
    ensures
        r == is_email(value@),
{
    validator::ValidateEmail::validate_email(&value)
}

/// The words for a field that breaks a rule.
pub open spec fn illegal_args_message(field: Seq<char>, rule: Seq<char>) -> Seq<char> {
    field + ": Validation error: "@ + rule
}

fn illegal_args(field: &str, rule: &str) -> (r: RpcError)
    ensures
        r@ == RpcErrorView::IllegalArgs(illegal_args_message(field@, rule@)),
{
    let a = joined(field, ": Validation error: ");
    RpcError::IllegalArgs(joined(a.as_str(), rule))
}

/// What is appended to a password before it is stored.
pub const PWD_SALT: &'static str = "_light_letter";

/// The stored form of a password: the digest of account id, password and a fixed salt.
pub open spec fn stored_pwd_of(account: Seq<char>, pwd: Seq<char>) -> Seq<char> {
    sha256_hex_of(account + pwd + PWD_SALT@)
}

/// The stored form of a password.
pub fn hash_pwd(unique_salt: &str, pwd_str: &str) -> (r: String)
    ensures
        r@ == stored_pwd_of(unique_salt@, pwd_str@),
{
    let a = joined(unique_salt, pwd_str);
    let b = joined(a.as_str(), PWD_SALT);
    sha256_hex(b.as_str())
}

/// A letter in lower case; any other character as it is.
pub open spec fn lower_of(c: char) -> char {
    if 'A' <= c && c <= 'Z' {
        ((c as u32) + 32) as char
    } else {
        c
    }
}

/// A text with its letters `A` to `Z` in lower case.
pub open spec fn lowercase_of(s: Seq<char>) -> Seq<char> {
    Seq::new(s.len(), |i: int| lower_of(s[i]))
}

/// `char::to_ascii_lowercase`. Trusted: the letters `A` to `Z` are mapped to
/// `a` to `z`, and every other character to itself.
pub assume_specification[ char::to_ascii_lowercase ](c: &char) -> (r: char)
    ensures
        r == lower_of(*c),
;

/// The id that an account name stands for: the name in lower case, where
/// it has the shape of an account id.
pub open spec fn account_id_of(account: Seq<char>) -> Option<Seq<char>> {
    if is_account_id(account) {
        Some(lowercase_of(account))
    } else {
        None
    }
}

/// The id that an account name stands for.
pub fn normalize_id(account: &str) -> (r: Option<String>)
    ensures
        match r {
            Some(id) => account_id_of(account@) == Some(id@),
            None => account_id_of(account@) is None,
        },
{
    if !account_id_is_legal(account) {
        return None;
    }
    let mut id = String::new();
    for c in it: account.chars()
        invariant
            it.seq() == account@,
            id@ == lowercase_of(account@).take(it.index()),
    {
        id.push(c.to_ascii_lowercase());
    }
    Some(id)
}

/// A request to log in.
#[derive(Clone, Debug, PartialEq, Eq)]
pub struct LoginReq {
    pub account: String,
    pub pwd: String,
}

/// The answer to a request to log in.
#[derive(Clone, Copy, Debug, PartialEq, Eq, Structural)]
pub enum LoginResp {
    Success,
    IdIllegal,
    NoSuchAccount,
    WrongPassword,
}

/// The field and the rule that a request to log in breaks first.
pub open spec fn login_req_fault(account: Seq<char>, pwd: Seq<char>) -> Option<
    (Seq<char>, Seq<char>),
> {
    if !length_within(account, Some(4u64), Some(32u64)) {
        Some(("account"@, "length"@))
    } else if !length_within(pwd, None, Some(64u64)) {
        Some(("pwd"@, "length"@))
    } else {
        None
    }
}

impl LoginReq {
    /// Holds the request against the constraints of its shape: an account
    /// of 4 to 32 characters, a password of at most 64.
    pub fn validate(&self) -> (r: Result<(), RpcError>)
        ensures
            match r {
                Ok(_) => login_req_fault(self.account@, self.pwd@) is None,
                Err(e) => match login_req_fault(self.account@, self.pwd@) {
                    Some((field, rule)) => e@ == RpcErrorView::IllegalArgs(
                        illegal_args_message(field, rule),
                    ),
                    None => false,
                },
            },
    {
        if !validate_length(self.account.as_str(), Some(4), Some(32)) {
            Err(illegal_args("account", "length"))
        } else if !validate_length(self.pwd.as_str(), None, Some(64)) {
            Err(illegal_args("pwd", "length"))
        } else {
            Ok(())
        }
    }
}

/// An account as storage holds it.
#[derive(Clone, Debug, PartialEq, Eq)]
pub struct StoredAccount {
    pub id: String,
    pub name: String,
    pub pwd: String,
}

/// What has happened to a request to log in.
#[derive(Clone, Debug, PartialEq, Eq)]
pub enum LoginEvent {
    /// The request came in.
    Begin,
    /// A connection to storage was taken.
    Connected,
    /// Storage was asked for the account, and holds this.
    Found(Option<StoredAccount>),
}

/// What logging in does next.
#[derive(Clone, Debug, PartialEq, Eq)]
pub enum LoginStep {
    /// A connection to storage is to be taken.
    Connect,
    /// The account of this id has to be looked up.
    Lookup(String),
    /// The answer.
    Reply(LoginResp),
}

pub struct StoredAccountView {
    pub id: Seq<char>,
    pub name: Seq<char>,
    pub pwd: Seq<char>,
}

impl View for StoredAccount {
    type V = StoredAccountView;

    open spec fn view(&self) -> StoredAccountView {
        StoredAccountView { id: self.id@, name: self.name@, pwd: self.pwd@ }
    }
}

pub enum LoginEventView {
    Begin,
    Connected,
    Found(Option<StoredAccountView>),
}

pub enum LoginStepView {
    Connect,
    Lookup(Seq<char>),
    Reply(LoginResp),
}

impl View for LoginEvent {
    type V = LoginEventView;

    open spec fn view(&self) -> LoginEventView {
        match self {
            LoginEvent::Begin => LoginEventView::Begin,
            LoginEvent::Connected => LoginEventView::Connected,
            LoginEvent::Found(Some(a)) => LoginEventView::Found(Some(a@)),
            LoginEvent::Found(None) => LoginEventView::Found(None),
        }
    }
}

impl View for LoginStep {
    type V = LoginStepView;

    open spec fn view(&self) -> LoginStepView {
        match self {
            LoginStep::Connect => LoginStepView::Connect,
            LoginStep::Lookup(id) => LoginStepView::Lookup(id@),
            LoginStep::Reply(resp) => LoginStepView::Reply(*resp),
        }
    }
}

/// The answer to a request to log in, once the account was looked up.
pub open spec fn login_answer(
    id: Seq<char>,
    pwd: Seq<char>,
    found: Option<Seq<char>>,
) -> LoginResp {
    match found {
        None => LoginResp::NoSuchAccount,
        Some(stored) => if stored_pwd_of(id, pwd) != stored {
            LoginResp::WrongPassword
        } else {
            LoginResp::Success
        },
    }
}

/// What logging in does next, for a request that keeps the constraints of
/// its shape: first a connection is taken; then an account name that is no
/// id is answered, and any other is looked up by its id; then the answer is
/// given by what storage holds.
pub open spec fn login_step_of(account: Seq<char>, pwd: Seq<char>, event: LoginEventView) -> LoginStepView {
    match event {
        LoginEventView::Begin => LoginStepView::Connect,
        LoginEventView::Connected => match account_id_of(account) {
            Some(id) => LoginStepView::Lookup(id),
            None => LoginStepView::Reply(LoginResp::IdIllegal),
        },
        LoginEventView::Found(found) => match account_id_of(account) {
            Some(id) => LoginStepView::Reply(
                login_answer(
                    id,
                    pwd,
                    match found {
                        Some(a) => Some(a.pwd),
                        None => None,
                    },
                ),
            ),
            None => LoginStepView::Reply(LoginResp::IdIllegal),
        },
    }
}

/// Logging in, step by step. A request that breaks a constraint of its
/// shape is refused as illegal arguments whatever has happened, so that no
/// step towards storage is ever made for it. Only a success changes the
/// session: it then holds the id and the name of the account that was
/// found, and is marked as changed.
pub fn login(req: &LoginReq, event: LoginEvent, session: &mut Session) -> (r: Result<
    LoginStep,
    RpcError,
>)
    ensures
        match r {
            Ok(step) => login_req_fault(req.account@, req.pwd@) is None && step@ == login_step_of(
                req.account@,
                req.pwd@,
                event@,
            ),
            Err(e) => match login_req_fault(req.account@, req.pwd@) {
                Some((field, rule)) => e@ == RpcErrorView::IllegalArgs(
                    illegal_args_message(field, rule),
                ),
                None => false,
            },
        },
        r matches Ok(LoginStep::Reply(LoginResp::Success)) ==> event matches LoginEvent::Found(
            Some(a),
        ) && final(session)@ == (SessionView {
            need_update: true,
            login_user: Some(LoginUserView { id: a.id@, name: a.name@ }),
        }),
        !(r matches Ok(LoginStep::Reply(LoginResp::Success))) ==> final(session)@ == old(
            session,
        )@,
{
    match req.validate() {
        Err(e) => {
            return Err(e);
        },
        Ok(_) => {},
    }
    match event {
        LoginEvent::Begin => Ok(LoginStep::Connect),
        LoginEvent::Connected => match normalize_id(req.account.as_str()) {
            Some(id) => Ok(LoginStep::Lookup(id)),
            None => Ok(LoginStep::Reply(LoginResp::IdIllegal)),
        },
        LoginEvent::Found(found) => match normalize_id(req.account.as_str()) {
            None => Ok(LoginStep::Reply(LoginResp::IdIllegal)),
            Some(id) => match found {
                None => Ok(LoginStep::Reply(LoginResp::NoSuchAccount)),
                Some(account) => {
                    let hashed = hash_pwd(id.as_str(), req.pwd.as_str());
                    if !str_eq(hashed.as_str(), account.pwd.as_str()) {
                        Ok(LoginStep::Reply(LoginResp::WrongPassword))
                    } else {
                        session.log_in(LoginUser { id: account.id, name: account.name });
                        Ok(LoginStep::Reply(LoginResp::Success))
                    }
                },
            },
        },
    }
}

/// A request for who is logged in.
#[derive(Clone, Debug, PartialEq, Eq)]
pub struct CurrentUserReq {}

/// Who is logged in.
#[derive(Clone, Debug, PartialEq, Eq)]
pub enum CurrentUserResp {
    Logged(LoginUser),
    NoLogged,
}

/// Who is logged in, by the session. The session is not changed.
pub fn current_user(session: &Session) -> (r: CurrentUserResp)
    ensures
        match r {
            CurrentUserResp::Logged(u) => session@.login_user == Some(u@),
            CurrentUserResp::NoLogged => session@.login_user is None,
        },
{
    match session.login_user() {
        Some(u) => CurrentUserResp::Logged(LoginUser { id: u.id.clone(), name: u.name.clone() }),
        None => CurrentUserResp::NoLogged,
    }
}

/// A request to make an account.
#[derive(Clone, Debug, PartialEq, Eq)]
pub struct RegisterReq {
    pub name: String,
    pub account: String,
    pub pwd: String,
    pub email: String,
}

/// The answer to a request to make an account.
#[derive(Clone, Copy, Debug, PartialEq, Eq, Structural)]
pub enum RegisterResp {
    Success,
    Denied,
    IdIllegal,
    IdUsed,
}

/// The field and the rule that a request to make an account breaks first.
pub open spec fn register_req_fault(
    name: Seq<char>,
    account: Seq<char>,
    pwd: Seq<char>,
    email: Seq<char>,
) -> Option<(Seq<char>, Seq<char>)> {
    if !length_within(name, Some(4u64), Some(32u64)) {
        Some(("name"@, "length"@))
    } else if !length_within(account, Some(4u64), Some(32u64)) {
        Some(("account"@, "length"@))
    } else if !length_within(pwd, None, Some(64u64)) {
        Some(("pwd"@, "length"@))
    } else if !is_email(email) {
        Some(("email"@, "email"@))
    } else if !length_within(email, None, Some(64u64)) {
        Some(("email"@, "length"@))
    } else {
        None
    }
}

impl RegisterReq {
    /// Holds the request against the constraints of its shape: a name and an
    /// account of 4 to 32 characters each, a password of at most 64, and an
    /// e-mail address of at most 64.
    pub fn validate(&self) -> (r: Result<(), RpcError>)
        ensures
            match r {
                Ok(_) => register_req_fault(self.name@, self.account@, self.pwd@, self.email@)
                    is None,
                Err(e) => match register_req_fault(
                    self.name@,
                    self.account@,
                    self.pwd@,
                    self.email@,
                ) {
                    Some((field, rule)) => e@ == RpcErrorView::IllegalArgs(
                        illegal_args_message(field, rule),
                    ),
                    None => false,
                },
            },
    {
        if !validate_length(self.name.as_str(), Some(4), Some(32)) {
            Err(illegal_args("name", "length"))
        } else if !validate_length(self.account.as_str(), Some(4), Some(32)) {
            Err(illegal_args("account", "length"))
        } else if !validate_length(self.pwd.as_str(), None, Some(64)) {
            Err(illegal_args("pwd", "length"))
        } else if !validate_email(self.email.as_str()) {
            Err(illegal_args("email", "email"))
        } else if !validate_length(self.email.as_str(), None, Some(64)) {
            Err(illegal_args("email", "length"))
        } else {
            Ok(())
        }
    }
}

/// An account that is to be stored.
#[derive(Clone, Debug, PartialEq, Eq)]
pub struct NewAccount {
    pub id: String,
    pub name: String,
    pub pwd: String,
    pub email: String,
}

pub struct NewAccountView {
    pub id: Seq<char>,
    pub name: Seq<char>,
    pub pwd: Seq<char>,
    pub email: Seq<char>,
}

/// What has happened to a request to make an account.
#[derive(Clone, Copy, Debug, PartialEq, Eq, Structural)]
pub enum RegisterEvent {
    /// The request came in.
    Begin,
    /// A connection to storage was taken.
    Connected,
    /// The site's setting `no_register` was read; it holds this.
    Setting(bool),
    /// Storage was asked for the id; this says whether it is taken.
    Found(bool),
    /// The account was stored.
    Inserted,
}

/// What making an account does next.
#[derive(Clone, Debug, PartialEq, Eq)]
pub enum RegisterStep {
    /// A connection to storage is to be taken.
    Connect,
    /// The site's setting `no_register` is to be read.
    ReadSetting,
    /// Whether the id is taken has to be looked up.
    Lookup(String),
    /// The account is to be stored.
    Insert(NewAccount),
    /// The answer.
    Reply(RegisterResp),
}

pub enum RegisterStepView {
    Connect,
    ReadSetting,
    Lookup(Seq<char>),
    Insert(NewAccountView),
    Reply(RegisterResp),
}

impl View for RegisterStep {
    type V = RegisterStepView;

    open spec fn view(&self) -> RegisterStepView {
        match self {
            RegisterStep::Connect => RegisterStepView::Connect,
            RegisterStep::ReadSetting => RegisterStepView::ReadSetting,
            RegisterStep::Lookup(id) => RegisterStepView::Lookup(id@),
            RegisterStep::Insert(a) => RegisterStepView::Insert(
                NewAccountView { id: a.id@, name: a.name@, pwd: a.pwd@, email: a.email@ },
            ),
            RegisterStep::Reply(resp) => RegisterStepView::Reply(*resp),
        }
    }
}

/// What making an account does next, for a request that keeps the
/// constraints of its shape: first a connection is taken, then the setting
/// is read. Where accounts may not be made the answer is a denial; else a
/// name that is no id is answered so, and any other is looked up by its id.
/// An id that is taken is answered so; else the account is stored, its
/// password in the stored form, and the answer is a success.
pub open spec fn register_step_of(
    name: Seq<char>,
    account: Seq<char>,
    pwd: Seq<char>,
    email: Seq<char>,
    event: RegisterEvent,
) -> RegisterStepView {
    match event {
        RegisterEvent::Begin => RegisterStepView::Connect,
        RegisterEvent::Connected => RegisterStepView::ReadSetting,
        RegisterEvent::Setting(deny) => if deny {
            RegisterStepView::Reply(RegisterResp::Denied)
        } else {
            match account_id_of(account) {
                Some(id) => RegisterStepView::Lookup(id),
                None => RegisterStepView::Reply(RegisterResp::IdIllegal),
            }
        },
        RegisterEvent::Found(taken) => if taken {
            RegisterStepView::Reply(RegisterResp::IdUsed)
        } else {
            match account_id_of(account) {
                Some(id) => RegisterStepView::Insert(
                    NewAccountView { id, name, pwd: stored_pwd_of(id, pwd), email },
                ),
                None => RegisterStepView::Reply(RegisterResp::IdIllegal),
            }
        },
        RegisterEvent::Inserted => RegisterStepView::Reply(RegisterResp::Success),
    }
}

/// Making an account, step by step. A request that breaks a constraint of
/// its shape is refused as illegal arguments whatever has happened, so that
/// no step towards storage is ever made for it: no connection is taken, the
/// setting is not read, and nothing is looked up or stored.
pub fn register(req: &RegisterReq, event: RegisterEvent) -> (r: Result<RegisterStep, RpcError>)
    ensures
        match r {
            Ok(step) => register_req_fault(req.name@, req.account@, req.pwd@, req.email@)
                is None && step@ == register_step_of(
                req.name@,
                req.account@,
                req.pwd@,
                req.email@,
                event,
            ),
            Err(e) => match register_req_fault(req.name@, req.account@, req.pwd@, req.email@) {
                Some((field, rule)) => e@ == RpcErrorView::IllegalArgs(
                    illegal_args_message(field, rule),
                ),
                None => false,
            },
        },
{
    match req.validate() {
        Err(e) => {
            return Err(e);
        },
        Ok(_) => {},
    }
    match event {
        RegisterEvent::Begin => Ok(RegisterStep::Connect),
        RegisterEvent::Connected => Ok(RegisterStep::ReadSetting),
        RegisterEvent::Setting(deny) => {
            if deny {
                return Ok(RegisterStep::Reply(RegisterResp::Denied));
            }
            match normalize_id(req.account.as_str()) {
                Some(id) => Ok(RegisterStep::Lookup(id)),
                None => Ok(RegisterStep::Reply(RegisterResp::IdIllegal)),
            }
        },
        RegisterEvent::Found(taken) => {
            if taken {
                return Ok(RegisterStep::Reply(RegisterResp::IdUsed));
            }
            match normalize_id(req.account.as_str()) {
                Some(id) => {
                    let pwd = hash_pwd(id.as_str(), req.pwd.as_str());
                    Ok(
                        RegisterStep::Insert(
                            NewAccount {
                                id,
                                name: req.name.clone(),
                                pwd,
                                email: req.email.clone(),
                            },
                        ),
                    )
                },
                None => Ok(RegisterStep::Reply(RegisterResp::IdIllegal)),
            }
        },
        RegisterEvent::Inserted => Ok(RegisterStep::Reply(RegisterResp::Success)),
    }
}

/// A request to log in whose account is shorter than four characters
/// breaks a constraint of its shape.
pub proof fn lemma_short_account_is_illegal(account: Seq<char>, pwd: Seq<char>)
    requires
        account.len() < 4,
    ensures
        login_req_fault(account, pwd) == Some(("account"@, "length"@)),
{
}

} // verus!
