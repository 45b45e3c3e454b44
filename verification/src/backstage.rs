//! The forms of the backstage: what they send, and what they show and
//! where they go once the answer is there.

use vstd::prelude::*;
use crate::hash::{sha256_hex, sha256_hex_of};
use crate::post::{PostListFilter, PostListReq};
use crate::rpc::{LoginReq, LoginResp, RegisterReq, RegisterResp};
use crate::text::{joined, str_eq};

verus! {

/// What the browser appends to a password before it sends it.
pub const PWD_SALT: &'static str = "~light~letter";

/// A text in lower case, as `str::to_lowercase` gives it.
pub uninterp spec fn lowercase_text_of(s: Seq<char>) -> Seq<char>;

/// `str::to_lowercase`. Trusted: the result depends on the characters alone.
pub assume_specification[ str::to_lowercase ](s: &str) -> (r: String)
    ensures
        r@ == lowercase_text_of(s@),
;

/// The form in which a password leaves the browser: the digest of the
/// account name in lower case, the password and a fixed salt.
pub open spec fn sent_pwd_of(account: Seq<char>, pwd: Seq<char>) -> Seq<char> {
    sha256_hex_of(lowercase_text_of(account) + pwd + PWD_SALT@)
}

/// The digest of salt, password and the browser's fixed salt.
pub fn hash_pwd(unique_salt: &str, pwd_str: &str) -> (r: String)
    ensures
        r@ == sha256_hex_of(unique_salt@ + pwd_str@ + PWD_SALT@),
{
    let a = joined(unique_salt, pwd_str);
    let b = joined(a.as_str(), PWD_SALT);
    sha256_hex(b.as_str())
}

/// The kinds of hint.
#[derive(Clone, Copy, Debug, PartialEq, Eq, Structural)]
pub enum HintKind {
    Error,
    Warn,
    Info,
    Common,
}

/// The style classes of a kind of hint.
pub open spec fn hint_class_of(kind: HintKind) -> Seq<char> {
    match kind {
        HintKind::Error => "hint hint-error"@,
        HintKind::Warn => "hint hint-warn"@,
        HintKind::Info => "hint hint-info"@,
        HintKind::Common => "hint hint-common"@,
    }
}

impl HintKind {
    /// The style classes of hints of this kind.
    pub fn class(&self) -> (r: &'static str)
        ensures
            r@ == hint_class_of(*self),
    {
        match self {
            HintKind::Error => "hint hint-error",
            HintKind::Warn => "hint hint-warn",
            HintKind::Info => "hint hint-info",
            HintKind::Common => "hint hint-common",
        }
    }
}

/// The hints that a page shows, the oldest first.
#[derive(Clone, Debug, PartialEq, Eq)]
pub struct HintArea {
    messages: Vec<(HintKind, String)>,
    needs_update: bool,
}

impl HintArea {
    /// The hints, each with its kind.
    pub closed spec fn shown(&self) -> Seq<(HintKind, Seq<char>)> {
        Seq::new(self.messages@.len(), |i: int| (self.messages@[i].0, self.messages@[i].1@))
    }

    /// Whether the area has asked to be rendered again.
    pub closed spec fn stale(&self) -> bool {
        self.needs_update
    }

    /// An area without hints.
    pub fn new() -> (r: HintArea)
        ensures
            r.shown() == Seq::<(HintKind, Seq<char>)>::empty(),
            !r.stale(),
    {
        let r = HintArea { messages: Vec::new(), needs_update: false };
        assert(r.shown() =~= Seq::<(HintKind, Seq<char>)>::empty());
        r
    }

    /// Whether the area has asked to be rendered again.
    pub fn needs_update(&self) -> (r: bool)
        ensures
            r == self.stale(),
    {
        self.needs_update
    }

    /// The number of hints.
    pub fn len(&self) -> (r: usize)
        ensures
            r == self.shown().len(),
    {
        self.messages.len()
    }

    /// The kind and the words of the hint at `index`.
    pub fn get(&self, index: usize) -> (r: (HintKind, &str))
        requires
            index < self.shown().len(),
        ensures
            (r.0, r.1@) == self.shown()[index as int],
    {
        (self.messages[index].0, self.messages[index].1.as_str())
    }

    /// Shows a hint of the given kind behind the others.
    pub fn show(&mut self, kind: HintKind, message: &str)
        ensures
            final(self).shown() == old(self).shown().push((kind, message@)),
            final(self).stale(),
    {
        self.messages.push((kind, message.to_owned()));
        self.needs_update = true;
        assert(self.shown() =~= old(self).shown().push((kind, message@)));
    }

    /// Shows an error.
    pub fn show_error(&mut self, message: &str)
        ensures
            final(self).shown() == old(self).shown().push((HintKind::Error, message@)),
            final(self).stale(),
    {
        self.show(HintKind::Error, message);
    }

    /// Shows a warning.
    pub fn show_warn(&mut self, message: &str)
        ensures
            final(self).shown() == old(self).shown().push((HintKind::Warn, message@)),
            final(self).stale(),
    {
        self.show(HintKind::Warn, message);
    }

    /// Shows an informative message.
    pub fn show_info(&mut self, message: &str)
        ensures
            final(self).shown() == old(self).shown().push((HintKind::Info, message@)),
            final(self).stale(),
    {
        self.show(HintKind::Info, message);
    }

    /// Shows a common hint.
    pub fn show_common(&mut self, message: &str)
        ensures
            final(self).shown() == old(self).shown().push((HintKind::Common, message@)),
            final(self).stale(),
    {
        self.show(HintKind::Common, message);
    }

    /// Takes the hint at `index` away.
    pub fn remove(&mut self, index: usize)
        requires
            index < old(self).shown().len(),
        ensures
            final(self).shown() == old(self).shown().remove(index as int),
            final(self).stale(),
    {
        self.messages.remove(index);
        self.needs_update = true;
        assert(self.shown() =~= old(self).shown().remove(index as int));
    }
}

/// What a form does once the answer is there: the hint it shows, and the
/// page it goes to, with the account name that the page is given.
#[derive(Clone, Debug, PartialEq, Eq)]
pub struct Outcome {
    pub kind: HintKind,
    pub message: String,
    pub redirect: Option<(String, Option<String>)>,
}

/// The request that the login form sends: the account name as it was
/// typed, and the password in the form in which it leaves the browser.
pub fn login_request(account: &str, pwd: &str) -> (r: LoginReq)
    ensures
        r.account@ == account@,
        r.pwd@ == sent_pwd_of(account@, pwd@),
{
    let lower = account.to_lowercase();
    LoginReq { account: account.to_owned(), pwd: hash_pwd(lower.as_str(), pwd) }
}

/// The kind and the words of the hint for an answer to a login.
pub open spec fn login_hint_of(resp: LoginResp) -> (HintKind, Seq<char>) {
    match resp {
        LoginResp::Success => (HintKind::Info, "Login success!"@),
        LoginResp::IdIllegal => (HintKind::Error, "Username cannot contain special characters"@),
        LoginResp::NoSuchAccount => (HintKind::Error, "The username does not exist"@),
        LoginResp::WrongPassword => (HintKind::Error, "Password is wrong"@),
    }
}

/// What the login form does with an answer: it shows the hint for it, and
/// after a success goes to the backstage's first page.
pub fn login_outcome(resp: LoginResp) -> (r: Outcome)
    ensures
        (r.kind, r.message@) == login_hint_of(resp),
        match r.redirect {
            Some((path, username)) => resp == LoginResp::Success && path@ == "/backstage"@
                && username is None,
            None => resp != LoginResp::Success,
        },
{
    let (kind, message) = match resp {
        LoginResp::Success => (HintKind::Info, "Login success!"),
        LoginResp::IdIllegal => (HintKind::Error, "Username cannot contain special characters"),
        LoginResp::NoSuchAccount => (HintKind::Error, "The username does not exist"),
        LoginResp::WrongPassword => (HintKind::Error, "Password is wrong"),
    };
    let redirect = match resp {
        LoginResp::Success => Some(("/backstage".to_owned(), None)),
        _ => None,
    };
    Outcome { kind, message: message.to_owned(), redirect }
}

/// The request that the registration form sends; none where the password
/// and its repetition differ. The account name is also the display name.
pub fn register_request(account: &str, pwd: &str, pwd2: &str, email: &str) -> (r: Option<
    RegisterReq,
>)
    ensures
        match r {
            Some(req) => pwd@ == pwd2@ && req.account@ == account@ && req.name@ == account@
                && req.pwd@ == sent_pwd_of(account@, pwd@) && req.email@ == email@,
            None => pwd@ != pwd2@,
        },
{
    if !str_eq(pwd, pwd2) {
        return None;
    }
    let lower = account.to_lowercase();
    Some(
        RegisterReq {
            account: account.to_owned(),
            name: account.to_owned(),
            pwd: hash_pwd(lower.as_str(), pwd),
            email: email.to_owned(),
        },
    )
}

/// The kind and the words of the hint for an answer to a registration.
pub open spec fn register_hint_of(resp: RegisterResp) -> (HintKind, Seq<char>) {
    match resp {
        RegisterResp::Success => (HintKind::Info, "Registered!"@),
        RegisterResp::IdIllegal => (
            HintKind::Error,
            "Username cannot contain special characters"@,
        ),
        RegisterResp::IdUsed => (HintKind::Error, "The username is already used"@),
        RegisterResp::Denied => (HintKind::Error, "Registration is currently not available"@),
    }
}

/// What the registration form does with an answer: it shows the hint for
/// it, and after a success goes to the login form, the account name filled in.
pub fn register_outcome(resp: RegisterResp, account: &str) -> (r: Outcome)
    ensures
        (r.kind, r.message@) == register_hint_of(resp),
        match r.redirect {
            Some((path, username)) => resp == RegisterResp::Success && path@
                == "/backstage/login"@ && username is Some && username->0@ == account@,
            None => resp != RegisterResp::Success,
        },
{
    let (kind, message) = match resp {
        RegisterResp::Success => (HintKind::Info, "Registered!"),
        RegisterResp::IdIllegal => (HintKind::Error, "Username cannot contain special characters"),
        RegisterResp::IdUsed => (HintKind::Error, "The username is already used"),
        RegisterResp::Denied => (HintKind::Error, "Registration is currently not available"),
    };
    let redirect = match resp {
        RegisterResp::Success => Some(("/backstage/login".to_owned(), Some(account.to_owned()))),
        _ => None,
    };
    Outcome { kind, message: message.to_owned(), redirect }
}

/// The request for the newest posts behind the first `skip`, twenty at a time.
pub fn load_post_list(skip: usize) -> (r: PostListReq)
    ensures
        r.skip == skip,
        r.count == 20,
        r.filter == PostListFilter::All,
{
    PostListReq { skip, count: 20, filter: PostListFilter::All }
}

} // verus!
