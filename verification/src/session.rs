//! Sessions: who is logged in, and the signed, time-limited token that
//! carries a session from one request to the next.
//!
//! A token holds a salt, the time at which it expires, the serialised
//! session and a signature over the three and the server's secret. It is
//! accepted while it has not expired and its signature is the one that the
//! secret gives.

use vstd::prelude::*;
use vstd::string::StringExecFns;
use crate::hash::{sha256_hex, sha256_hex_of};
use crate::text::{
    decimal,
    decimal_of,
    digit_char,
    digit_of,
    hex_of,
    opt_view,
    str_eq,
    to_chars,
};

verus! {

/// The seconds that a token stays good for.
pub const SESSION_TIMEOUT: u32 = 86400;

/// Who is logged in.
#[derive(Clone, Debug, PartialEq, Eq)]
pub struct LoginUser {
    pub id: String,
    pub name: String,
}

/// The state that a handler sees and may change during one call.
#[derive(Clone, Debug, PartialEq, Eq)]
pub struct Session {
    need_update: bool,
    pub login_user: Option<LoginUser>,
}

pub struct LoginUserView {
    pub id: Seq<char>,
    pub name: Seq<char>,
}

pub struct SessionView {
    /// Whether the session was changed and must be persisted.
    pub need_update: bool,
    pub login_user: Option<LoginUserView>,
}

impl View for LoginUser {
    type V = LoginUserView;

    open spec fn view(&self) -> LoginUserView {
        LoginUserView { id: self.id@, name: self.name@ }
    }
}

impl View for Session {
    type V = SessionView;

    closed spec fn view(&self) -> SessionView {
        SessionView {
            need_update: self.need_update,
            login_user: match self.login_user {
                Some(u) => Some(u@),
                None => None,
            },
        }
    }
}

impl Session {
    /// The session of somebody who is not logged in, unchanged so far.
    pub fn new() -> (r: Session)
        ensures
            r@ == (SessionView { need_update: false, login_user: None }),
    {
        Session { need_update: false, login_user: None }
    }

    /// A session as it was stored.
    pub fn restore(need_update: bool, login_user: Option<LoginUser>) -> (r: Session)
        ensures
            r@ == (SessionView {
                need_update,
                login_user: match login_user {
                    Some(u) => Some(u@),
                    None => None,
                },
            }),
    {
        Session { need_update, login_user }
    }

    /// Marks the session as changed.
    pub fn update(&mut self)
        ensures
            final(self)@ == (SessionView { need_update: true, ..old(self)@ }),
    {
        self.need_update = true;
    }

    /// Whether the session was changed and must be persisted.
    pub fn need_update(&self) -> (r: bool)
        ensures
            r == self@.need_update,
    {
        self.need_update
    }

    /// Logs `user` in and marks the session as changed.
    pub fn log_in(&mut self, user: LoginUser)
        ensures
            final(self)@ == (SessionView { need_update: true, login_user: Some(user@) }),
    {
        self.login_user = Some(user);
        self.need_update = true;
    }

    /// Who is logged in.
    pub fn login_user(&self) -> (r: Option<&LoginUser>)
        ensures
            match r {
                Some(u) => self@.login_user == Some(u@),
                None => self@.login_user is None,
            },
    {
        match &self.login_user {
            Some(u) => Some(u),
            None => None,
        }
    }
}

/// A token as it is stored.
#[derive(Clone, Debug, PartialEq, Eq)]
pub struct SessionSig {
    pub unique_salt: String,
    pub expire_ts: u32,
    pub sig: String,
    pub content_json: String,
}

pub struct SessionSigView {
    pub unique_salt: Seq<char>,
    pub expire_ts: u32,
    pub sig: Seq<char>,
    pub content_json: Seq<char>,
}

impl View for SessionSig {
    type V = SessionSigView;

    open spec fn view(&self) -> SessionSigView {
        SessionSigView {
            unique_salt: self.unique_salt@,
            expire_ts: self.expire_ts,
            sig: self.sig@,
            content_json: self.content_json@,
        }
    }
}

/// What is signed: salt, expiry in decimal digits, content and secret, one after the other.
pub open spec fn signed_text(
    unique_salt: Seq<char>,
    expire_ts: u32,
    content: Seq<char>,
    secret: Seq<char>,
) -> Seq<char> {
    unique_salt + decimal_of(expire_ts as nat) + content + secret
}

/// The signature: the digest of what is signed.
pub open spec fn signature_of(
    unique_salt: Seq<char>,
    expire_ts: u32,
    content: Seq<char>,
    secret: Seq<char>,
) -> Seq<char> {
    sha256_hex_of(signed_text(unique_salt, expire_ts, content, secret))
}

/// The token minted at `now` for `content`.
pub open spec fn minted(
    unique_salt: Seq<char>,
    now: u32,
    content: Seq<char>,
    secret: Seq<char>,
) -> SessionSigView {
    let expire_ts = (now + SESSION_TIMEOUT) as u32;
    SessionSigView {
        unique_salt,
        expire_ts,
        sig: signature_of(unique_salt, expire_ts, content, secret),
        content_json: content,
    }
}

/// Whether a token is accepted at `now`: it has not expired, and its
/// signature is the one that the secret gives.
pub open spec fn accepts(token: SessionSigView, now: u32, secret: Seq<char>) -> bool {
    token.expire_ts > now && token.sig == signature_of(
        token.unique_salt,
        token.expire_ts,
        token.content_json,
        secret,
    )
}

/// Signs `content` with the secret.
pub fn hash_pwd(unique_salt: &str, expire_ts: u32, content: &str, secret: &str) -> (r: String)
    ensures
        r@ == signature_of(unique_salt@, expire_ts, content@, secret@),
{
    let mut text = unique_salt.to_owned();
    let digits = decimal(expire_ts as u64);
    text.append(digits.as_str());
    text.append(content);
    text.append(secret);
    sha256_hex(text.as_str())
}

impl SessionSig {
    /// Mints the token for `content_json` at `now`.
    pub fn sign(unique_salt: String, now: u32, content_json: String, secret: &str) -> (r:
        SessionSig)
        requires
            now + SESSION_TIMEOUT <= u32::MAX,
        ensures
            r@ == minted(unique_salt@, now, content_json@, secret@),
    {
        let expire_ts = now + SESSION_TIMEOUT;
        let sig = hash_pwd(unique_salt.as_str(), expire_ts, content_json.as_str(), secret);
        SessionSig { unique_salt, expire_ts, sig, content_json }
    }

    /// The serialised session of a token that is accepted at `now`.
    pub fn verify(&self, now: u32, secret: &str) -> (r: Option<String>)
        ensures
            r is Some == accepts(self@, now, secret@),
            r is Some ==> r->0@ == self@.content_json,
    {
        if self.expire_ts <= now {
            return None;
        }
        let sig = hash_pwd(
            self.unique_salt.as_str(),
            self.expire_ts,
            self.content_json.as_str(),
            secret,
        );
        if !str_eq(self.sig.as_str(), sig.as_str()) {
            return None;
        }
        Some(self.content_json.clone())
    }
}

/// Calls `std::time::SystemTime::now` and gives the whole seconds since the
/// epoch; zero for a clock that stands before it. Nothing is claimed of the result.
#[verifier::external_body]
fn epoch_seconds() -> u64 {
    std::time::SystemTime::now().duration_since(std::time::UNIX_EPOCH).map_or(0, |d| d.as_secs())
}

/// The seconds since the epoch, as far as 32 bits hold them: whatever the
/// clock shows, cut down by `timestamp_of`.
pub fn current_ts() -> (r: u32)
    ensures
        exists|seconds: u64| r == #[trigger] ts_of(seconds),
{
    let seconds = epoch_seconds();
    timestamp_of(seconds)
}

/// Calls `rand::thread_rng` and `Rng::gen` for eight bytes. Trusted: there
/// are eight. The call does not return where the system gives no random
/// bytes at all.
#[verifier::external_body]
fn random_bytes() -> (r: Vec<u8>)
    ensures
        r@.len() == 8,
{
    rand::Rng::gen::<[u8; 8]>(&mut rand::thread_rng()).to_vec()
}

/// A character of a session id.
pub open spec fn is_id_char(c: char) -> bool {
    c == '-' || ('0' <= c && c <= '9') || ('a' <= c && c <= 'f')
}

/// The shape of a session id: 36 lower-case hexadecimal digits and dashes.
pub open spec fn is_session_id(id: Seq<char>) -> bool {
    id.len() == 36 && forall|i: int| 0 <= i < id.len() ==> is_id_char(#[trigger] id[i])
}

/// Calls `uuid::Uuid::new_v4` and writes the result as `Display` does.
/// Trusted: that form is the hyphenated one, 36 lower-case hexadecimal
/// digits and dashes. The call does not return where the system gives no
/// random bytes at all.
#[verifier::external_body]
fn random_id() -> (r: String)
    ensures
        is_session_id(r@),
{
    uuid::Uuid::new_v4().to_string()
}

/// Whether `id` has the shape of a session id. An id of another shape
/// names no token, and no file is looked for under it.
pub fn session_id_is_legal(id: &str) -> (r: bool)
    ensures
        r == is_session_id(id@),
{
    let chars = to_chars(id);
    if chars.len() != 36 {
        return false;
    }
    let mut i: usize = 0;
    while i < chars.len()
        invariant
            i <= chars.len(),
            chars@ == id@,
            forall|j: int| 0 <= j < i ==> is_id_char(#[trigger] chars@[j]),
        decreases chars.len() - i,
    {
        let c = chars[i];
        if !(c == '-' || ('0' <= c && c <= '9') || ('a' <= c && c <= 'f')) {
            return false;
        }
        i += 1;
    }
    true
}

/// The numbers of a salt, in hexadecimal digits with `, ` between them.
pub open spec fn salt_items(bytes: Seq<u8>) -> Seq<char>
    decreases bytes.len(),
{
    if bytes.len() == 0 {
        Seq::empty()
    } else if bytes.len() == 1 {
        hex_of(bytes[0] as nat)
    } else {
        salt_items(bytes.drop_last()) + ", "@ + hex_of(bytes.last() as nat)
    }
}

/// A salt as text: its numbers in square brackets.
pub open spec fn salt_text(bytes: Seq<u8>) -> Seq<char> {
    "["@ + salt_items(bytes) + "]"@
}

/// Writes a byte in hexadecimal digits, without a leading zero.
fn hex_byte(b: u8) -> (r: String)
    ensures
        r@ == hex_of(b as nat),
{
    let mut r = String::new();
    if b >= 16 {
        r.push(digit_char(b / 16));
        assert(r@ =~= hex_of((b / 16) as nat));
    }
    r.push(digit_char(b % 16));
    proof {
        if b < 16 {
            assert(r@ =~= seq![digit_of(b as int)]);
        }
    }
    r
}

/// Writes a salt as text.
pub fn format_salt(bytes: &Vec<u8>) -> (r: String)
    ensures
        r@ == salt_text(bytes@),
{
    let mut items = String::new();
    let mut i: usize = 0;
    while i < bytes.len()
        invariant
            i <= bytes.len(),
            items@ == salt_items(bytes@.take(i as int)),
        decreases bytes.len() - i,
    {
        if i > 0 {
            items.append(", ");
        }
        let h = hex_byte(bytes[i]);
        items.append(h.as_str());
        proof {
            assert(bytes@.take(i + 1).drop_last() =~= bytes@.take(i as int));
            assert(bytes@.take(i + 1).last() == bytes@[i as int]);
            if i == 0 {
                assert(items@ =~= hex_of(bytes@[0] as nat));
            }
        }
        i += 1;
    }
    proof {
        assert(bytes@.take(i as int) =~= bytes@);
    }
    let mut r = "[".to_owned();
    r.append(items.as_str());
    r.append("]");
    r
}

impl Session {
    /// Mints a token for a session that was serialised as `content_json`,
    /// with a fresh salt, at the time the clock shows, and gives it a fresh
    /// id under which to store it. Gives nothing where the clock is so far
    /// on that the expiry does not fit.
    pub fn generate_sig_str(content_json: String, secret: &str) -> (r: Option<
        (String, SessionSig),
    >)
        ensures
            match r {
                Some((id, token)) => is_session_id(id@) && token@.content_json == content_json@
                    && token@.sig == signature_of(
                    token@.unique_salt,
                    token@.expire_ts,
                    content_json@,
                    secret@,
                ) && token@.expire_ts >= SESSION_TIMEOUT && forall|t: u32|
                    t < token@.expire_ts ==> #[trigger] accepts(token@, t, secret@),
                None => true,
            },
            exists|salt: Seq<u8>, now: u32|
                salt.len() == 8 && #[trigger] mint_of(salt, now, content_json@, secret@) == (match r {
                    Some((_, token)) => Some(token@),
                    None => None,
                }),
    {
        let salt = random_bytes();
        let now = current_ts();
        match SessionSig::mint(&salt, now, content_json, secret) {
            None => None,
            Some(token) => {
                let id = random_id();
                Some((id, token))
            },
        }
    }

    /// The serialised session of a stored token, if there is one and the
    /// clock and the secret accept it. A token that is missing, has expired
    /// or is not signed with the secret gives nothing.
    pub fn parse_sig_str(state: Option<SessionSig>, secret: &str) -> (r: Option<String>)
        ensures
            match r {
                Some(content) => state is Some && content@ == state->0@.content_json
                    && state->0@.sig == signature_of(
                    state->0@.unique_salt,
                    state->0@.expire_ts,
                    state->0@.content_json,
                    secret@,
                ),
                None => true,
            },
            state is None ==> r is None,
            exists|now: u32|
                #[trigger] parsed_at(opt_sig_view(state), now, secret@) == opt_view(r),
    {
        let now = current_ts();
        Session::parse_at(state, now, secret)
    }
}

/// A token is accepted from the moment it is minted until its time is up:
/// 86400 seconds later, and with the secret it was minted with.
pub proof fn lemma_session_round_trip(
    unique_salt: Seq<char>,
    now: u32,
    content: Seq<char>,
    secret: Seq<char>,
    later: u32,
)
    requires
        now + SESSION_TIMEOUT <= u32::MAX,
    ensures
        minted(unique_salt, now, content, secret).content_json == content,
        accepts(minted(unique_salt, now, content, secret), later, secret) == (later < now
            + SESSION_TIMEOUT),
{
}

/// A token whose signature is not the one that the secret gives is never
/// accepted, and neither is one whose time is up.
pub proof fn lemma_tampered_or_expired_is_refused(
    token: SessionSigView,
    now: u32,
    secret: Seq<char>,
)
    requires
        token.sig != signature_of(
            token.unique_salt,
            token.expire_ts,
            token.content_json,
            secret,
        ) || token.expire_ts <= now,
    ensures
        !accepts(token, now, secret),
{
}

/// Two tokens minted with different salts or at different times are
/// different tokens, whatever they carry.
pub proof fn lemma_tokens_differ(
    salt_a: Seq<char>,
    now_a: u32,
    salt_b: Seq<char>,
    now_b: u32,
    content: Seq<char>,
    secret: Seq<char>,
)
    requires
        now_a + SESSION_TIMEOUT <= u32::MAX,
        now_b + SESSION_TIMEOUT <= u32::MAX,
        salt_a != salt_b || now_a != now_b,
    ensures
        minted(salt_a, now_a, content, secret) != minted(salt_b, now_b, content, secret),
{
}

/// Seconds since the epoch, cut down to what 32 bits hold.
pub open spec fn ts_of(seconds: u64) -> u32 {
    (seconds % 0x1_0000_0000) as u32
}

/// Cuts seconds since the epoch down to what 32 bits hold.
pub fn timestamp_of(seconds: u64) -> (r: u32)
    ensures
        r == ts_of(seconds),
{
    (seconds % 0x1_0000_0000) as u32
}

/// The token minted at `now` for `content` with the salt of the given
/// bytes; nothing where the clock is so far on that the expiry does not fit.
pub open spec fn mint_of(salt: Seq<u8>, now: u32, content: Seq<char>, secret: Seq<char>) -> Option<
    SessionSigView,
> {
    if now + SESSION_TIMEOUT > u32::MAX {
        None
    } else {
        Some(minted(salt_text(salt), now, content, secret))
    }
}

/// The view of a token that may be missing.
pub open spec fn opt_sig_view(state: Option<SessionSig>) -> Option<SessionSigView> {
    match state {
        Some(token) => Some(token@),
        None => None,
    }
}

/// The serialised session that a stored token gives at `now`: that of a
/// token that is there and accepted, and nothing else.
pub open spec fn parsed_at(state: Option<SessionSigView>, now: u32, secret: Seq<char>) -> Option<
    Seq<char>,
> {
    match state {
        Some(token) => if accepts(token, now, secret) {
            Some(token.content_json)
        } else {
            None
        },
        None => None,
    }
}

impl SessionSig {
    /// Mints the token for `content_json` at `now`, with the salt of the
    /// given bytes. Gives nothing where the expiry does not fit 32 bits.
    pub fn mint(salt: &Vec<u8>, now: u32, content_json: String, secret: &str) -> (r: Option<
        SessionSig,
    >)
        ensures
            opt_sig_view(r) == mint_of(salt@, now, content_json@, secret@),
    {
        if now > u32::MAX - SESSION_TIMEOUT {
            return None;
        }
        let unique_salt = format_salt(salt);
        Some(SessionSig::sign(unique_salt, now, content_json, secret))
    }
}

impl Session {
    /// The serialised session that a stored token gives at `now`.
    pub fn parse_at(state: Option<SessionSig>, now: u32, secret: &str) -> (r: Option<String>)
        ensures
            opt_view(r) == parsed_at(opt_sig_view(state), now, secret@),
    {
        match state {
            None => None,
            Some(token) => token.verify(now, secret),
        }
    }
}

/// A byte is written in one or two digits, none of which is a comma or a blank.
proof fn lemma_hex_shape(n: nat)
    requires
        n < 256,
    ensures
        hex_of(n) == (if n < 16 {
            seq![digit_of(n as int)]
        } else {
            seq![digit_of((n / 16) as int), digit_of((n % 16) as int)]
        }),
        forall|i: int| 0 <= i < hex_of(n).len() ==> #[trigger] hex_of(n)[i] != ' ' && hex_of(n)[i] != ',',
{
    reveal_with_fuel(hex_of, 2);
    if n >= 16 {
        assert(hex_of(n) =~= seq![digit_of((n / 16) as int), digit_of((n % 16) as int)]);
    }
}

/// Different digits are written differently.
proof fn lemma_digit_injective(a: int, b: int)
    requires
        0 <= a < 16,
        0 <= b < 16,
        digit_of(a) == digit_of(b),
    ensures
        a == b,
{
}

/// Different bytes are written differently.
proof fn lemma_hex_injective(x: nat, y: nat)
    requires
        x < 256,
        y < 256,
        hex_of(x) == hex_of(y),
    ensures
        x == y,
{
    lemma_hex_shape(x);
    lemma_hex_shape(y);
    if x < 16 {
        assert(hex_of(x).len() == 1);
        assert(hex_of(y).len() == 1);
        assert(y < 16);
        assert(hex_of(x)[0] == digit_of(x as int));
        assert(hex_of(y)[0] == digit_of(y as int));
        lemma_digit_injective(x as int, y as int);
    } else {
        assert(hex_of(x).len() == 2);
        assert(hex_of(y).len() == 2);
        assert(y >= 16);
        assert(hex_of(x)[0] == digit_of((x / 16) as int));
        assert(hex_of(y)[0] == digit_of((y / 16) as int));
        assert(hex_of(x)[1] == digit_of((x % 16) as int));
        assert(hex_of(y)[1] == digit_of((y % 16) as int));
        lemma_digit_injective((x / 16) as int, (y / 16) as int);
        lemma_digit_injective((x % 16) as int, (y % 16) as int);
    }
}

/// Lists of equally many bytes that are written alike are the same list.
proof fn lemma_salt_items_injective(a: Seq<u8>, b: Seq<u8>)
    requires
        a.len() == b.len(),
        a.len() >= 1,
        salt_items(a) == salt_items(b),
    ensures
        a == b,
    decreases a.len(),
{
    if a.len() == 1 {
        lemma_hex_injective(a[0] as nat, b[0] as nat);
        assert(a =~= b);
    } else {
        reveal_strlit(", ");
        let sep = ", "@;
        let x = salt_items(a.drop_last());
        let y = salt_items(b.drop_last());
        let h = hex_of(a.last() as nat);
        let k = hex_of(b.last() as nat);
        let t = salt_items(a);
        lemma_hex_shape(a.last() as nat);
        lemma_hex_shape(b.last() as nat);
        assert(t == x + sep + h);
        assert(t == y + sep + k);
        assert(t.len() == x.len() + 2 + h.len());
        assert(t.len() == y.len() + 2 + k.len());
        // the blank before the last number stands at one place only
        assert(t[t.len() - h.len() - 1] == ' ') by {
            assert((x + sep + h)[x.len() as int + 1] == sep[1]);
        }
        assert(t[t.len() - k.len() - 1] == ' ') by {
            assert((y + sep + k)[y.len() as int + 1] == sep[1]);
        }
        if h.len() < k.len() {
            assert(t[t.len() - h.len() - 1] == (y + sep + k)[y.len() as int + 2]);
            assert((y + sep + k)[y.len() as int + 2] == k[0]);
        }
        if k.len() < h.len() {
            assert(t[t.len() - k.len() - 1] == (x + sep + h)[x.len() as int + 2]);
            assert((x + sep + h)[x.len() as int + 2] == h[0]);
        }
        assert(h.len() == k.len());
        assert(x.len() == y.len());
        assert forall|i: int| 0 <= i < h.len() implies h[i] == k[i] by {
            assert((x + sep + h)[x.len() + 2 + i] == h[i]);
            assert((y + sep + k)[y.len() + 2 + i] == k[i]);
        }
        assert(h =~= k);
        assert forall|i: int| 0 <= i < x.len() implies x[i] == y[i] by {
            assert((x + sep + h)[i] == x[i]);
            assert((y + sep + k)[i] == y[i]);
        }
        assert(x =~= y);
        lemma_hex_injective(a.last() as nat, b.last() as nat);
        lemma_salt_items_injective(a.drop_last(), b.drop_last());
        assert(a =~= a.drop_last().push(a.last()));
        assert(b =~= b.drop_last().push(b.last()));
    }
}

/// Salts of different bytes are written differently: two salts of eight
/// bytes each that differ in a byte have different texts, and so give
/// different tokens.
pub proof fn lemma_salts_differ(a: Seq<u8>, b: Seq<u8>)
    requires
        a.len() == 8,
        b.len() == 8,
        a != b,
    ensures
        salt_text(a) != salt_text(b),
{
    if salt_text(a) == salt_text(b) {
        reveal_strlit("[");
        reveal_strlit("]");
        let x = salt_items(a);
        let y = salt_items(b);
        let t = salt_text(a);
        assert(t == "["@ + x + "]"@);
        assert(t == "["@ + y + "]"@);
        assert(t.len() == x.len() + 2);
        assert(t.len() == y.len() + 2);
        assert forall|i: int| 0 <= i < x.len() implies x[i] == y[i] by {
            assert(("["@ + x + "]"@)[i + 1] == x[i]);
            assert(("["@ + y + "]"@)[i + 1] == y[i]);
        }
        assert(x =~= y);
        lemma_salt_items_injective(a, b);
    }
}

/// Two tokens minted from salts of eight bytes that differ in a byte are
/// different tokens, whatever they carry and whenever they are minted.
pub proof fn lemma_minted_differ(
    a: Seq<u8>,
    now_a: u32,
    b: Seq<u8>,
    now_b: u32,
    content: Seq<char>,
    secret: Seq<char>,
)
    requires
        a.len() == 8,
        b.len() == 8,
        a != b,
        mint_of(a, now_a, content, secret) is Some,
        mint_of(b, now_b, content, secret) is Some,
    ensures
        mint_of(a, now_a, content, secret) != mint_of(b, now_b, content, secret),
{
    lemma_salts_differ(a, b);
}

} // verus!
