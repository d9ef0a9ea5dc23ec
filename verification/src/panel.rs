//! The panel's users: registration, sign-in and the claims its tokens carry.
use vstd::prelude::*;
use vstd::string::*;

use crate::collections::TextMap;
use crate::text::{copy_texts, owned, views};

verus! {

/// What can go wrong in the panel and on its nodes.
#[derive(Debug)]
pub enum PanelError {
    Auth(String),
    Service(String),
    NotFound(String),
    InvalidInput(String),
}

/// The texts of an error: its kind and its message.
pub enum PanelErrorView {
    Auth(Seq<char>),
    Service(Seq<char>),
    NotFound(Seq<char>),
    InvalidInput(Seq<char>),
}

impl View for PanelError {
    type V = PanelErrorView;

    open spec fn view(&self) -> PanelErrorView {
        match self {
            PanelError::Auth(m) => PanelErrorView::Auth(m@),
            PanelError::Service(m) => PanelErrorView::Service(m@),
            PanelError::NotFound(m) => PanelErrorView::NotFound(m@),
            PanelError::InvalidInput(m) => PanelErrorView::InvalidInput(m@),
        }
    }
}

/// A registered user.
#[derive(Debug)]
pub struct User {
    pub id: String,
    pub username: String,
    pub email: String,
    pub roles: Vec<String>,
}

/// The texts of a user.
pub struct UserView {
    pub id: Seq<char>,
    pub username: Seq<char>,
    pub email: Seq<char>,
    pub roles: Seq<Seq<char>>,
}

pub open spec fn user_view(u: User) -> UserView {
    UserView { id: u.id@, username: u.username@, email: u.email@, roles: views(u.roles@) }
}

/// What a token says of its user.
#[derive(Debug)]
pub struct Claims {
    /// The user's ID.
    pub sub: String,
    pub username: String,
    pub roles: Vec<String>,
    /// When the token expires, in seconds since the Unix epoch.
    pub exp: i64,
}

/// How long a token lasts: a day, in seconds.
pub const TOKEN_LIFETIME: i64 = 86400;

/// Signs and checks tokens with a secret.
#[derive(Debug)]
pub struct JwtHandler {
    secret: Vec<u8>,
}

impl JwtHandler {
    /// The bytes a handler signs with.
    pub closed spec fn secret_bytes(&self) -> Seq<u8> {
        self.secret@
    }

    /// A handler that signs with the UTF-8 bytes of `secret`.
    pub fn new(secret: &str) -> (h: JwtHandler)
        ensures
            h.secret_bytes() == secret.spec_bytes(),
    {
        JwtHandler { secret: secret.as_bytes_vec() }
    }

    /// The secret, to sign or check a token with.
    pub fn secret(&self) -> (r: &[u8])
        ensures
            r@ == self.secret_bytes(),
    {
        self.secret.as_slice()
    }

    /// The claims of a token issued at `now` (seconds since the Unix epoch) for a user: it
    /// expires a day later.
    pub fn claims_for(&self, user_id: &str, username: &str, roles: &Vec<String>, now: i64) -> (c: Claims)
        requires
            now + TOKEN_LIFETIME <= i64::MAX,
        ensures
            c.sub@ == user_id@,
            c.username@ == username@,
            views(c.roles@) == views(roles@),
            c.exp == now + TOKEN_LIFETIME,
    {
        Claims {
            sub: owned(user_id),
            username: owned(username),
            roles: copy_texts(roles),
            exp: now + TOKEN_LIFETIME,
        }
    }
}

fn copy_user(u: &User) -> (r: User)
    ensures
        user_view(r) == user_view(*u),
{
    User { id: u.id.clone(), username: u.username.clone(), email: u.email.clone(), roles: copy_texts(&u.roles) }
}

/// A lowercase hexadecimal digit.
pub open spec fn is_lower_hex(c: char) -> bool {
    ('0' <= c && c <= '9') || ('a' <= c && c <= 'f')
}

/// The text of a version 4 UUID as its `Display` writes it: 36 characters, hyphens at 8,
/// 13, 18 and 23, lowercase hexadecimal digits elsewhere, the version `4` at 14 and the
/// RFC 4122 variant (`8`, `9`, `a` or `b`) at 19.
pub open spec fn uuid_v4_text(s: Seq<char>) -> bool {
    &&& s.len() == 36
    &&& forall|i: int| 0 <= i < 36 ==> if i == 8 || i == 13 || i == 18 || i == 23 {
        s[i] == '-'
    } else {
        is_lower_hex(#[trigger] s[i])
    }
    &&& s[14] == '4'
    &&& s[19] == '8' || s[19] == '9' || s[19] == 'a' || s[19] == 'b'
}

/// A fresh random identifier (`uuid::Uuid::new_v4`, hyphenated as its `Display` writes it):
/// which one is left to chance; its form is that of a version 4 UUID.
#[verifier::external_body]
pub(crate) fn new_identifier() -> (r: String)
    ensures
        uuid_v4_text(r@),
{
    uuid::Uuid::new_v4().to_string()
}

/// The registered users, by username, and the handler of their tokens.
#[derive(Debug)]
pub struct AuthService {
    users: TextMap<User>,
    jwt_handler: JwtHandler,
}

/// The refusal of an unknown user.
pub open spec fn user_not_found() -> PanelErrorView {
    PanelErrorView::Auth("User not found"@)
}

impl AuthService {
    /// The users, by username, as texts.
    pub closed spec fn accounts(&self) -> Map<Seq<char>, UserView> {
        Map::new(|k: Seq<char>| self.users@.contains_key(k), |k: Seq<char>| user_view(self.users@[k]))
    }

    pub closed spec fn wf(&self) -> bool {
        self.users.wf()
    }

    /// The bytes its tokens are signed with.
    pub closed spec fn secret_bytes(&self) -> Seq<u8> {
        self.jwt_handler.secret_bytes()
    }

    /// A service without users, signing with `secret_key`.
    pub fn new(secret_key: &str) -> (s: AuthService)
        ensures
            s.wf(),
            s.accounts() == Map::<Seq<char>, UserView>::empty(),
            s.secret_bytes() == secret_key.spec_bytes(),
    {
        let s = AuthService { users: TextMap::new(), jwt_handler: JwtHandler::new(secret_key) };
        assert(s.accounts() =~= Map::<Seq<char>, UserView>::empty());
        s
    }

    /// The handler of this service's tokens.
    pub fn jwt_handler(&self) -> (h: &JwtHandler)
        ensures
            h.secret_bytes() == self.secret_bytes(),
    {
        &self.jwt_handler
    }

    /// Signs a user in: the claims to put in a token for them, issued at `now`. The password
    /// is not checked.
    pub fn authenticate(&self, username: &str, password: &str, now: i64) -> (r: Result<Claims, PanelError>)
        requires
            self.wf(),
            now + TOKEN_LIFETIME <= i64::MAX,
        ensures
            r is Ok <==> self.accounts().contains_key(username@),
            r matches Err(e) ==> e@ == user_not_found(),
            r matches Ok(c) ==> {
                &&& c.sub@ == self.accounts()[username@].id
                &&& c.username@ == self.accounts()[username@].username
                &&& views(c.roles@) == self.accounts()[username@].roles
                &&& c.exp == now + TOKEN_LIFETIME
            },
    {
        match self.users.get(username) {
            None => Err(PanelError::Auth(owned("User not found"))),
            Some(user) => Ok(self.jwt_handler.claims_for(user.id.as_str(), user.username.as_str(), &user.roles, now)),
        }
    }

    /// The user that a checked token names (by its username).
    pub fn validate_token(&self, claims: &Claims) -> (r: Result<User, PanelError>)
        requires
            self.wf(),
        ensures
            r is Ok <==> self.accounts().contains_key(claims.username@),
            r matches Err(e) ==> e@ == user_not_found(),
            r matches Ok(u) ==> user_view(u) == self.accounts()[claims.username@],
    {
        match self.users.get(claims.username.as_str()) {
            None => Err(PanelError::Auth(owned("User not found"))),
            Some(user) => Ok(copy_user(user)),
        }
    }

    /// Registers a user under a fresh random ID; a taken username is refused.
    pub fn register(&mut self, username: &str, email: &str, roles: Vec<String>) -> (r: Result<(), PanelError>)
        requires
            old(self).wf(),
        ensures
            final(self).wf(),
            final(self).secret_bytes() == old(self).secret_bytes(),
            old(self).accounts().contains_key(username@) ==> {
                &&& r matches Err(e) && e@ == PanelErrorView::Auth("User already exists"@)
                &&& final(self).accounts() == old(self).accounts()
            },
            !old(self).accounts().contains_key(username@) ==> {
                &&& r is Ok
                &&& final(self).accounts().dom() == old(self).accounts().dom().insert(username@)
                &&& forall|k: Seq<char>| k != username@ && #[trigger] old(self).accounts().contains_key(k)
                    ==> final(self).accounts()[k] == old(self).accounts()[k]
                &&& final(self).accounts()[username@].username == username@
                &&& final(self).accounts()[username@].email == email@
                &&& final(self).accounts()[username@].roles == views(roles@)
                &&& uuid_v4_text(final(self).accounts()[username@].id)
            },
    {
        if self.users.contains_key(username) {
            return Err(PanelError::Auth(owned("User already exists")));
        }
        let user = User { id: new_identifier(), username: owned(username), email: owned(email), roles };
        let ghost before = self.accounts();
        self.users.insert(owned(username), user);
        proof {
            assert(self.accounts().dom() =~= before.dom().insert(username@));
        }
        Ok(())
    }
}

}
