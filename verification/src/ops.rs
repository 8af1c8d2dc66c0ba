//! The authenticated session and the typed request contracts of the five
//! operations against the remote store: list, file listing, get, put and
//! delete. Each operation is a request shape plus a fixed endpoint path.
use vstd::prelude::*;

verus! {

/// An authenticated session: the token and token type obtained at login.
/// Nothing can change them after construction, so the token is immutable
/// for the lifetime of the process.
pub struct Session {
    access_token: String,
    token_type: String,
}

impl Session {
    /// The access token presented on every request.
    pub closed spec fn token(&self) -> Seq<char> {
        self.access_token@
    }

    /// The token type reported at login.
    pub closed spec fn token_type(&self) -> Seq<char> {
        self.token_type@
    }

    /// Bind the token obtained at login into a session.
    pub fn new(access_token: String, token_type: String) -> (s: Self)
        ensures
            s.token() == access_token@,
            s.token_type() == token_type@,
    {
        Session { access_token, token_type }
    }

    /// The persistent headers every request made through an authenticated
    /// client carries: the obtained token as the authorization header, and
    /// the fixed JSON content type.
    pub fn headers(&self) -> (h: Vec<(String, String)>)
        ensures
            h@.len() == 2,
            h@[0].0@ == "authorization"@,
            h@[0].1@ == self.token(),
            h@[1].0@ == "content-type"@,
            h@[1].1@ == "application/json"@,
    {
        let mut h: Vec<(String, String)> = Vec::new();
        h.push((String::from_str("authorization"), self.access_token.clone()));
        h.push((String::from_str("content-type"), String::from_str("application/json")));
        h
    }
}

/// Credentials presented once at login; never stored past the call.
pub struct LoginRequest {
    pub email: String,
    pub password: String,
}

impl LoginRequest {
    /// The login endpoint.
    pub fn path() -> (p: String)
        ensures
            p@ == "api/v1/user/login"@,
    {
        String::from_str("api/v1/user/login")
    }
}

/// The body of a secret-listing request: the user's identity.
pub struct ListRequest {
    pub email: String,
}

impl ListRequest {
    /// The deduplicated secret-listing endpoint.
    pub fn path() -> (p: String)
        ensures
            p@ == "api/v1/user/secret/list_no_dup"@,
    {
        String::from_str("api/v1/user/secret/list_no_dup")
    }
}

/// The body of a file-listing request: the user's identity.
pub struct FileListRequest {
    pub email: String,
}

impl FileListRequest {
    /// The file-listing endpoint.
    pub fn path() -> (p: String)
        ensures
            p@ == "api/v1/user/list_file"@,
    {
        String::from_str("api/v1/user/list_file")
    }
}

/// The body of a `get`: identity plus the name of the secret to expose.
pub struct GetRequest {
    pub email: String,
    pub key_name: String,
}

impl GetRequest {
    /// Build the request. An empty key name never reaches the network:
    /// the interpreter rejects it before dispatch.
    pub fn new(email: &str, key_name: &str) -> (r: Self)
        requires
            key_name@.len() > 0,
        ensures
            r.email@ == email@,
            r.key_name@ == key_name@,
    {
        GetRequest { email: String::from_str(email), key_name: String::from_str(key_name) }
    }

    /// The secret-expose endpoint.
    pub fn path() -> (p: String)
        ensures
            p@ == "api/v1/user/secret/expose"@,
    {
        String::from_str("api/v1/user/secret/expose")
    }
}

/// The body of a `put`: identity, the name to store under, and the value.
pub struct PutRequest {
    pub email: String,
    pub key_name: String,
    pub key_value: String,
}

impl PutRequest {
    /// Build the request. An empty key name never reaches the network:
    /// the interpreter rejects it before dispatch.
    pub fn new(email: &str, key_name: &str, key_value: String) -> (r: Self)
        requires
            key_name@.len() > 0,
        ensures
            r.email@ == email@,
            r.key_name@ == key_name@,
            r.key_value@ == key_value@,
    {
        PutRequest {
            email: String::from_str(email),
            key_name: String::from_str(key_name),
            key_value,
        }
    }

    /// The secret-protect endpoint.
    pub fn path() -> (p: String)
        ensures
            p@ == "api/v1/user/secret/protect"@,
    {
        String::from_str("api/v1/user/secret/protect")
    }
}

/// The body of a `delete`: identity plus the name of the secret to remove.
pub struct DeleteRequest {
    pub email: String,
    pub key_name: String,
}

impl DeleteRequest {
    /// Build the request. An empty key name never reaches the network:
    /// the interpreter rejects it before dispatch.
    pub fn new(email: &str, key_name: &str) -> (r: Self)
        requires
            key_name@.len() > 0,
        ensures
            r.email@ == email@,
            r.key_name@ == key_name@,
    {
        DeleteRequest { email: String::from_str(email), key_name: String::from_str(key_name) }
    }

    /// The secret-delete endpoint.
    pub fn path() -> (p: String)
        ensures
            p@ == "api/v1/user/secret/delete"@,
    {
        String::from_str("api/v1/user/secret/delete")
    }
}

/// Turn the line read at the `put` value prompt into the value to store:
/// the trailing newline, if there is one, is stripped and nothing else is
/// changed; a line of at most one character carries no value, and the
/// operation is aborted locally with no request sent.
pub fn prepare_secret_value(input: &str) -> (r: Option<String>)
    ensures
        input@.len() <= 1 ==> r is None,
        input@.len() > 1 && input@.last() == '\n' ==> r is Some && r->0@ == input@.drop_last(),
        input@.len() > 1 && input@.last() != '\n' ==> r is Some && r->0@ == input@,
{
    let n = input.unicode_len();
    if n <= 1 {
        None
    } else if input.get_char(n - 1) == '\n' {
        let s = input.substring_char(0, n - 1);
        proof {
            assert(input@.subrange(0, n - 1) =~= input@.drop_last());
        }
        Some(String::from_str(s))
    } else {
        Some(String::from_str(input))
    }
}

} // verus!
