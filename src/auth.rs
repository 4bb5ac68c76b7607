//! The authentication request against a login server.
use vstd::prelude::*;
use crate::text::{cat, chars_of};

verus! {

/// The game the login is for.
#[derive(Clone, Debug)]
pub struct Agent {
    pub name: String,
    pub version: u8,
}

/// A password login.
#[derive(Clone, Debug)]
pub struct AuthRequest {
    pub agent: Agent,
    pub username: String,
    pub password: String,
    pub client_token: Option<String>,
    pub request_user: bool,
}

/// A game profile.
#[derive(Clone, Debug)]
pub struct Profile {
    pub id: String,
    pub name: String,
}

/// What a login returns.
#[derive(Clone, Debug)]
pub struct AuthResponse {
    pub access_token: String,
    pub client_token: Option<String>,
    pub selected_profile: Option<Profile>,
    pub available_profiles: Option<Vec<Profile>>,
}

/// `s` without its trailing `c` characters.
pub open spec fn trim_end_char(s: Seq<char>, c: char) -> Seq<char>
    decreases s.len(),
{
    if s.len() > 0 && s.last() == c {
        trim_end_char(s.drop_last(), c)
    } else {
        s
    }
}

/// The login endpoint of a server.
pub fn authenticate_url(server: &str) -> (r: String)
    ensures
        r@ == trim_end_char(server@, '/') + "/authserver/authenticate"@,
{
    let cs = chars_of(server);
    let mut n: usize = cs.len();
    assert(server@.subrange(0, n as int) =~= server@);
    while n > 0 && cs[n - 1] == '/'
        invariant
            n <= cs@.len(),
            cs@ == server@,
            trim_end_char(server@, '/') == trim_end_char(server@.subrange(0, n as int), '/'),
        decreases n,
    {
        assert(server@.subrange(0, n as int).drop_last() =~= server@.subrange(0, n - 1));
        n -= 1;
    }
    let base = crate::text::slice_string(&cs, 0, n);
    cat(base.as_str(), "/authserver/authenticate")
}

/// The request body of a password login.
pub fn auth_request(username: &str, password: &str) -> (r: AuthRequest)
    ensures
        r.agent.name@ == "Minecraft"@,
        r.agent.version == 1,
        r.username@ == username@,
        r.password@ == password@,
        r.client_token.is_none(),
        r.request_user,
{
    AuthRequest {
        agent: Agent { name: "Minecraft".to_owned(), version: 1 },
        username: username.to_owned(),
        password: password.to_owned(),
        client_token: None,
        request_user: true,
    }
}

} // verus!
