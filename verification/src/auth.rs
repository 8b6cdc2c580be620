//! Credential selection for the transport layer.
//!
//! The core itself performs no I/O; these types only decide, from the
//! requested method and whatever credentials are on hand, which
//! authentication a transport should use.  Method names are recognised
//! case-insensitively, as command-line input spells them freely.

use vstd::prelude::*;

verus! {

#[derive(Clone, Copy, Debug, PartialEq, Eq)]
pub enum AuthType {
    Apikey,
    Basic,
    NoAuth,
}

#[derive(Debug, PartialEq, Eq)]
pub enum Auth {
    Apikey(String),
    Basic(String, String),
    NoAuth,
}

/// `c` matches the lowercase ASCII letter `t`, ignoring case.
pub open spec fn char_eq_ci(c: char, t: char) -> bool {
    c == t || ('A' <= c && c <= 'Z' && (c as int) + 32 == (t as int))
}

/// `s` spells the lowercase ASCII word `t`, ignoring case.
pub open spec fn str_eq_ci(s: Seq<char>, t: Seq<char>) -> bool {
    s.len() == t.len() && forall|i: int| 0 <= i < s.len() ==> char_eq_ci(#[trigger] s[i], t[i])
}

/// Whether `s` spells the lowercase ASCII word `t`, ignoring case.
fn eq_ignore_case(s: &str, t: &str) -> (r: bool)
    ensures
        r == str_eq_ci(s@, t@),
{
    let s_len = s.unicode_len();
    let t_len = t.unicode_len();
    if s_len != t_len {
        return false;
    }
    for i in 0..s_len
        invariant
            s_len == s@.len(),
            s_len == t@.len(),
            forall|j: int| 0 <= j < i ==> char_eq_ci(#[trigger] s@[j], t@[j]),
    {
        let c = s.get_char(i);
        let target = t.get_char(i);
        let matches_case = c == target || ('A' <= c && c <= 'Z' && (c as u32) + 32 == (target
            as u32));
        if !matches_case {
            proof {
                assert(!char_eq_ci(s@[i as int], t@[i as int]));
            }
            return false;
        }
    }
    true
}

impl AuthType {
    /// Recognises an authentication method name, ignoring case.
    pub fn from_str(s: &str) -> (r: Result<AuthType, ()>)
        ensures
            r == (if str_eq_ci(s@, "apikey"@) {
                Ok::<AuthType, ()>(AuthType::Apikey)
            } else if str_eq_ci(s@, "basic"@) {
                Ok::<AuthType, ()>(AuthType::Basic)
            } else if str_eq_ci(s@, "none"@) {
                Ok::<AuthType, ()>(AuthType::NoAuth)
            } else {
                Err::<AuthType, ()>(())
            }),
    {
        if eq_ignore_case(s, "apikey") {
            Ok(AuthType::Apikey)
        } else if eq_ignore_case(s, "basic") {
            Ok(AuthType::Basic)
        } else if eq_ignore_case(s, "none") {
            Ok(AuthType::NoAuth)
        } else {
            Err(())
        }
    }
}

/// The authentication that a method and the credentials on hand yield: an
/// API key when the key method was asked for and a key exists, basic
/// authentication when that method was asked for and both username and
/// password exist, and none in every other case.
pub open spec fn spec_auth_new(
    auth_type: AuthType,
    username: Option<String>,
    password: Option<String>,
    apikey: Option<String>,
) -> Auth {
    match auth_type {
        AuthType::Apikey => match apikey {
            Some(key) => Auth::Apikey(key),
            None => Auth::NoAuth,
        },
        AuthType::Basic => match (username, password) {
            (Some(user), Some(pass)) => Auth::Basic(user, pass),
            _ => Auth::NoAuth,
        },
        AuthType::NoAuth => Auth::NoAuth,
    }
}

impl Auth {
    /// Selects the authentication for a requested method from the
    /// credentials on hand, falling back to none when they do not suffice.
    pub fn new(
        auth_type: &AuthType,
        username: Option<String>,
        password: Option<String>,
        apikey: Option<String>,
    ) -> (r: Auth)
        ensures
            r == spec_auth_new(*auth_type, username, password, apikey),
    {
        match (auth_type, username, password, apikey) {
            (AuthType::Apikey, _, _, Some(key)) => Auth::Apikey(key),
            (AuthType::Basic, Some(user), Some(pass), _) => Auth::Basic(user, pass),
            _ => Auth::NoAuth,
        }
    }
}

} // verus!
