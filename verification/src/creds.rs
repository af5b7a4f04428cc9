//! The credential decision answered to a transport's authentication
//! challenge: which credential kind to offer, for which user, and from which
//! key path.
//!
//! Building the actual credential object and registering the callback is the
//! transport's business and stays outside the library; a caller hands over
//! the challenge's username hint, whether a plain username is requested, and
//! the home directory, and receives the decision.

use vstd::prelude::*;
use vstd::string::StrSliceExecFns;
use vstd::string::StringExecFns;

verus! {

/// The credential to offer: a plain username, or an SSH key on disk used
/// with a username and no passphrase.
pub enum CredChoice {
    Username { user: String },
    SshKey { user: String, key_path: String },
}

/// The user a challenge is answered for: the transport's hint, or "git"
/// where it gives none.
pub open spec fn spec_cred_user(username: Option<Seq<char>>) -> Seq<char> {
    match username {
        Some(u) => u,
        None => "git"@,
    }
}

/// The default SSH key path under a home directory: `.ssh/id_rsa` joined to
/// it; with no home directory, or an empty one, the bare relative path.
pub open spec fn spec_ssh_key_path(home: Option<Seq<char>>) -> Seq<char> {
    match home {
        Some(h) => {
            if h.len() == 0 {
                ".ssh/id_rsa"@
            } else if h.last() == '/' {
                h + ".ssh/id_rsa"@
            } else {
                h + "/.ssh/id_rsa"@
            }
        },
        None => ".ssh/id_rsa"@,
    }
}

/// Decides the credential for one challenge: the requested username or
/// "git"; a plain username credential where the transport asks only for a
/// username, else the SSH key at `.ssh/id_rsa` under the home directory.
pub fn credential_decision(username: Option<&str>, wants_username: bool, home_dir: Option<&str>) -> (r:
    CredChoice)
    ensures
        wants_username ==> (r matches CredChoice::Username { user } && user@ == spec_cred_user(
            username.deep_view(),
        )),
        !wants_username ==> (r matches CredChoice::SshKey { user, key_path } && user@
            == spec_cred_user(username.deep_view()) && key_path@ == spec_ssh_key_path(
            home_dir.deep_view(),
        )),
{
    let user = match username {
        Some(u) => u.to_owned(),
        None => "git".to_owned(),
    };
    if wants_username {
        CredChoice::Username { user }
    } else {
        let mut key_path = String::new();
        match home_dir {
            Some(h) => {
                let n = h.unicode_len();
                if n == 0 {
                    key_path.append(".ssh/id_rsa");
                } else if h.get_char(n - 1) == '/' {
                    key_path.append(h);
                    key_path.append(".ssh/id_rsa");
                } else {
                    key_path.append(h);
                    key_path.append("/.ssh/id_rsa");
                }
            },
            None => {
                key_path.append(".ssh/id_rsa");
            },
        }
        assert(key_path@ =~= spec_ssh_key_path(home_dir.deep_view()));
        CredChoice::SshKey { user, key_path }
    }
}

} // verus!
