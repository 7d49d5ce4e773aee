//! Assembly of the document-store connection string.
//!
//! Reading the environment and the password file is the caller's business;
//! the URI itself is assembled here from the four plain parts.

use vstd::prelude::*;

verus! {

/// Builds `mongodb://<username>:<password>@<domain>/<database>`.
pub fn mongodb_connection_uri(
    username: &str,
    password: &str,
    domain: &str,
    database: &str,
) -> (r: String)
    ensures
        r@ == "mongodb://"@ + username@ + ":"@ + password@ + "@"@ + domain@ + "/"@ + database@,
{
    let mut r = String::from_str("mongodb://");
    r.append(username);
    r.append(":");
    r.append(password);
    r.append("@");
    r.append(domain);
    r.append("/");
    r.append(database);
    r
}

} // verus!
