//! The saved session and where it is kept: `credentials.json` under the CLI's
//! configuration directory. Reading and writing the file belong to the shell.

use vstd::prelude::*;

use crate::text::{chars_of, push_str, string_of};

verus! {

/// Tokens kept between runs.
#[derive(Clone, Debug)]
pub struct StoredSession {
    pub access_token: String,
    pub refresh_token: String,
}

/// File name of the saved session.
pub const CREDENTIALS_FILE: &'static str = "credentials.json";

/// `Path::join` of a relative name onto a directory (Unix separators): a `/` goes between
/// them unless the directory is empty or already ends with one.
pub open spec fn spec_join_path(dir: Seq<char>, name: Seq<char>) -> Seq<char> {
    if dir.len() == 0 || dir.last() == '/' {
        dir + name
    } else {
        dir + "/"@ + name
    }
}

/// Where the saved session lives inside the configuration directory `config_dir`.
pub fn credentials_path(config_dir: &str) -> (r: String)
    ensures
        r@ == spec_join_path(config_dir@, CREDENTIALS_FILE@),
{
    let mut v = chars_of(config_dir);
    if v.len() > 0 && v[v.len() - 1] != '/' {
        push_str(&mut v, "/");
    }
    push_str(&mut v, CREDENTIALS_FILE);
    string_of(&v)
}

} // verus!
