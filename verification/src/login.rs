//! The parts of the login to the web service that need no network.

use vstd::prelude::*;
use vstd::string::*;
use crate::text::{trim, trim_end_matches_char, trimmed_text, without_trailing};

verus! {

/// What the web service answers when a log was shared.
#[derive(Debug)]
pub struct ShareLogResponse {
    pub id: String,
    pub url: String,
    pub view_url: Option<String>,
    pub delete_token: Option<String>,
    pub expires_at: Option<String>,
    pub line_count: Option<u64>,
}

/// The token in what was typed or read from the token file: the text
/// without the whitespace around it, and none where nothing is left.
pub fn accept_token(raw: &str) -> (token: Option<String>)
    ensures
        trimmed_text(raw@).len() == 0 ==> token is None,
        trimmed_text(raw@).len() > 0 ==> (token matches Some(t) && t@ == trimmed_text(raw@)),
{
    let inner = trim(raw);
    if inner.is_empty() {
        None
    } else {
        Some(String::from_str(inner))
    }
}

/// The address of `path` on the service at `base_url`, where `path` starts
/// with a slash: slashes at the end of `base_url` are left out.
pub fn endpoint(base_url: &str, path: &str) -> (url: String)
    ensures
        url@ == without_trailing(base_url@, '/') + path@,
{
    String::from_str(trim_end_matches_char(base_url, '/')).concat(path)
}

/// The value of the header that carries `token`.
pub fn bearer(token: &str) -> (header: String)
    ensures
        header@ == "Bearer "@ + token@,
{
    String::from_str("Bearer ").concat(token)
}

/// Whether the answer to a token check, by its status code, confirms the
/// token: any code from 200 to 299 does.
pub fn token_confirmed(status: u16) -> (ok: bool)
    ensures
        ok == (200 <= status <= 299),
{
    200 <= status && status <= 299
}

/// Whether the answer to sharing a log, by its status code, says that the
/// log was stored: only 201 does.
pub fn share_stored(status: u16) -> (ok: bool)
    ensures
        ok == (status == 201),
{
    status == 201
}

} // verus!
