use vstd::prelude::*;
use crate::config::Config;
use crate::text::{chars_of, same_text};
pub mod handlers;
pub mod json;
pub mod report;

verus! {

/// Whether `key` opens an API: no empty key does; a privileged API takes the admin key, any
/// other the query key or the admin key.
pub open spec fn key_accepted(key: Seq<char>, privilege: bool, admin: Seq<char>, query: Seq<char>) -> bool {
    key.len() > 0 && if privilege { key == admin } else { key == query || key == admin }
}

/// Checks the key given to the API `api_name`.
pub fn check_key(key: &str, privilege: bool, api_name: String, config: &Config) -> (r: bool)
    ensures
        r == key_accepted(key@, privilege, config.key_admin@, config.key_query@),
{
    let result: bool;
    if chars_of(key).len() > 0 {
        if privilege {
            result = same_text(key, config.key_admin.as_str());
        } else {
            result = same_text(key, config.key_query.as_str()) || same_text(key, config.key_admin.as_str());
        }
    } else {
        result = false;
    }
    result
}

} // verus!
