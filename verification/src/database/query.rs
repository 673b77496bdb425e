use vstd::prelude::*;
use crate::net::IpAddress;
use crate::text::{ipv4_text, push_ipv4};

verus! {

/// The location database: the `qqwry.dat` file that addresses are looked up in.
#[derive(Debug, Clone)]
pub struct Database {
    pub data_file: String,
}

impl Database {
    /// The database in `./qqwry.dat`.
    pub fn new() -> (d: Database)
        ensures
            d.data_file@ == "./qqwry.dat"@,
    {
        Database { data_file: "./qqwry.dat".to_string() }
    }

    /// The text that `ip` is looked up with: the dotted text of an IPv4 address; none for an
    /// IPv6 address, which the database does not hold.
    pub fn query_key(ip: &IpAddress) -> (r: Option<String>)
        ensures
            match *ip {
                IpAddress::V4(v) => r matches Some(t) && t@ == ipv4_text(v),
                IpAddress::V6(_) => r is None,
            },
    {
        match ip {
            IpAddress::V4(v) => {
                let mut t = String::new();
                push_ipv4(&mut t, *v);
                Some(t)
            },
            IpAddress::V6(_) => None,
        }
    }

    /// The answer to a lookup: what was found, or `unable to read` where nothing was.
    pub fn query_answer(found: Option<String>) -> (r: Result<String, String>)
        ensures
            match found {
                Some(t) => r matches Ok(a) && a@ == t@,
                None => r matches Err(e) && e@ == "unable to read"@,
            },
    {
        match found {
            Some(t) => Ok(t),
            None => Err("unable to read".to_string()),
        }
    }
}

} // verus!
