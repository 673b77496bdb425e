use vstd::prelude::*;
use crate::net::IpAddress;

verus! {

/// What the service lets through and refuses, as the configuration file gives it.
#[derive(Clone, Debug)]
pub struct FilterList {
    pub allow_ports: Vec<u16>,
    pub ban_ports: Vec<u16>,
    pub allow_ips: Vec<String>,
    pub ban_ips: Vec<String>,
    pub auto_add_threshold: u16,
    pub reject: bool,
    pub auto_reset: String,
    pub rate_trigger: String,
}

/// The configuration of the service.
#[derive(Clone, Debug)]
pub struct Config {
    pub key_admin: String,
    pub key_query: String,
    pub listen_ip: IpAddress,
    pub listen_port: u16,
    pub reverse_proxy: bool,
    pub filterlist: FilterList,
}

impl FilterList {
    /// Whether this is the list that `default` gives.
    pub open spec fn is_default(&self) -> bool {
        &&& self.allow_ports@.len() == 0
        &&& self.ban_ports@.len() == 0
        &&& self.allow_ips@.len() == 0
        &&& self.ban_ips@.len() == 0
        &&& self.auto_add_threshold == 0
        &&& !self.reject
        &&& self.auto_reset@ == "m"@
        &&& self.rate_trigger@ == ""@
    }
}

impl Default for FilterList {
    /// Nothing listed, no automatic additions, refused packets dropped, reset every minute,
    /// no rate trigger.
    fn default() -> (r: Self)
        ensures
            r.is_default(),
    {
        FilterList {
            allow_ports: Vec::new(),
            ban_ports: Vec::new(),
            allow_ips: Vec::new(),
            ban_ips: Vec::new(),
            auto_add_threshold: 0,
            reject: false,
            auto_reset: "m".to_string(),
            rate_trigger: "".to_string(),
        }
    }
}

impl Default for Config {
    /// The default keys, listening on every IPv4 address at port 3000, not behind a reverse
    /// proxy, with the default filter list.
    fn default() -> (r: Self)
        ensures
            r.key_admin@ == "adminpasswordpassword"@,
            r.key_query@ == "passwordpassword"@,
            r.listen_ip == IpAddress::V4(0),
            r.listen_port == 3000,
            !r.reverse_proxy,
            r.filterlist.is_default(),
    {
        Config {
            key_admin: "adminpasswordpassword".to_string(),
            key_query: "passwordpassword".to_string(),
            listen_ip: IpAddress::V4(0),
            listen_port: 3000,
            reverse_proxy: false,
            filterlist: FilterList::default(),
        }
    }
}

} // verus!
