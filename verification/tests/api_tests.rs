use autoban::server::handlers::{api_call, api_func, get_record, reset_whitelist, ApiOutcome, ApiStatus};
use autoban::config::Config;
use autoban::net::{Cidr, IpAddress};
use autoban::server::check_key;
use autoban::server::handlers::{get_client_ip, help, which_ip, XForwardedFor, XRealIp};
use autoban::filer_service::service::{FilterService, TableOp};

fn cidr(s: &str) -> Cidr {
    Cidr::from_str(s).unwrap()
}

fn reply(o: ApiOutcome) -> (ApiStatus, String, Vec<TableOp>) {
    match o {
        ApiOutcome::Reply { status, body, ops } => (status, body, ops),
        ApiOutcome::ListWhitelist => panic!("expected a reply"),
    }
}

const ADMIN: &str = "adminpasswordpassword";
const QUERY: &str = "passwordpassword";

#[test]
fn check_key_cases() {
    let c = Config::default();
    assert!(check_key(ADMIN, true, "add".to_string(), &c));
    assert!(check_key(ADMIN, false, "add".to_string(), &c));
    assert!(!check_key(QUERY, true, "add".to_string(), &c));
    assert!(check_key(QUERY, false, "add".to_string(), &c));
    assert!(!check_key("", false, "add".to_string(), &c));
    assert!(!check_key("nope", false, "add".to_string(), &c));
    let mut empty = Config::default();
    empty.key_admin = String::new();
    assert!(!check_key("", true, "add".to_string(), &empty));
}

#[test]
fn client_ip_cases() {
    let peer = IpAddress::V4(0x0A00_0002);
    let real = Some(XRealIp(IpAddress::V4(0x0102_0304)));
    let fwd = Some(XForwardedFor("5.6.7.8, 9.9.9.9".to_string()));
    assert_eq!(get_client_ip(false, peer, real, fwd.clone()), cidr("10.0.0.2"));
    assert_eq!(get_client_ip(true, peer, real, fwd.clone()), cidr("1.2.3.4"));
    assert_eq!(get_client_ip(true, peer, None, fwd), cidr("127.0.0.1"));
    assert_eq!(get_client_ip(true, peer, None, None), cidr("127.0.0.1"));
    assert_eq!(get_client_ip(false, IpAddress::V6(1), None, None), cidr("::1"));
    which_ip("1.2.3.4".to_string());
}

#[test]
fn help_text() {
    assert_eq!(help(), "SelfHelp iptables Whitelist\n/api/add?key=yourkey\n/api/list?key=yourkey \n/api/remove/ip?key=yourkey\n/api/log?key=yourkey\n/api/record?key=yourkey");
}

fn call(func: &str, key: &str, ip: Option<&str>, s: &mut FilterService) -> ApiOutcome {
    let client = cidr("127.0.0.1");
    api_func(func, key, ip.map(|x| x.to_string()), &client, s, &Config::default(), &vec![])
}

#[test]
fn api_add_whitelists_the_parameter_or_the_client() {
    let mut s = FilterService::new();
    let (st, body, ops) = reply(call("add", ADMIN, Some("8.8.8.8"), &mut s));
    assert_eq!((st, body.as_str(), ops.len()), (ApiStatus::Success, "ok", 3));
    reply(call("add", ADMIN, Some("garbage"), &mut s));
    reply(call("add", ADMIN, None, &mut s));
    assert_eq!(s.whitelisted_ips, vec![cidr("8.8.8.8"), cidr("127.0.0.1")]);
}

#[test]
fn api_refuses_without_the_admin_key() {
    for f in ["add", "del", "ban", "reset", "log", "other", ""] {
        let mut s = FilterService::new();
        let (st, body, ops) = reply(call(f, QUERY, Some("8.8.8.8"), &mut s));
        assert_eq!(st, ApiStatus::Unauthorized);
        assert_eq!(body, "UNAUTHORIZED");
        assert!(ops.is_empty());
        assert!(s.whitelisted_ips.is_empty() && s.blacklisted_ips.is_empty());
    }
}

#[test]
fn api_del_and_ban() {
    let mut s = FilterService::new();
    reply(call("add", ADMIN, Some("8.8.8.8"), &mut s));
    let (st, body, ops) = reply(call("ban", ADMIN, Some("8.8.8.8"), &mut s));
    assert_eq!((st, body.as_str()), (ApiStatus::Success, "ok"));
    assert_eq!(ops, vec![TableOp::AppendUnique { chain: "BLACK_LIST".to_string(), rule: " -s 8.8.8.8/32 -j DROP".to_string() }]);
    let (st, _, ops) = reply(call("del", ADMIN, Some("8.8.8.8"), &mut s));
    assert_eq!(st, ApiStatus::Success);
    assert_eq!(ops.len(), 4);
    assert!(s.whitelisted_ips.is_empty() && s.blacklisted_ips.is_empty());
    let (st, body, _) = reply(call("del", ADMIN, Some("x"), &mut s));
    assert_eq!((st, body.as_str()), (ApiStatus::BadRequest, "bad request: The CIDR string is incorrect."));
    let (st, body, _) = reply(call("ban", ADMIN, None, &mut s));
    assert_eq!((st, body.as_str()), (ApiStatus::BadRequest, "bad request: not ip get"));
    let (st, body, _) = reply(call("del", ADMIN, None, &mut s));
    assert_eq!((st, body.as_str()), (ApiStatus::BadRequest, "bad request: not ip get"));
}

#[test]
fn api_listings_need_no_key() {
    let mut s = FilterService::new();
    s.add_blacklisted_ip(cidr("1.2.3.4"));
    s.add_blacklisted_ip(cidr("::1"));
    assert!(matches!(call("listw", "", None, &mut s), ApiOutcome::ListWhitelist));
    let (st, body, _) = reply(call("listb", "", None, &mut s));
    assert_eq!(st, ApiStatus::Success);
    assert_eq!(body, "[blacklist] has 2 ip  gen by: 127.0.0.1/32\nips:\n1.2.3.4/32\n::1/128\n");
    let (_, body, _) = reply(call("help", "", None, &mut s));
    assert_eq!(body, help());
}

#[test]
fn api_log_lists_the_counts() {
    let mut s = FilterService::new();
    s.add_whitelisted_ip(cidr("1.1.1.1"));
    s.packets_per_ip.push((cidr("1.1.1.1"), 7));
    s.packets_per_ip.push((cidr("2.2.2.2"), 0));
    let (st, body, _) = reply(call("log", ADMIN, None, &mut s));
    assert_eq!(st, ApiStatus::Success);
    assert_eq!(body, "found 2 ip  gen by: 127.0.0.1/32\n1.1.1.1/32 record times: 7  [Whitelist]\n 2.2.2.2/32 record times: 0  \n ");
}

#[test]
fn api_reset_reloads_the_configuration() {
    let mut s = FilterService::new();
    s.add_whitelisted_ip(cidr("9.9.9.9"));
    s.packets_per_ip.push((cidr("9.9.9.9"), 1));
    let (st, body, ops) = reply(call("reset", ADMIN, None, &mut s));
    assert_eq!((st, body.as_str()), (ApiStatus::Success, "ok"));
    assert!(s.whitelisted_ips.is_empty() && s.packets_per_ip.is_empty());
    assert_eq!(s.whitelisted_ports, vec![3000]);
    assert_eq!(ops.len(), 12 + 8 + 1 + 4 + 1);
}

#[test]
fn api_call_refuses_a_bad_configuration_on_reset() {
    let mut c = Config::default();
    c.filterlist.allow_ips.push("bad".to_string());
    let client = cidr("127.0.0.1");
    let mut s = FilterService::new();
    assert!(api_call("reset", ADMIN, None, &client, &mut s, &c, &vec![]).is_none());
    assert!(api_call("reset", QUERY, None, &client, &mut s, &c, &vec![]).is_some());
    assert!(api_call("help", ADMIN, None, &client, &mut s, &c, &vec![]).is_some());
}

#[test]
fn reset_whitelist_takes_the_query_key() {
    let mut s = FilterService::new();
    s.add_whitelisted_ip(cidr("9.9.9.9"));
    let (st, _, _) = reply(reset_whitelist("bad", &mut s, &Config::default(), &vec![]));
    assert_eq!(st, ApiStatus::Unauthorized);
    assert_eq!(s.whitelisted_ips.len(), 1);
    let (st, body, ops) = reply(reset_whitelist(QUERY, &mut s, &Config::default(), &vec![]));
    assert_eq!((st, body.as_str()), (ApiStatus::Success, "ok"));
    assert!(s.whitelisted_ips.is_empty());
    assert_eq!(ops.len(), 12 + 8 + 1 + 1);
}

#[test]
fn get_record_answers() {
    let c = Config::default();
    let client = cidr("127.0.0.1");
    let mut s = FilterService::new();
    assert_eq!(reply(get_record(QUERY, &client, &s, &c)).0, ApiStatus::Unauthorized);
    assert_eq!(reply(get_record(ADMIN, &client, &s, &c)).1, "ok");
    s.packets_per_ip.push((cidr("3.3.3.3"), 2));
    s.packets_per_ip.push((cidr("4.4.4.4"), 5));
    let (st, body, _) = reply(get_record(ADMIN, &client, &s, &c));
    assert_eq!(st, ApiStatus::Unauthorized);
    assert_eq!(body, "found 2 ip  gen by: 127.0.0.1/32\n3.3.3.3/32 record times: 2  \n ");
}

#[test]
fn listings_leave_the_service_as_it_was() {
    let mut s = FilterService::new();
    s.add_whitelisted_ip(cidr("1.1.1.1"));
    s.add_blacklisted_ip(cidr("2.2.2.2"));
    for f in ["listw", "listb", "help"] {
        let _ = call(f, ADMIN, Some("3.3.3.3"), &mut s);
        assert_eq!(s.whitelisted_ips, vec![cidr("1.1.1.1")]);
        assert_eq!(s.blacklisted_ips, vec![cidr("2.2.2.2")]);
    }
}

#[test]
fn api_add_then_del_restores_the_lists() {
    let mut s = FilterService::new();
    s.add_whitelisted_ip(cidr("1.1.1.1"));
    s.add_blacklisted_ip(cidr("2.2.2.2"));
    reply(call("add", ADMIN, Some("10.9.8.7"), &mut s));
    assert_eq!(s.whitelisted_ips.len(), 2);
    reply(call("del", ADMIN, Some("10.9.8.7"), &mut s));
    assert_eq!(s.whitelisted_ips, vec![cidr("1.1.1.1")]);
    assert_eq!(s.blacklisted_ips, vec![cidr("2.2.2.2")]);
}
