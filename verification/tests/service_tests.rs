use autoban::config::{Config, FilterList};
use autoban::net::{Cidr, CidrError, IpAddress};
use autoban::filer_service::service::{FilterService, TableOp};

fn cidr(s: &str) -> Cidr {
    Cidr::from_str(s).unwrap()
}

fn append(chain: &str, rule: &str) -> TableOp {
    TableOp::AppendUnique { chain: chain.to_string(), rule: rule.to_string() }
}

fn insert(chain: &str, rule: &str) -> TableOp {
    TableOp::InsertUnique { chain: chain.to_string(), rule: rule.to_string(), position: 1 }
}

fn delete(chain: &str, rule: &str) -> TableOp {
    TableOp::Delete { chain: chain.to_string(), rule: rule.to_string() }
}

#[test]
fn new_service_is_empty() {
    let s = FilterService::new();
    assert!(s.whitelisted_ips.is_empty() && s.blacklisted_ips.is_empty());
    assert!(s.whitelisted_ports.is_empty() && s.blacklisted_ports.is_empty());
    assert!(s.packets_per_ip.is_empty());
    assert_eq!(s.auto_add_threshold, 0);
    assert_eq!(s.deny_action, "DROP");
    assert_eq!(s.rate_trigger, "");
}

#[test]
fn init_resets_the_service() {
    let mut s = FilterService::new();
    s.add_whitelisted_ip(cidr("1.2.3.4"));
    s.deny_action = "REJECT".to_string();
    s.init();
    assert!(s.whitelisted_ips.is_empty());
    assert_eq!(s.deny_action, "DROP");
}

#[test]
fn whitelisting_ipv4_inserts_three_rules() {
    let mut s = FilterService::new();
    let ops = s.add_whitelisted_ip(cidr("10.0.0.0/8"));
    assert_eq!(s.whitelisted_ips, vec![cidr("10.0.0.0/8")]);
    assert_eq!(ops, vec![
        insert("BANDWIDTH_IN", " -s 10.0.0.0/8 -j RETURN"),
        insert("BANDWIDTH_OUT", " -d 10.0.0.0/8 -j RETURN"),
        insert("PROTECT_LIST", " -s 10.0.0.0/8 -j ACCEPT"),
    ]);
    let again = s.add_whitelisted_ip(cidr("10.0.0.0/8"));
    assert_eq!(s.whitelisted_ips.len(), 1);
    assert_eq!(again.len(), 3);
}

#[test]
fn whitelisting_ipv6_makes_no_rule() {
    let mut s = FilterService::new();
    let ops = s.add_whitelisted_ip(cidr("::1"));
    assert!(ops.is_empty());
    assert_eq!(s.whitelisted_ips, vec![cidr("::1")]);
}

#[test]
fn removing_a_whitelisted_block_undoes_its_rules() {
    let mut s = FilterService::new();
    let c = cidr("192.168.0.0/16");
    let added = s.add_whitelisted_ip(c);
    s.packets_per_ip.push((c, 3));
    s.packets_per_ip.push((cidr("1.1.1.1"), 4));
    let removed = s.del_whitelisted_ip(c);
    assert!(s.whitelisted_ips.is_empty());
    assert_eq!(s.packets_per_ip, vec![(cidr("1.1.1.1"), 4)]);
    assert_eq!(removed, vec![
        delete("BANDWIDTH_IN", " -s 192.168.0.0/16 -j RETURN"),
        delete("BANDWIDTH_OUT", " -d 192.168.0.0/16 -j RETURN"),
        delete("PROTECT_LIST", " -s 192.168.0.0/16 -j ACCEPT"),
    ]);
    for (a, r) in added.iter().zip(removed.iter()) {
        match (a, r) {
            (TableOp::InsertUnique { chain: c1, rule: r1, .. }, TableOp::Delete { chain: c2, rule: r2 }) => {
                assert_eq!(c1, c2);
                assert_eq!(r1, r2);
            },
            _ => panic!("unexpected operations"),
        }
    }
}

#[test]
fn removing_ipv6_whitelisted_block_deletes_its_text() {
    let mut s = FilterService::new();
    let ops = s.del_whitelisted_ip(cidr("::1"));
    assert_eq!(ops[0], delete("BANDWIDTH_IN", " -s ::1/128 -j RETURN"));
}

#[test]
fn blacklisting_uses_the_deny_action() {
    let mut s = FilterService::new();
    s.deny_action = "REJECT".to_string();
    let ops = s.add_blacklisted_ip(cidr("1.2.3.4"));
    assert_eq!(ops, vec![append("BLACK_LIST", " -s 1.2.3.4/32 -j REJECT")]);
    let removed = s.del_blacklisted_ip(cidr("1.2.3.4"));
    assert_eq!(removed, vec![delete("BLACK_LIST", " -s 1.2.3.4/32 -j REJECT")]);
    assert!(s.blacklisted_ips.is_empty());
    assert!(s.add_blacklisted_ip(cidr("::2")).is_empty());
}

#[test]
fn clear_tables_removes_the_chains() {
    let ops = FilterService::new().clear_tables();
    assert_eq!(ops, vec![
        delete("INPUT", "-j BANDWIDTH_IN"),
        delete("OUTPUT", "-j BANDWIDTH_OUT"),
        delete("INPUT", "-j PROTECT_LIST"),
        delete("INPUT", "-j BLACK_LIST"),
        TableOp::FlushChain { chain: "PROTECT_LIST".to_string() },
        TableOp::DeleteChain { chain: "PROTECT_LIST".to_string() },
        TableOp::FlushChain { chain: "BLACK_LIST".to_string() },
        TableOp::DeleteChain { chain: "BLACK_LIST".to_string() },
        TableOp::FlushChain { chain: "BANDWIDTH_IN".to_string() },
        TableOp::DeleteChain { chain: "BANDWIDTH_IN".to_string() },
        TableOp::FlushChain { chain: "BANDWIDTH_OUT".to_string() },
        TableOp::DeleteChain { chain: "BANDWIDTH_OUT".to_string() },
    ]);
}

fn sample_service() -> FilterService {
    let mut s = FilterService::new();
    s.add_whitelisted_ip(cidr("10.0.0.0/8"));
    s.add_blacklisted_ip(cidr("1.2.3.4"));
    s.whitelisted_ports.push(22);
    s
}

#[test]
fn init_tables_protects_every_port_without_banned_ports() {
    let mut s = sample_service();
    let local = vec![IpAddress::V4(0xC0A8_0105), IpAddress::V6(1)];
    let ops = s.init_tables(&local);
    assert_eq!(ops, vec![
        TableOp::NewChain { chain: "PROTECT_LIST".to_string() },
        TableOp::NewChain { chain: "BLACK_LIST".to_string() },
        TableOp::NewChain { chain: "BANDWIDTH_IN".to_string() },
        TableOp::NewChain { chain: "BANDWIDTH_OUT".to_string() },
        append("INPUT", "-j BANDWIDTH_IN"),
        append("OUTPUT", "-j BANDWIDTH_OUT"),
        append("INPUT", "-j BLACK_LIST"),
        append("INPUT", "-j PROTECT_LIST"),
        append("PROTECT_LIST", "-s 192.168.1.5 -j ACCEPT"),
        append("PROTECT_LIST", "-p icmp -j ACCEPT"),
        insert("BANDWIDTH_IN", " -s 10.0.0.0/8 -j RETURN"),
        insert("BANDWIDTH_OUT", " -d 10.0.0.0/8 -j RETURN"),
        insert("PROTECT_LIST", " -s 10.0.0.0/8 -j ACCEPT"),
        append("BLACK_LIST", " -s 1.2.3.4/32 -j DROP"),
        append("PROTECT_LIST", "-p tcp --dport 22 -j ACCEPT"),
        append("PROTECT_LIST", "-p udp --dport 22 -j ACCEPT"),
        append("PROTECT_LIST", "-p tcp --sport 22 -j ACCEPT"),
        append("PROTECT_LIST", "-p udp --sport 22 -j ACCEPT"),
        append("PROTECT_LIST", "-j DROP"),
    ]);
    assert_eq!(s.whitelisted_ips.len(), 1);
    assert_eq!(s.start(&local), ops);
}

#[test]
fn init_tables_guards_banned_ports_with_a_trigger() {
    let mut s = FilterService::new();
    s.blacklisted_ports.push(8080);
    s.rate_trigger = "20/60".to_string();
    let ops = s.init_tables(&vec![]);
    assert_eq!(ops[9..].to_vec(), vec![
        append("PROTECT_LIST", "-p tcp --dport 8080 -j NFLOG --nflog-group 100 --nflog-prefix [ipt]"),
        append("PROTECT_LIST", "-p udp --dport 8080 -j NFLOG --nflog-group 100 --nflog-prefix [ipt]"),
        append("PROTECT_LIST", "-p tcp --dport 8080 -m recent --name 8080TRIGGER --set"),
        append("PROTECT_LIST", "-p tcp --dport 8080 -m recent --name 8080TRIGGER --rcheck --seconds 60 --hitcount 20 -j NFLOG --nflog-group 100 --nflog-prefix  [ipt-trigger]"),
        append("PROTECT_LIST", "-p tcp --dport 8080 -j DROP"),
        append("PROTECT_LIST", "-p udp --dport 8080 -j DROP"),
    ]);
}

#[test]
fn init_tables_skips_an_invalid_trigger() {
    let mut s = FilterService::new();
    s.blacklisted_ports.push(25);
    s.rate_trigger = "20".to_string();
    let ops = s.init_tables(&vec![]);
    assert_eq!(ops.len(), 9 + 4);
}

#[test]
fn resets_rebuild_the_tables() {
    let mut s = sample_service();
    s.packets_per_ip.push((cidr("10.0.0.0/8"), 1));
    let ops = s.reset_table(&vec![]);
    assert!(s.packets_per_ip.is_empty());
    assert_eq!(s.whitelisted_ips.len(), 1);
    assert_eq!(ops[..12].to_vec(), FilterService::new().clear_tables());
    assert_eq!(ops.len(), 12 + 18);
    let ops = s.reset_whitelist(&vec![]);
    assert!(s.whitelisted_ips.is_empty());
    assert_eq!(ops.len(), 12 + 15);
}

fn sample_config() -> Config {
    let mut c = Config::default();
    c.filterlist.allow_ips = vec!["10.0.0.0/8".to_string(), "::1".to_string()];
    c.filterlist.ban_ips = vec!["1.2.3.4".to_string()];
    c.filterlist.allow_ports = vec![22, 22];
    c.filterlist.ban_ports = vec![8080];
    c.filterlist.reject = true;
    c.filterlist.rate_trigger = "5/10".to_string();
    c.filterlist.auto_add_threshold = 9;
    c
}

#[test]
fn load_config_lists_the_configuration() {
    let mut s = FilterService::new();
    s.load_config(&sample_config());
    assert_eq!(s.whitelisted_ips, vec![cidr("10.0.0.0/8"), cidr("::1")]);
    assert_eq!(s.blacklisted_ips, vec![cidr("1.2.3.4")]);
    assert_eq!(s.whitelisted_ports, vec![22, 3000]);
    assert_eq!(s.blacklisted_ports, vec![8080]);
    assert_eq!(s.deny_action, "REJECT");
    assert_eq!(s.rate_trigger, "5/10");
    assert_eq!(s.auto_add_threshold, 9);
}

#[test]
fn load_config_behind_a_proxy_keeps_the_port_closed() {
    let mut c = sample_config();
    c.reverse_proxy = true;
    c.filterlist.reject = false;
    let mut s = FilterService::new();
    s.load_config(&c);
    assert_eq!(s.whitelisted_ports, vec![22]);
    assert_eq!(s.deny_action, "DROP");
}

#[test]
fn try_load_config_refuses_a_bad_address() {
    let mut c = sample_config();
    c.filterlist.ban_ips.push("not an address".to_string());
    let mut s = FilterService::new();
    assert_eq!(s.try_load_config(&c), Err(CidrError::IncorrectCidrString));
    assert!(s.whitelisted_ips.is_empty());
    let mut s = FilterService::new();
    assert_eq!(s.try_load_config(&sample_config()), Ok(()));
    assert_eq!(s.whitelisted_ips.len(), 2);
}

#[test]
fn defaults_of_the_configuration() {
    let c = Config::default();
    assert_eq!(c.key_admin, "adminpasswordpassword");
    assert_eq!(c.key_query, "passwordpassword");
    assert_eq!(c.listen_ip, IpAddress::V4(0));
    assert_eq!(c.listen_port, 3000);
    assert!(!c.reverse_proxy);
    let f = FilterList::default();
    assert!(f.allow_ports.is_empty() && f.ban_ports.is_empty() && f.allow_ips.is_empty() && f.ban_ips.is_empty());
    assert_eq!(f.auto_add_threshold, 0);
    assert!(!f.reject);
    assert_eq!(f.auto_reset, "m");
    assert_eq!(f.rate_trigger, "");
}
