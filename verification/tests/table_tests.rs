use std::collections::BTreeMap;

use autoban::filer_service::service::{FilterService, TableOp};
use autoban::net::{Cidr, IpAddress};

/// A `filter` table: each chain with its rules, in order.
type Table = BTreeMap<String, Vec<String>>;

fn cidr(s: &str) -> Cidr {
    Cidr::from_str(s).unwrap()
}

fn jumped_to(t: &Table, chain: &str) -> bool {
    let jump = format!("-j {}", chain);
    t.values().any(|rules| rules.iter().any(|r| *r == jump))
}

/// Makes one change the way `iptables` does; a change that fails leaves the table alone.
fn apply(t: &mut Table, op: &TableOp) {
    match op {
        TableOp::NewChain { chain } => {
            t.entry(chain.clone()).or_default();
        }
        TableOp::AppendUnique { chain, rule } => {
            if let Some(rules) = t.get_mut(chain) {
                if !rules.contains(rule) {
                    rules.push(rule.clone());
                }
            }
        }
        TableOp::InsertUnique { chain, rule, position } => {
            if let Some(rules) = t.get_mut(chain) {
                let p = *position as usize;
                if !rules.contains(rule) && p >= 1 && p <= rules.len() + 1 {
                    rules.insert(p - 1, rule.clone());
                }
            }
        }
        TableOp::Delete { chain, rule } => {
            if let Some(rules) = t.get_mut(chain) {
                if let Some(i) = rules.iter().position(|r| r == rule) {
                    rules.remove(i);
                }
            }
        }
        TableOp::FlushChain { chain } => {
            if let Some(rules) = t.get_mut(chain) {
                rules.clear();
            }
        }
        TableOp::DeleteChain { chain } => {
            let empty = t.get(chain).map(|r| r.is_empty()).unwrap_or(false);
            if empty && !jumped_to(t, chain) {
                t.remove(chain);
            }
        }
    }
}

fn apply_all(t: &mut Table, ops: &[TableOp]) {
    for op in ops {
        apply(t, op);
    }
}

fn host_table() -> Table {
    let mut t = Table::new();
    t.insert("INPUT".to_string(), vec!["-p tcp --dport 2222 -j ACCEPT".to_string()]);
    t.insert("OUTPUT".to_string(), vec![]);
    t.insert("FORWARD".to_string(), vec!["-j DROP".to_string()]);
    t
}

fn busy_service() -> FilterService {
    let mut s = FilterService::new();
    s.add_whitelisted_ip(cidr("10.0.0.0/8"));
    s.add_whitelisted_ip(cidr("2001:db8::/32"));
    s.add_blacklisted_ip(cidr("1.2.3.4"));
    s.whitelisted_ports.push(80);
    s.blacklisted_ports.push(22);
    s.rate_trigger = "5/60".to_string();
    s.deny_action = "REJECT".to_string();
    s
}

#[test]
fn setup_then_clear_gives_the_table_back() {
    let local = vec![IpAddress::V4(0xC0A8_0105), IpAddress::V6(1)];
    for mut s in [FilterService::new(), busy_service()] {
        let before = host_table();
        let mut t = before.clone();
        apply_all(&mut t, &s.init_tables(&local));
        assert!(t.contains_key("PROTECT_LIST") && t.contains_key("BLACK_LIST"));
        assert!(t.contains_key("BANDWIDTH_IN") && t.contains_key("BANDWIDTH_OUT"));
        assert!(!t["PROTECT_LIST"].is_empty());
        apply_all(&mut t, &s.clear_tables());
        assert_eq!(t, before);
    }
}

#[test]
fn whitelisting_twice_changes_the_table_once() {
    let mut s = busy_service();
    let mut t = host_table();
    apply_all(&mut t, &s.init_tables(&vec![]));
    let ip = cidr("192.168.7.0/24");
    apply_all(&mut t, &s.add_whitelisted_ip(ip));
    let once = t.clone();
    assert_eq!(once["PROTECT_LIST"][0], " -s 192.168.7.0/24 -j ACCEPT");
    apply_all(&mut t, &s.add_whitelisted_ip(ip));
    assert_eq!(t, once);
}

#[test]
fn whitelisting_then_removing_gives_the_table_back() {
    let mut s = busy_service();
    let mut t = host_table();
    apply_all(&mut t, &s.init_tables(&vec![]));
    let before = t.clone();
    let ip = cidr("172.16.0.0/12");
    apply_all(&mut t, &s.add_whitelisted_ip(ip));
    assert_ne!(t, before);
    apply_all(&mut t, &s.del_whitelisted_ip(ip));
    assert_eq!(t, before);
}

#[test]
fn blacklisting_then_removing_gives_the_table_back() {
    let mut s = busy_service();
    let mut t = host_table();
    apply_all(&mut t, &s.init_tables(&vec![]));
    let before = t.clone();
    let ip = cidr("8.8.8.8");
    apply_all(&mut t, &s.add_blacklisted_ip(ip));
    assert_eq!(t["BLACK_LIST"].last().unwrap(), " -s 8.8.8.8/32 -j REJECT");
    apply_all(&mut t, &s.del_blacklisted_ip(ip));
    assert_eq!(t, before);
}
