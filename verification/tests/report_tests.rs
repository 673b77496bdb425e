use autoban::database::query::Database;
use autoban::server::json::{api_func_json, api_json_body, blacklist_table, whitelist_table, JsonQuery};
use serde_json::Value;
use autoban::net::{Cidr, IpAddress};
use autoban::server::report::whitelist_listing;
use autoban::filer_service::service::FilterService;
use autoban::filer_service::traffic::WhitelistRecord;
use autoban::utils::iferror::iferror;

fn cidr(s: &str) -> Cidr {
    Cidr::from_str(s).unwrap()
}

const IN4: &str = "Chain BANDWIDTH_IN (1 references)\n pkts bytes target     prot opt in     out     source               destination\n   12  3400 RETURN     all  --  *      *       10.0.0.0/8           0.0.0.0/0\n";
const OUT4: &str = "Chain BANDWIDTH_OUT (1 references)\n pkts bytes target     prot opt in     out     source               destination\n    5   700 RETURN     all  --  *      *       0.0.0.0/0            10.0.0.0/8\n";

#[test]
fn whitelist_data_reads_the_counters() {
    let mut s = FilterService::new();
    s.add_whitelisted_ip(cidr("10.0.0.0/8"));
    s.add_whitelisted_ip(cidr("172.16.0.0/12"));
    let r = s.get_whitelist_data(true, IN4, OUT4, "", "");
    assert_eq!(r, vec![WhitelistRecord { ip: cidr("10.0.0.0/8"), packets_out: 5, packets_in: 12, bandwidth_out: 700, bandwidth_in: 3400 }]);
    assert!(s.get_whitelist_data(false, IN4, OUT4, "", "").is_empty());
    assert_eq!(s.whitelist_data(true, IN4, OUT4, "", ""), Some(r));
}

#[test]
fn whitelist_data_reads_unreadable_counters_as_zero() {
    let mut s = FilterService::new();
    s.add_whitelisted_ip(cidr("10.0.0.0/8"));
    let input = "  70000 12K RETURN all -- * * 10.0.0.0/8 0.0.0.0/0\r\n";
    let output = "  3 x RETURN all -- * * 0.0.0.0/0 10.0.0.0/8";
    let r = s.get_whitelist_data(true, input, output, "", "");
    assert_eq!(r, vec![WhitelistRecord { ip: cidr("10.0.0.0/8"), packets_out: 3, packets_in: 0, bandwidth_out: 0, bandwidth_in: 0 }]);
}

#[test]
fn whitelist_data_skips_unequal_listings_and_finds_short_lines() {
    let mut s = FilterService::new();
    s.add_whitelisted_ip(cidr("10.0.0.0/8"));
    assert!(s.get_whitelist_data(true, IN4, "", "", "").is_empty());
    assert!(s.records_are_readable(IN4, OUT4, "", ""));
    assert!(!s.records_are_readable("10.0.0.0", OUT4, "", ""));
    assert_eq!(s.whitelist_data(true, "10.0.0.0", OUT4, "", ""), None);
    assert_eq!(s.whitelist_data(false, "10.0.0.0", OUT4, "", ""), Some(vec![]));
}

#[test]
fn whitelist_data_reads_ipv6_listings() {
    let mut s = FilterService::new();
    s.add_whitelisted_ip(cidr("2001:db8::/32"));
    let in6 = "    1    80 RETURN  all  *  *  2001:db8::/32  ::/0\n";
    let out6 = "    2    90 RETURN  all  *  *  ::/0  2001:db8::/32\n";
    let r = s.get_whitelist_data(true, IN4, OUT4, in6, out6);
    assert_eq!(r, vec![WhitelistRecord { ip: cidr("2001:db8::/32"), packets_out: 2, packets_in: 1, bandwidth_out: 90, bandwidth_in: 80 }]);
}

#[test]
fn whitelist_listing_lines_up_the_columns() {
    let rec = WhitelistRecord { ip: cidr("10.0.0.0/8"), packets_out: 5, packets_in: 12, bandwidth_out: 700, bandwidth_in: 3400 };
    let text = whitelist_listing(&vec![rec], &vec!["CN".to_string()], &cidr("127.0.0.1"));
    assert_eq!(text, format!(
        "[whitelist] has  1 ip  gen by: 127.0.0.1/32\nip            packets_out   packets_in    bandwidth_out bandwidth_in  \n{} {:10} {:10} {:10} {:10} {:10}\n",
        "10.0.0.0/8", 5u16, 12u16, 700u16, 3400u16, "CN"));
    assert!(text.ends_with("10.0.0.0/8          5         12        700       3400 CN        \n"));
    let long = whitelist_listing(&vec![rec], &vec!["a long location".to_string()], &cidr("127.0.0.1"));
    assert!(long.ends_with("3400 a long location\n"));
}

#[test]
fn json_tables() {
    assert_eq!(api_func_json("listw"), JsonQuery::Whitelist);
    assert_eq!(api_func_json("listb"), JsonQuery::Blacklist);
    assert_eq!(api_func_json("log"), JsonQuery::Nothing);
    let rec = WhitelistRecord { ip: cidr("10.0.0.0/8"), packets_out: 5, packets_in: 12, bandwidth_out: 700, bandwidth_in: 3400 };
    let t = whitelist_table(&vec![rec], &vec!["CN".to_string()], &cidr("127.0.0.1"));
    assert_eq!(t.title, "[whitelist] has  1 ip  gen by: 127.0.0.1/32");
    assert_eq!(t.subtitle, vec!["ip", "packets_out", "packets_in", "bandwidth_out", "bandwidth_in", "ip_location", "addtime"]);
    assert_eq!(t.rows, vec![vec!["10.0.0.0/8", "5", "12", "700", "3400", "CN", ""]]);
    let mut s = FilterService::new();
    s.add_blacklisted_ip(cidr("1.2.3.4"));
    let b = blacklist_table(&s, &vec!["US".to_string()], &cidr("127.0.0.1"));
    assert_eq!(b.title, "[blacklist] has 1 ip  gen by: 127.0.0.1/32");
    assert_eq!(b.subtitle, vec!["ip", "ip_location", "addtime"]);
    assert_eq!(b.rows, vec![vec!["1.2.3.4/32", "US", ""]]);
}

#[test]
fn database_lookups() {
    assert_eq!(Database::new().data_file, "./qqwry.dat");
    assert_eq!(Database::query_key(&IpAddress::V4(0x0808_0808)), Some("8.8.8.8".to_string()));
    assert_eq!(Database::query_key(&IpAddress::V6(1)), None);
    assert_eq!(Database::query_answer(Some("CN".to_string())), Ok("CN".to_string()));
    assert_eq!(Database::query_answer(None), Err("unable to read".to_string()));
}

#[test]
fn iferror_lines() {
    assert_eq!(iferror(Ok(())), None);
    assert_eq!(iferror(Err("boom".to_string())), Some("error: boom".to_string()));
}

fn original_json(title: &str, heads: &[&str], rows: &[Vec<&str>]) -> String {
    let mut json_object = serde_json::Map::new();
    json_object.insert("title".to_string(), Value::String(title.to_string()));
    json_object.insert("subtitle".to_string(), Value::Array(heads.iter().map(|h| Value::String(h.to_string())).collect()));
    let lines = rows.iter().map(|r| Value::Array(r.iter().map(|c| Value::String(c.to_string())).collect())).collect();
    json_object.insert("data".to_string(), Value::Array(lines));
    serde_json::to_string(&json_object).unwrap()
}

#[test]
fn json_bodies() {
    assert_eq!(api_json_body(JsonQuery::Nothing, &None), "{}");
    let rec = WhitelistRecord { ip: cidr("10.0.0.0/8"), packets_out: 5, packets_in: 12, bandwidth_out: 700, bandwidth_in: 3400 };
    let t = whitelist_table(&vec![rec], &vec!["CN \"x\"".to_string()], &cidr("127.0.0.1"));
    let body = api_json_body(JsonQuery::Whitelist, &Some(t));
    assert_eq!(body, original_json("[whitelist] has  1 ip  gen by: 127.0.0.1/32",
        &["ip", "packets_out", "packets_in", "bandwidth_out", "bandwidth_in", "ip_location", "addtime"],
        &[vec!["10.0.0.0/8", "5", "12", "700", "3400", "CN \"x\"", ""]]));
    let mut s = FilterService::new();
    s.add_blacklisted_ip(cidr("1.2.3.4"));
    let b = blacklist_table(&s, &vec!["US".to_string()], &cidr("127.0.0.1"));
    assert_eq!(api_json_body(JsonQuery::Blacklist, &Some(b)),
        original_json("[blacklist] has 1 ip  gen by: 127.0.0.1/32", &["ip", "ip_location", "addtime"], &[vec!["1.2.3.4/32", "US", ""]]));
}
