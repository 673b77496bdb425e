use autoban::net::Cidr;
use autoban::server::report::whitelist_listing;
use autoban::filer_service::traffic::WhitelistRecord;
use cidr_utils::cidr::IpCidr;

#[test]
fn cidr_text_matches_cidr_utils() {
    for s in ["10.0.0.0/8", "192.168.1.7/24", "1.2.3.4", "0.0.0.0/0", "255.255.255.255/32", "10.1",
              "::1", "::", "2001:db8::/32", "fe80::1:2:3:4/64", "::ffff:1.2.3.4", "1:2:3:4:5:6:7:8"] {
        let ours = Cidr::from_str(s).unwrap();
        let theirs = IpCidr::from_str(s).unwrap();
        assert_eq!(ours.to_string(), theirs.to_string(), "{s}");
        assert_eq!(ours.first_as_ip_addr().to_string(), theirs.first_as_ip_addr().to_string(), "{s}");
    }
}

#[test]
fn listing_line_matches_format() {
    let s = "172.16.0.0/12";
    let theirs = IpCidr::from_str(s).unwrap();
    let rec = WhitelistRecord { ip: Cidr::from_str(s).unwrap(), packets_out: 1, packets_in: 22, bandwidth_out: 333, bandwidth_in: 65535 };
    let location = "本地".to_string();
    let ours = whitelist_listing(&vec![rec], &vec![location.clone()], &Cidr::from_str("127.0.0.1").unwrap());
    let client = IpCidr::from_str("127.0.0.1").unwrap();
    let mut expected = format!("[whitelist] has  {} ip  gen by: {client}\n", 1);
    expected += "ip            packets_out   packets_in    bandwidth_out bandwidth_in  \n";
    expected += &format!("{:width$} {:width$} {:width$} {:width$} {:width$} {:width$}\n",
        theirs, 1u16, 22u16, 333u16, 65535u16, location, width = 10);
    assert_eq!(ours, expected);
}
