use vstd::prelude::*;
use crate::net::{Cidr, cidr_text, push_cidr};
use crate::filer_service::service::FilterService;
use crate::filer_service::traffic::WhitelistRecord;
use crate::text::{push_all, push_decimal, decimal, decimal_text, pad_start, pad_end};
use crate::text::{push_padded_start, push_padded_end};
use crate::filer_service::service::contains_cidr;

verus! {

/// The first line of a listing: `title`, the count, and the client it was made for.
pub open spec fn listing_head(title: Seq<char>, n: nat, client: Cidr) -> Seq<char> {
    title + decimal(n) + " ip  gen by: "@ + cidr_text(client) + "\n"@
}

/// One line per block, in order.
pub open spec fn block_lines(ips: Seq<Cidr>) -> Seq<char>
    decreases ips.len(),
{
    if ips.len() == 0 {
        Seq::empty()
    } else {
        block_lines(ips.drop_last()) + cidr_text(ips.last()) + "\n"@
    }
}

/// The text listing of the blacklist.
pub open spec fn blacklist_text(ips: Seq<Cidr>, client: Cidr) -> Seq<char> {
    listing_head("[blacklist] has "@, ips.len(), client) + "ips:\n"@ + block_lines(ips)
}

/// The line of one packet count: the block, its count, and whether it is whitelisted.
pub open spec fn count_line(e: (Cidr, u32), whitelist: Seq<Cidr>) -> Seq<char> {
    cidr_text(e.0) + " record times: "@ + decimal(e.1 as nat)
        + if whitelist.contains(e.0) { "  [Whitelist]\n "@ } else { "  \n "@ }
}

/// The lines of the packet counts, in order.
pub open spec fn count_lines(counts: Seq<(Cidr, u32)>, whitelist: Seq<Cidr>) -> Seq<char>
    decreases counts.len(),
{
    if counts.len() == 0 {
        Seq::empty()
    } else {
        count_lines(counts.drop_last(), whitelist) + count_line(counts.last(), whitelist)
    }
}

/// The text listing of the packet counts.
pub open spec fn counts_text(counts: Seq<(Cidr, u32)>, whitelist: Seq<Cidr>, client: Cidr) -> Seq<char> {
    listing_head("found "@, counts.len(), client) + count_lines(counts, whitelist)
}

/// The column heads of the whitelist listing.
pub open spec fn whitelist_columns() -> Seq<char> {
    "ip            packets_out   packets_in    bandwidth_out bandwidth_in  \n"@
}

/// The line of one traffic record, with the location of its block: numbers right-aligned and
/// the location left-aligned in ten characters (the block is written as it is).
pub open spec fn record_line(r: WhitelistRecord, location: Seq<char>) -> Seq<char> {
    cidr_text(r.ip) + " "@ + pad_start(decimal(r.packets_out as nat), 10) + " "@
        + pad_start(decimal(r.packets_in as nat), 10) + " "@ + pad_start(decimal(r.bandwidth_out as nat), 10) + " "@
        + pad_start(decimal(r.bandwidth_in as nat), 10) + " "@ + pad_end(location, 10) + "\n"@
}

/// The lines of the records, each with the location at the same place.
pub open spec fn record_lines(rs: Seq<WhitelistRecord>, locations: Seq<Seq<char>>) -> Seq<char>
    decreases rs.len(),
{
    if rs.len() == 0 {
        Seq::empty()
    } else {
        record_lines(rs.drop_last(), locations) + record_line(rs.last(), locations[rs.len() - 1])
    }
}

/// The text listing of the whitelist traffic.
pub open spec fn whitelist_text(rs: Seq<WhitelistRecord>, locations: Seq<Seq<char>>, client: Cidr) -> Seq<char> {
    listing_head("[whitelist] has  "@, rs.len(), client) + whitelist_columns() + record_lines(rs, locations)
}

/// The views of a list of strings.
pub open spec fn texts_view(v: Seq<String>) -> Seq<Seq<char>> {
    v.map_values(|s: String| s@)
}

fn push_head(s: &mut String, title: &str, n: usize, client: &Cidr)
    ensures
        final(s)@ == old(s)@ + listing_head(title@, n as nat, *client),
{
    let ghost start = s@;
    push_all(s, title);
    push_decimal(s, n as u64);
    push_all(s, " ip  gen by: ");
    push_cidr(s, client);
    push_all(s, "\n");
    assert(s@ =~= start + listing_head(title@, n as nat, *client));
}

/// The text listing of the blacklist of `service`, made for `client`.
pub fn blacklist_listing(service: &FilterService, client: &Cidr) -> (s: String)
    ensures
        s@ == blacklist_text(service@.blacklisted_ips, *client),
{
    let mut s = String::new();
    push_head(&mut s, "[blacklist] has ", service.blacklisted_ips.len(), client);
    push_all(&mut s, "ips:\n");
    let ghost head = s@;
    let ips = &service.blacklisted_ips;
    let mut i: usize = 0;
    while i < ips.len()
        invariant
            i <= ips.len(),
            s@ == head + block_lines(ips@.take(i as int)),
        decreases ips.len() - i,
    {
        assert(ips@.take(i + 1).drop_last() =~= ips@.take(i as int));
        push_cidr(&mut s, &ips[i]);
        push_all(&mut s, "\n");
        i = i + 1;
        assert(s@ =~= head + block_lines(ips@.take(i as int)));
    }
    assert(ips@.take(ips.len() as int) =~= ips@);
    s
}

fn push_count_line(s: &mut String, e: (Cidr, u32), whitelist: &Vec<Cidr>)
    ensures
        final(s)@ == old(s)@ + count_line(e, whitelist@),
{
    let ghost start = s@;
    push_cidr(s, &e.0);
    push_all(s, " record times: ");
    push_decimal(s, e.1 as u64);
    if contains_cidr(whitelist, &e.0) {
        push_all(s, "  [Whitelist]\n ");
    } else {
        push_all(s, "  \n ");
    }
    assert(s@ =~= start + count_line(e, whitelist@));
}

/// The text listing of the packet counts of `service`, made for `client`.
pub fn counts_listing(service: &FilterService, client: &Cidr) -> (s: String)
    ensures
        s@ == counts_text(service@.packets_per_ip, service@.whitelisted_ips, *client),
{
    let mut s = String::new();
    push_head(&mut s, "found ", service.packets_per_ip.len(), client);
    let ghost head = s@;
    let counts = &service.packets_per_ip;
    let mut i: usize = 0;
    while i < counts.len()
        invariant
            i <= counts.len(),
            s@ == head + count_lines(counts@.take(i as int), service.whitelisted_ips@),
        decreases counts.len() - i,
    {
        assert(counts@.take(i + 1).drop_last() =~= counts@.take(i as int));
        push_count_line(&mut s, counts[i], &service.whitelisted_ips);
        i = i + 1;
        assert(s@ =~= head + count_lines(counts@.take(i as int), service.whitelisted_ips@));
    }
    assert(counts@.take(counts.len() as int) =~= counts@);
    s
}

/// The first line of the packet-count listing and the line of its first count, where there
/// is one.
pub fn first_count_listing(service: &FilterService, client: &Cidr) -> (s: Option<String>)
    ensures
        service@.packets_per_ip.len() == 0 <==> s is None,
        s matches Some(t) ==> t@ == listing_head("found "@, service@.packets_per_ip.len(), *client)
            + count_line(service@.packets_per_ip[0], service@.whitelisted_ips),
{
    if service.packets_per_ip.len() == 0 {
        return None;
    }
    let mut s = String::new();
    push_head(&mut s, "found ", service.packets_per_ip.len(), client);
    push_count_line(&mut s, service.packets_per_ip[0], &service.whitelisted_ips);
    Some(s)
}

fn push_record_line(s: &mut String, r: &WhitelistRecord, location: &String)
    ensures
        final(s)@ == old(s)@ + record_line(*r, location@),
{
    let ghost start = s@;
    push_cidr(s, &r.ip);
    push_all(s, " ");
    push_padded_start(s, decimal_text(r.packets_out as u64).as_str(), 10);
    push_all(s, " ");
    push_padded_start(s, decimal_text(r.packets_in as u64).as_str(), 10);
    push_all(s, " ");
    push_padded_start(s, decimal_text(r.bandwidth_out as u64).as_str(), 10);
    push_all(s, " ");
    push_padded_start(s, decimal_text(r.bandwidth_in as u64).as_str(), 10);
    push_all(s, " ");
    push_padded_end(s, location.as_str(), 10);
    push_all(s, "\n");
    assert(s@ =~= start + record_line(*r, location@));
}

/// The text listing of the whitelist traffic, each record with the location of its block,
/// made for `client`.
pub fn whitelist_listing(records: &Vec<WhitelistRecord>, locations: &Vec<String>, client: &Cidr) -> (s: String)
    requires
        records.len() == locations.len(),
    ensures
        s@ == whitelist_text(records@, texts_view(locations@), *client),
{
    let mut s = String::new();
    push_head(&mut s, "[whitelist] has  ", records.len(), client);
    push_all(&mut s, "ip            packets_out   packets_in    bandwidth_out bandwidth_in  \n");
    let ghost head = s@;
    let ghost locs = texts_view(locations@);
    let mut i: usize = 0;
    while i < records.len()
        invariant
            i <= records.len(),
            records.len() == locations.len(),
            locs == texts_view(locations@),
            s@ == head + record_lines(records@.take(i as int), locs),
        decreases records.len() - i,
    {
        assert(records@.take(i + 1).drop_last() =~= records@.take(i as int));
        assert(locs[i as int] == locations@[i as int]@);
        push_record_line(&mut s, &records[i], &locations[i]);
        i = i + 1;
        assert(s@ =~= head + record_lines(records@.take(i as int), locs));
    }
    assert(records@.take(records.len() as int) =~= records@);
    s
}

} // verus!
