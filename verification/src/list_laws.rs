use vstd::prelude::*;
use crate::net::{Cidr, IpAddress};
use crate::text::ipv4_text;
use crate::filer_service::service::{
    TableOpView, FilterState, PROTECT_CHAIN, with_item, with_all, whitelist_rules, blacklist_rules, allow_port_rules,
    ban_port_rules, local_rules, all_whitelist_rules, all_blacklist_rules, all_allow_port_rules, all_ban_port_rules,
    init_ops, protection_rules, trigger_parts,
};
use crate::filer_service::traffic::{WhitelistRecord, all_records, ip_records, matching_lines, field_value};
use crate::text::{has_part, text_lines, words};
use crate::net::{address_text, first_of};
use crate::server::report::{record_lines, record_line, block_lines, count_lines, count_line};
use crate::net::cidr_text;
use crate::text::decimal;
use crate::filer_service::service::{chain_setup_ops, BLACKLIST_CHAIN, BANDWIDTH_IN_CHAIN, BANDWIDTH_OUT_CHAIN};
use crate::filer_service::table::{
    FilterTable, apply_ops, referenced, no_service_jumps, service_jump, jump_rule, lemma_setup, lemma_init_plain,
    lemma_apply_concat, lemma_added_rule_stays,
};

verus! {

/// What `a + b` holds: what `a` holds and what `b` holds.
proof fn lemma_contains_concat<T>(a: Seq<T>, b: Seq<T>, x: T)
    ensures
        a.contains(x) ==> (a + b).contains(x),
        b.contains(x) ==> (a + b).contains(x),
{
    if a.contains(x) {
        let i = choose|i: int| 0 <= i < a.len() && a[i] == x;
        assert((a + b)[i] == x);
    }
    if b.contains(x) {
        let i = choose|i: int| 0 <= i < b.len() && b[i] == x;
        assert((a + b)[a.len() + i] == x);
    }
}

/// The rules of the whitelisted blocks come block by block, in the order of the whitelist:
/// those of the first `k + 1` blocks are those of the first `k`, then those of block `k`.
pub proof fn law_whitelist_rules_block_by_block(ips: Seq<Cidr>)
    ensures
        all_whitelist_rules(Seq::empty()) == Seq::<TableOpView>::empty(),
        forall|k: int| 0 <= k < ips.len() ==> #[trigger] all_whitelist_rules(ips.take(k + 1))
            == all_whitelist_rules(ips.take(k)) + whitelist_rules(ips[k]),
{
    assert forall|k: int| 0 <= k < ips.len() implies #[trigger] all_whitelist_rules(ips.take(k + 1))
        == all_whitelist_rules(ips.take(k)) + whitelist_rules(ips[k]) by {
        assert(ips.take(k + 1).drop_last() =~= ips.take(k));
        assert(ips.take(k + 1).last() == ips[k]);
    }
}

/// The rules of the blacklisted blocks come block by block, in the order of the blacklist.
pub proof fn law_blacklist_rules_block_by_block(ips: Seq<Cidr>, deny: Seq<char>)
    ensures
        all_blacklist_rules(Seq::empty(), deny) == Seq::<TableOpView>::empty(),
        forall|k: int| 0 <= k < ips.len() ==> #[trigger] all_blacklist_rules(ips.take(k + 1), deny)
            == all_blacklist_rules(ips.take(k), deny) + blacklist_rules(ips[k], deny),
{
    assert forall|k: int| 0 <= k < ips.len() implies #[trigger] all_blacklist_rules(ips.take(k + 1), deny)
        == all_blacklist_rules(ips.take(k), deny) + blacklist_rules(ips[k], deny) by {
        assert(ips.take(k + 1).drop_last() =~= ips.take(k));
        assert(ips.take(k + 1).last() == ips[k]);
    }
}

/// The rules of the whitelisted ports come port by port, in order.
pub proof fn law_allow_rules_port_by_port(ports: Seq<u16>)
    ensures
        all_allow_port_rules(Seq::empty()) == Seq::<TableOpView>::empty(),
        forall|k: int| 0 <= k < ports.len() ==> #[trigger] all_allow_port_rules(ports.take(k + 1))
            == all_allow_port_rules(ports.take(k)) + allow_port_rules(ports[k]),
{
    assert forall|k: int| 0 <= k < ports.len() implies #[trigger] all_allow_port_rules(ports.take(k + 1))
        == all_allow_port_rules(ports.take(k)) + allow_port_rules(ports[k]) by {
        assert(ports.take(k + 1).drop_last() =~= ports.take(k));
        assert(ports.take(k + 1).last() == ports[k]);
    }
}

/// The rules of the protected ports come port by port, in order.
pub proof fn law_ban_rules_port_by_port(ports: Seq<u16>, n: Seq<char>, t: Seq<char>, valid: bool, deny: Seq<char>)
    ensures
        all_ban_port_rules(Seq::empty(), n, t, valid, deny) == Seq::<TableOpView>::empty(),
        forall|k: int| 0 <= k < ports.len() ==> #[trigger] all_ban_port_rules(ports.take(k + 1), n, t, valid, deny)
            == all_ban_port_rules(ports.take(k), n, t, valid, deny) + ban_port_rules(ports[k], n, t, valid, deny),
{
    assert forall|k: int| 0 <= k < ports.len() implies #[trigger] all_ban_port_rules(ports.take(k + 1), n, t, valid, deny)
        == all_ban_port_rules(ports.take(k), n, t, valid, deny) + ban_port_rules(ports[k], n, t, valid, deny) by {
        assert(ports.take(k + 1).drop_last() =~= ports.take(k));
        assert(ports.take(k + 1).last() == ports[k]);
    }
}

/// The rule of one of the host's own addresses: its acceptance for IPv4, nothing for IPv6.
pub open spec fn local_rule(a: IpAddress) -> Seq<TableOpView> {
    match a {
        IpAddress::V4(v) => seq![TableOpView::AppendUnique { chain: PROTECT_CHAIN@, rule: "-s "@ + ipv4_text(v) + " -j ACCEPT"@ }],
        IpAddress::V6(_) => Seq::empty(),
    }
}

/// The rules of the host's own addresses come address by address, in order.
pub proof fn law_local_rules_address_by_address(addrs: Seq<IpAddress>)
    ensures
        local_rules(Seq::empty()) == Seq::<TableOpView>::empty(),
        forall|k: int| 0 <= k < addrs.len() ==> #[trigger] local_rules(addrs.take(k + 1))
            == local_rules(addrs.take(k)) + local_rule(addrs[k]),
{
    assert forall|k: int| 0 <= k < addrs.len() implies #[trigger] local_rules(addrs.take(k + 1))
        == local_rules(addrs.take(k)) + local_rule(addrs[k]) by {
        assert(addrs.take(k + 1).drop_last() =~= addrs.take(k));
        assert(addrs.take(k + 1).last() == addrs[k]);
    }
}

/// Each rule of each whitelisted block is among the rules of the whitelist.
proof fn lemma_whitelist_rule_kept(ips: Seq<Cidr>, k: int, j: int)
    requires
        0 <= k < ips.len(),
        0 <= j < whitelist_rules(ips[k]).len(),
    ensures
        all_whitelist_rules(ips).contains(whitelist_rules(ips[k])[j]),
    decreases ips.len(),
{
    let x = whitelist_rules(ips[k])[j];
    let p = all_whitelist_rules(ips.drop_last());
    if k == ips.len() - 1 {
        assert(whitelist_rules(ips.last()).contains(x)) by { assert(whitelist_rules(ips.last())[j] == x); }
    } else {
        assert(ips.drop_last()[k] == ips[k]);
        lemma_whitelist_rule_kept(ips.drop_last(), k, j);
    }
    lemma_contains_concat(p, whitelist_rules(ips.last()), x);
}

/// Each rule of each blacklisted block is among the rules of the blacklist.
proof fn lemma_blacklist_rule_kept(ips: Seq<Cidr>, deny: Seq<char>, k: int, j: int)
    requires
        0 <= k < ips.len(),
        0 <= j < blacklist_rules(ips[k], deny).len(),
    ensures
        all_blacklist_rules(ips, deny).contains(blacklist_rules(ips[k], deny)[j]),
    decreases ips.len(),
{
    let x = blacklist_rules(ips[k], deny)[j];
    let p = all_blacklist_rules(ips.drop_last(), deny);
    if k == ips.len() - 1 {
        assert(blacklist_rules(ips.last(), deny).contains(x)) by { assert(blacklist_rules(ips.last(), deny)[j] == x); }
    } else {
        assert(ips.drop_last()[k] == ips[k]);
        lemma_blacklist_rule_kept(ips.drop_last(), deny, k, j);
    }
    lemma_contains_concat(p, blacklist_rules(ips.last(), deny), x);
}

/// Each rule of each whitelisted port is among the rules of the whitelisted ports.
proof fn lemma_allow_rule_kept(ports: Seq<u16>, k: int, j: int)
    requires
        0 <= k < ports.len(),
        0 <= j < allow_port_rules(ports[k]).len(),
    ensures
        all_allow_port_rules(ports).contains(allow_port_rules(ports[k])[j]),
    decreases ports.len(),
{
    let x = allow_port_rules(ports[k])[j];
    let p = all_allow_port_rules(ports.drop_last());
    if k == ports.len() - 1 {
        assert(allow_port_rules(ports.last()).contains(x)) by { assert(allow_port_rules(ports.last())[j] == x); }
    } else {
        assert(ports.drop_last()[k] == ports[k]);
        lemma_allow_rule_kept(ports.drop_last(), k, j);
    }
    lemma_contains_concat(p, allow_port_rules(ports.last()), x);
}

/// Each rule of each protected port is among the rules of the protected ports.
proof fn lemma_ban_rule_kept(ports: Seq<u16>, n: Seq<char>, t: Seq<char>, valid: bool, deny: Seq<char>, k: int, j: int)
    requires
        0 <= k < ports.len(),
        0 <= j < ban_port_rules(ports[k], n, t, valid, deny).len(),
    ensures
        all_ban_port_rules(ports, n, t, valid, deny).contains(ban_port_rules(ports[k], n, t, valid, deny)[j]),
    decreases ports.len(),
{
    let x = ban_port_rules(ports[k], n, t, valid, deny)[j];
    let p = all_ban_port_rules(ports.drop_last(), n, t, valid, deny);
    if k == ports.len() - 1 {
        assert(ban_port_rules(ports.last(), n, t, valid, deny).contains(x)) by {
            assert(ban_port_rules(ports.last(), n, t, valid, deny)[j] == x);
        }
    } else {
        assert(ports.drop_last()[k] == ports[k]);
        lemma_ban_rule_kept(ports.drop_last(), n, t, valid, deny, k, j);
    }
    lemma_contains_concat(p, ban_port_rules(ports.last(), n, t, valid, deny), x);
}

/// The acceptance of each of the host's own IPv4 addresses is among the rules of the addresses.
proof fn lemma_local_rule_kept(addrs: Seq<IpAddress>, k: int, j: int)
    requires
        0 <= k < addrs.len(),
        0 <= j < local_rule(addrs[k]).len(),
    ensures
        local_rules(addrs).contains(local_rule(addrs[k])[j]),
    decreases addrs.len(),
{
    let x = local_rule(addrs[k])[j];
    let p = local_rules(addrs.drop_last());
    assert(local_rules(addrs) == p + local_rule(addrs.last()));
    if k == addrs.len() - 1 {
        assert(local_rule(addrs.last()).contains(x)) by { assert(local_rule(addrs.last())[j] == x); }
    } else {
        assert(addrs.drop_last()[k] == addrs[k]);
        lemma_local_rule_kept(addrs.drop_last(), k, j);
    }
    lemma_contains_concat(p, local_rule(addrs.last()), x);
}

/// Setting the tables up for a state makes every rule of every listed block and port: the
/// rules of each whitelisted block, the rule of each blacklisted block (with the state's deny
/// action), the rules of each whitelisted port, the guard of each protected port (where there
/// are protected ports), and the acceptance of each of the host's own IPv4 addresses.
pub proof fn law_setup_covers_every_listed_item(st: FilterState, local: Seq<IpAddress>)
    ensures
        forall|k: int, j: int| 0 <= k < st.whitelisted_ips.len() && 0 <= j < whitelist_rules(st.whitelisted_ips[k]).len()
            ==> init_ops(st, local).contains(#[trigger] whitelist_rules(st.whitelisted_ips[k])[j]),
        forall|k: int, j: int| 0 <= k < st.blacklisted_ips.len()
            && 0 <= j < blacklist_rules(st.blacklisted_ips[k], st.deny_action).len()
            ==> init_ops(st, local).contains(#[trigger] blacklist_rules(st.blacklisted_ips[k], st.deny_action)[j]),
        forall|k: int, j: int| 0 <= k < st.whitelisted_ports.len() && 0 <= j < allow_port_rules(st.whitelisted_ports[k]).len()
            ==> init_ops(st, local).contains(#[trigger] allow_port_rules(st.whitelisted_ports[k])[j]),
        forall|k: int, j: int| 0 <= k < st.blacklisted_ports.len()
            && 0 <= j < ban_port_rules(st.blacklisted_ports[k], trigger_parts(st.rate_trigger).0,
                trigger_parts(st.rate_trigger).1, trigger_parts(st.rate_trigger).2, st.deny_action).len()
            ==> init_ops(st, local).contains(#[trigger] ban_port_rules(st.blacklisted_ports[k], trigger_parts(st.rate_trigger).0,
                trigger_parts(st.rate_trigger).1, trigger_parts(st.rate_trigger).2, st.deny_action)[j]),
        forall|k: int, j: int| 0 <= k < local.len() && 0 <= j < local_rule(local[k]).len()
            ==> init_ops(st, local).contains(#[trigger] local_rule(local[k])[j]),
{
    let trig = trigger_parts(st.rate_trigger);
    let s0 = crate::filer_service::service::chain_setup_ops();
    let l = local_rules(local);
    let ping = seq![TableOpView::AppendUnique { chain: PROTECT_CHAIN@, rule: "-p icmp -j ACCEPT"@ }];
    let w = all_whitelist_rules(st.whitelisted_ips);
    let b = all_blacklist_rules(st.blacklisted_ips, st.deny_action);
    let a = all_allow_port_rules(st.whitelisted_ports);
    let p = protection_rules(st);
    assert(init_ops(st, local) == s0 + l + ping + w + b + a + p);
    assert forall|x: TableOpView| l.contains(x) implies init_ops(st, local).contains(x) by {
        lemma_contains_concat(s0, l, x);
        lemma_contains_concat(s0 + l, ping, x);
        lemma_contains_concat(s0 + l + ping, w, x);
        lemma_contains_concat(s0 + l + ping + w, b, x);
        lemma_contains_concat(s0 + l + ping + w + b, a, x);
        lemma_contains_concat(s0 + l + ping + w + b + a, p, x);
    }
    assert forall|x: TableOpView| w.contains(x) implies init_ops(st, local).contains(x) by {
        lemma_contains_concat(s0 + l + ping, w, x);
        lemma_contains_concat(s0 + l + ping + w, b, x);
        lemma_contains_concat(s0 + l + ping + w + b, a, x);
        lemma_contains_concat(s0 + l + ping + w + b + a, p, x);
    }
    assert forall|x: TableOpView| b.contains(x) implies init_ops(st, local).contains(x) by {
        lemma_contains_concat(s0 + l + ping + w, b, x);
        lemma_contains_concat(s0 + l + ping + w + b, a, x);
        lemma_contains_concat(s0 + l + ping + w + b + a, p, x);
    }
    assert forall|x: TableOpView| a.contains(x) implies init_ops(st, local).contains(x) by {
        lemma_contains_concat(s0 + l + ping + w + b, a, x);
        lemma_contains_concat(s0 + l + ping + w + b + a, p, x);
    }
    assert forall|x: TableOpView| p.contains(x) implies init_ops(st, local).contains(x) by {
        lemma_contains_concat(s0 + l + ping + w + b + a, p, x);
    }
    assert forall|k: int, j: int| 0 <= k < st.whitelisted_ips.len() && 0 <= j < whitelist_rules(st.whitelisted_ips[k]).len()
        implies init_ops(st, local).contains(#[trigger] whitelist_rules(st.whitelisted_ips[k])[j]) by {
        lemma_whitelist_rule_kept(st.whitelisted_ips, k, j);
    }
    assert forall|k: int, j: int| 0 <= k < st.blacklisted_ips.len()
        && 0 <= j < blacklist_rules(st.blacklisted_ips[k], st.deny_action).len()
        implies init_ops(st, local).contains(#[trigger] blacklist_rules(st.blacklisted_ips[k], st.deny_action)[j]) by {
        lemma_blacklist_rule_kept(st.blacklisted_ips, st.deny_action, k, j);
    }
    assert forall|k: int, j: int| 0 <= k < st.whitelisted_ports.len() && 0 <= j < allow_port_rules(st.whitelisted_ports[k]).len()
        implies init_ops(st, local).contains(#[trigger] allow_port_rules(st.whitelisted_ports[k])[j]) by {
        lemma_allow_rule_kept(st.whitelisted_ports, k, j);
    }
    assert forall|k: int, j: int| 0 <= k < st.blacklisted_ports.len()
        && 0 <= j < ban_port_rules(st.blacklisted_ports[k], trig.0, trig.1, trig.2, st.deny_action).len()
        implies init_ops(st, local).contains(#[trigger] ban_port_rules(st.blacklisted_ports[k], trig.0, trig.1, trig.2, st.deny_action)[j]) by {
        lemma_ban_rule_kept(st.blacklisted_ports, trig.0, trig.1, trig.2, st.deny_action, k, j);
    }
    assert forall|k: int, j: int| 0 <= k < local.len() && 0 <= j < local_rule(local[k]).len()
        implies init_ops(st, local).contains(#[trigger] local_rule(local[k])[j]) by {
        lemma_local_rule_kept(local, k, j);
    }
}

/// The traffic records come block by block, in the order of the whitelist: those of the first
/// `k + 1` blocks are those of the first `k`, then those of block `k`.
pub proof fn law_records_block_by_block(ips: Seq<Cidr>, in4: Seq<char>, out4: Seq<char>, in6: Seq<char>, out6: Seq<char>)
    ensures
        all_records(Seq::empty(), in4, out4, in6, out6) == Seq::<WhitelistRecord>::empty(),
        forall|k: int| 0 <= k < ips.len() ==> #[trigger] all_records(ips.take(k + 1), in4, out4, in6, out6)
            == all_records(ips.take(k), in4, out4, in6, out6) + ip_records(ips[k], in4, out4, in6, out6),
{
    assert forall|k: int| 0 <= k < ips.len() implies #[trigger] all_records(ips.take(k + 1), in4, out4, in6, out6)
        == all_records(ips.take(k), in4, out4, in6, out6) + ip_records(ips[k], in4, out4, in6, out6) by {
        assert(ips.take(k + 1).drop_last() =~= ips.take(k));
        assert(ips.take(k + 1).last() == ips[k]);
    }
}

/// No whitelisted block's traffic is left out: every record of every block of the whitelist
/// is among the records.
pub proof fn law_records_cover_every_block(ips: Seq<Cidr>, in4: Seq<char>, out4: Seq<char>, in6: Seq<char>, out6: Seq<char>)
    ensures
        forall|k: int, j: int| 0 <= k < ips.len() && 0 <= j < ip_records(ips[k], in4, out4, in6, out6).len()
            ==> all_records(ips, in4, out4, in6, out6).contains(#[trigger] ip_records(ips[k], in4, out4, in6, out6)[j]),
    decreases ips.len(),
{
    if ips.len() > 0 {
        let t = ips.drop_last();
        law_records_cover_every_block(t, in4, out4, in6, out6);
        assert forall|k: int, j: int| 0 <= k < ips.len() && 0 <= j < ip_records(ips[k], in4, out4, in6, out6).len()
            implies all_records(ips, in4, out4, in6, out6).contains(#[trigger] ip_records(ips[k], in4, out4, in6, out6)[j]) by {
            let x = ip_records(ips[k], in4, out4, in6, out6)[j];
            let last = ip_records(ips.last(), in4, out4, in6, out6);
            if k == ips.len() - 1 {
                assert(last[j] == x);
            } else {
                assert(t[k] == ips[k]);
            }
            lemma_contains_concat(all_records(t, in4, out4, in6, out6), last, x);
        }
    }
}

/// The lines of the whitelist listing come record by record, each record written with the
/// location at its own place: those of the first `k + 1` records are those of the first `k`,
/// then the line of record `k` with location `k`.
pub proof fn law_record_lines_one_by_one(rs: Seq<WhitelistRecord>, locations: Seq<Seq<char>>)
    ensures
        record_lines(Seq::empty(), locations) == Seq::<char>::empty(),
        forall|k: int| 0 <= k < rs.len() ==> #[trigger] record_lines(rs.take(k + 1), locations)
            == record_lines(rs.take(k), locations) + record_line(rs[k], locations[k]),
{
    assert forall|k: int| 0 <= k < rs.len() implies #[trigger] record_lines(rs.take(k + 1), locations)
        == record_lines(rs.take(k), locations) + record_line(rs[k], locations[k]) by {
        assert(rs.take(k + 1).drop_last() =~= rs.take(k));
        assert(rs.take(k + 1).last() == rs[k]);
        assert(rs.take(k + 1).len() - 1 == k);
    }
}

/// The lines of the blacklist listing come block by block, in order.
pub proof fn law_block_lines_one_by_one(ips: Seq<Cidr>)
    ensures
        block_lines(Seq::empty()) == Seq::<char>::empty(),
        forall|k: int| 0 <= k < ips.len() ==> #[trigger] block_lines(ips.take(k + 1))
            == block_lines(ips.take(k)) + cidr_text(ips[k]) + "\n"@,
{
    assert forall|k: int| 0 <= k < ips.len() implies #[trigger] block_lines(ips.take(k + 1))
        == block_lines(ips.take(k)) + cidr_text(ips[k]) + "\n"@ by {
        assert(ips.take(k + 1).drop_last() =~= ips.take(k));
        assert(ips.take(k + 1).last() == ips[k]);
    }
}

/// The lines of the packet counts come count by count, in order.
pub proof fn law_count_lines_one_by_one(counts: Seq<(Cidr, u32)>, whitelist: Seq<Cidr>)
    ensures
        count_lines(Seq::empty(), whitelist) == Seq::<char>::empty(),
        forall|k: int| 0 <= k < counts.len() ==> #[trigger] count_lines(counts.take(k + 1), whitelist)
            == count_lines(counts.take(k), whitelist) + count_line(counts[k], whitelist),
{
    assert forall|k: int| 0 <= k < counts.len() implies #[trigger] count_lines(counts.take(k + 1), whitelist)
        == count_lines(counts.take(k), whitelist) + count_line(counts[k], whitelist) by {
        assert(counts.take(k + 1).drop_last() =~= counts.take(k));
        assert(counts.take(k + 1).last() == counts[k]);
    }
}

/// Adding items in turn adds them one by one, in order.
pub proof fn law_with_all_one_by_one<T>(s: Seq<T>, xs: Seq<T>)
    ensures
        with_all(s, Seq::empty()) == s,
        forall|k: int| 0 <= k < xs.len() ==> #[trigger] with_all(s, xs.take(k + 1)) == with_item(with_all(s, xs.take(k)), xs[k]),
{
    assert forall|k: int| 0 <= k < xs.len() implies #[trigger] with_all(s, xs.take(k + 1)) == with_item(with_all(s, xs.take(k)), xs[k]) by {
        assert(xs.take(k + 1).drop_last() =~= xs.take(k));
        assert(xs.take(k + 1).last() == xs[k]);
    }
}

/// What the set-up does after making the chains: the rules of the host's addresses, ICMP, the
/// listed blocks and ports, and the protection.
pub open spec fn setup_rules(st: FilterState, local: Seq<IpAddress>) -> Seq<TableOpView> {
    local_rules(local)
        + seq![TableOpView::AppendUnique { chain: PROTECT_CHAIN@, rule: "-p icmp -j ACCEPT"@ }]
        + all_whitelist_rules(st.whitelisted_ips) + all_blacklist_rules(st.blacklisted_ips, st.deny_action)
        + all_allow_port_rules(st.whitelisted_ports) + protection_rules(st)
}

/// Whether `t` is a `filter` table the service can be set up in: it has `INPUT` and `OUTPUT`,
/// and none of the service's chains nor a jump to one of them.
pub open spec fn fresh_table(t: FilterTable) -> bool {
    &&& t.contains_key("INPUT"@)
    &&& t.contains_key("OUTPUT"@)
    &&& !t.contains_key(PROTECT_CHAIN@)
    &&& !t.contains_key(BLACKLIST_CHAIN@)
    &&& !t.contains_key(BANDWIDTH_IN_CHAIN@)
    &&& !t.contains_key(BANDWIDTH_OUT_CHAIN@)
    &&& !referenced(t, PROTECT_CHAIN@)
    &&& !referenced(t, BLACKLIST_CHAIN@)
    &&& !referenced(t, BANDWIDTH_IN_CHAIN@)
    &&& !referenced(t, BANDWIDTH_OUT_CHAIN@)
}

/// A rule that the set-up puts into one of the service's chains is there once the set-up is done.
proof fn lemma_setup_rule_present(t: FilterTable, st: FilterState, local: Seq<IpAddress>, op: TableOpView,
    c: Seq<char>, r: Seq<char>)
    requires
        st.wf(),
        fresh_table(t),
        setup_rules(st, local).contains(op),
        op == (TableOpView::AppendUnique { chain: c, rule: r })
            || op == (TableOpView::InsertUnique { chain: c, rule: r, position: 1 }),
    ensures
        apply_ops(t, init_ops(st, local)).contains_key(c),
        apply_ops(t, init_ops(st, local))[c].contains(r),
{
    let rest = setup_rules(st, local);
    assert(init_ops(st, local) =~= chain_setup_ops() + rest);
    lemma_apply_concat(t, chain_setup_ops(), rest);
    assert forall|k: Seq<char>, x: Seq<char>| t.contains_key(k) && #[trigger] t[k].contains(x) implies !service_jump(x) by {
        if x == jump_rule(PROTECT_CHAIN@) {
            assert(referenced(t, PROTECT_CHAIN@));
        }
        if x == jump_rule(BLACKLIST_CHAIN@) {
            assert(referenced(t, BLACKLIST_CHAIN@));
        }
        if x == jump_rule(BANDWIDTH_IN_CHAIN@) {
            assert(referenced(t, BANDWIDTH_IN_CHAIN@));
        }
        if x == jump_rule(BANDWIDTH_OUT_CHAIN@) {
            assert(referenced(t, BANDWIDTH_OUT_CHAIN@));
        }
    }
    assert(no_service_jumps(t));
    lemma_setup(t);
    lemma_init_plain(st, local);
    let i = choose|i: int| 0 <= i < rest.len() && rest[i] == op;
    lemma_added_rule_stays(apply_ops(t, chain_setup_ops()), t, rest, i, c, r);
}

/// Once the tables are set up for a state, in a table that had none of the service's chains,
/// every whitelisted IPv4 block is let in by `PROTECT_LIST` and counted in `BANDWIDTH_IN` and
/// `BANDWIDTH_OUT`, every blacklisted IPv4 block is refused in `BLACK_LIST` with the state's
/// deny action, and TCP traffic to every whitelisted port is let in.
pub proof fn law_setup_lets_in_every_listed_item(t: FilterTable, st: FilterState, local: Seq<IpAddress>, x: Cidr, p: u16)
    requires
        st.wf(),
        fresh_table(t),
    ensures
        ({
            let u = apply_ops(t, init_ops(st, local));
            &&& st.whitelisted_ips.contains(x) && x is V4 ==> {
                &&& u[PROTECT_CHAIN@].contains(" -s "@ + cidr_text(x) + " -j ACCEPT"@)
                &&& u[BANDWIDTH_IN_CHAIN@].contains(" -s "@ + cidr_text(x) + " -j RETURN"@)
                &&& u[BANDWIDTH_OUT_CHAIN@].contains(" -d "@ + cidr_text(x) + " -j RETURN"@)
            }
            &&& st.blacklisted_ips.contains(x) && x is V4
                ==> u[BLACKLIST_CHAIN@].contains(" -s "@ + cidr_text(x) + " -j "@ + st.deny_action)
            &&& st.whitelisted_ports.contains(p)
                ==> u[PROTECT_CHAIN@].contains("-p tcp --dport "@ + decimal(p as nat) + " -j ACCEPT"@)
        }),
{
    let l = local_rules(local);
    let ping = seq![TableOpView::AppendUnique { chain: PROTECT_CHAIN@, rule: "-p icmp -j ACCEPT"@ }];
    let w = all_whitelist_rules(st.whitelisted_ips);
    let b = all_blacklist_rules(st.blacklisted_ips, st.deny_action);
    let a = all_allow_port_rules(st.whitelisted_ports);
    let pr = protection_rules(st);
    let rest = setup_rules(st, local);
    assert(rest == l + ping + w + b + a + pr);
    if st.whitelisted_ips.contains(x) && x is V4 {
        let k = choose|k: int| 0 <= k < st.whitelisted_ips.len() && st.whitelisted_ips[k] == x;
        let ops = whitelist_rules(x);
        assert forall|j: int| 0 <= j < 3 implies rest.contains(#[trigger] ops[j]) by {
            lemma_whitelist_rule_kept(st.whitelisted_ips, k, j);
            lemma_contains_concat(l + ping, w, ops[j]);
            lemma_contains_concat(l + ping + w, b, ops[j]);
            lemma_contains_concat(l + ping + w + b, a, ops[j]);
            lemma_contains_concat(l + ping + w + b + a, pr, ops[j]);
        }
        lemma_setup_rule_present(t, st, local, ops[0], BANDWIDTH_IN_CHAIN@, " -s "@ + cidr_text(x) + " -j RETURN"@);
        lemma_setup_rule_present(t, st, local, ops[1], BANDWIDTH_OUT_CHAIN@, " -d "@ + cidr_text(x) + " -j RETURN"@);
        lemma_setup_rule_present(t, st, local, ops[2], PROTECT_CHAIN@, " -s "@ + cidr_text(x) + " -j ACCEPT"@);
    }
    if st.blacklisted_ips.contains(x) && x is V4 {
        let k = choose|k: int| 0 <= k < st.blacklisted_ips.len() && st.blacklisted_ips[k] == x;
        let op = blacklist_rules(x, st.deny_action)[0];
        lemma_blacklist_rule_kept(st.blacklisted_ips, st.deny_action, k, 0);
        lemma_contains_concat(l + ping + w, b, op);
        lemma_contains_concat(l + ping + w + b, a, op);
        lemma_contains_concat(l + ping + w + b + a, pr, op);
        lemma_setup_rule_present(t, st, local, op, BLACKLIST_CHAIN@, " -s "@ + cidr_text(x) + " -j "@ + st.deny_action);
    }
    if st.whitelisted_ports.contains(p) {
        let k = choose|k: int| 0 <= k < st.whitelisted_ports.len() && st.whitelisted_ports[k] == p;
        let op = allow_port_rules(p)[0];
        lemma_allow_rule_kept(st.whitelisted_ports, k, 0);
        lemma_contains_concat(l + ping + w + b, a, op);
        lemma_contains_concat(l + ping + w + b + a, pr, op);
        lemma_setup_rule_present(t, st, local, op, PROTECT_CHAIN@, "-p tcp --dport "@ + decimal(p as nat) + " -j ACCEPT"@);
    }
}

/// The matching lines of a listing are exactly its lines that name what is looked for: each
/// of them is a line of the listing that names it, and each line that names it is among them.
pub proof fn law_matching_lines(ls: Seq<Seq<char>>, t: Seq<char>)
    ensures
        forall|k: int| 0 <= k < matching_lines(ls, t).len() ==> ls.contains(#[trigger] matching_lines(ls, t)[k])
            && has_part(matching_lines(ls, t)[k], t),
        forall|k: int| 0 <= k < ls.len() && has_part(#[trigger] ls[k], t) ==> matching_lines(ls, t).contains(ls[k]),
    decreases ls.len(),
{
    if ls.len() > 0 {
        let d = ls.drop_last();
        law_matching_lines(d, t);
        let m = matching_lines(ls, t);
        let md = matching_lines(d, t);
        assert forall|k: int| 0 <= k < m.len() implies ls.contains(#[trigger] m[k]) && has_part(m[k], t) by {
            if k < md.len() {
                assert(m[k] == md[k]);
                let i = choose|i: int| 0 <= i < d.len() && d[i] == md[k];
                assert(ls[i] == d[i]);
            } else {
                assert(m[k] == ls.last());
                assert(ls[ls.len() - 1] == ls.last());
            }
        }
        assert forall|k: int| 0 <= k < ls.len() && has_part(#[trigger] ls[k], t) implies m.contains(ls[k]) by {
            if k < ls.len() - 1 {
                assert(d[k] == ls[k]);
                assert(md.contains(ls[k]));
                let i = choose|i: int| 0 <= i < md.len() && md[i] == ls[k];
                assert(m[i] == md[i]);
            } else {
                assert(ls[k] == ls.last());
                assert(m[m.len() - 1] == ls.last());
            }
        }
    }
}

/// Whether a line of `listing` that names `a` has `packets` and `bytes` as its first two
/// fields.
pub open spec fn counted_in(packets: u16, bytes: u16, listing: Seq<char>, a: Seq<char>) -> bool {
    exists|l: Seq<char>| #[trigger] text_lines(listing).contains(l) && has_part(l, a)
        && packets == field_value(words(l)[0]) && bytes == field_value(words(l)[1])
}

/// Each traffic record of a block is read from a line of the incoming listing and one of the
/// outgoing listing (those of IPv4 for an IPv4 block, of IPv6 else) that both name the block's
/// first address: the packets and bytes in are the first two fields of the incoming line, the
/// packets and bytes out those of the outgoing line.
pub proof fn law_record_read_from_listings(x: Cidr, in4: Seq<char>, out4: Seq<char>, in6: Seq<char>, out6: Seq<char>, j: int)
    requires
        0 <= j < ip_records(x, in4, out4, in6, out6).len(),
    ensures
        ip_records(x, in4, out4, in6, out6)[j].ip == x,
        counted_in(ip_records(x, in4, out4, in6, out6)[j].packets_in, ip_records(x, in4, out4, in6, out6)[j].bandwidth_in,
            if x is V4 { in4 } else { in6 }, address_text(first_of(x))),
        counted_in(ip_records(x, in4, out4, in6, out6)[j].packets_out, ip_records(x, in4, out4, in6, out6)[j].bandwidth_out,
            if x is V4 { out4 } else { out6 }, address_text(first_of(x))),
{
    let a = address_text(first_of(x));
    let li = if x is V4 { in4 } else { in6 };
    let lo = if x is V4 { out4 } else { out6 };
    law_matching_lines(text_lines(li), a);
    law_matching_lines(text_lines(lo), a);
    let mi = matching_lines(text_lines(li), a);
    let mo = matching_lines(text_lines(lo), a);
    let r = ip_records(x, in4, out4, in6, out6)[j];
    assert(text_lines(li).contains(mi[j]) && has_part(mi[j], a));
    assert(text_lines(lo).contains(mo[j]) && has_part(mo[j], a));
    assert(r.packets_in == field_value(words(mi[j])[0]) && r.bandwidth_in == field_value(words(mi[j])[1]));
    assert(r.packets_out == field_value(words(mo[j])[0]) && r.bandwidth_out == field_value(words(mo[j])[1]));
}

} // verus!
