use vstd::prelude::*;
use crate::config::Config;
use crate::net::{Cidr, IpAddress, cidr_parse, cidr_text};
use crate::filer_service::service::{
    FilterState, TableOpView, with_item, without, with_all, whitelist_rules, whitelist_removals, blacklist_rules,
    blacklist_removals, loaded_state, lemma_without, lemma_with_item, lemma_contains_last, without_key,
};
use crate::filer_service::service::{PROTECT_CHAIN, BLACKLIST_CHAIN, BANDWIDTH_IN_CHAIN, BANDWIDTH_OUT_CHAIN};
use crate::filer_service::table::{
    FilterTable, apply_op, apply_ops, op_chain, agree_on, lemma_op_local, lemma_apply_one, lemma_apply_three,
    lemma_apply_none, lemma_insert_holds, lemma_insert_then_delete, lemma_append_then_delete, lemma_chain_names,
    lemma_agree_everywhere, lemma_apply_concat, lemma_setup, lemma_teardown, lemma_init_plain, lemma_plain_all,
    referenced, no_service_jumps, service_jump, jump_rule,
};
use crate::filer_service::service::{init_ops, clear_ops, chain_setup_ops, local_rules, all_whitelist_rules,
    all_blacklist_rules, all_allow_port_rules, protection_rules};
use crate::server::key_accepted;
use crate::server::handlers::client_text;
use crate::server::handlers::{api_effect, unauthorized, ApiOutcomeView, ApiStatus};
use crate::filer_service::service::{initial_state, parsed_all};
use crate::filer_service::traffic::{all_records, ip_records, field_value};
use crate::text::{decimal, digits_value, all_digits, unsigned_value, digit_char, digit_value, is_digit};

verus! {

/// No empty key opens any API.
pub proof fn law_empty_key_refused(key: Seq<char>, privilege: bool, admin: Seq<char>, query: Seq<char>)
    requires
        key.len() == 0,
    ensures
        !key_accepted(key, privilege, admin, query),
{
}

/// A key that opens the privileged APIs opens the others too.
pub proof fn law_admin_key_opens_all(key: Seq<char>, admin: Seq<char>, query: Seq<char>)
    requires
        key_accepted(key, true, admin, query),
    ensures
        key_accepted(key, false, admin, query),
{
}

/// The query key does not open the privileged APIs, unless it is also the admin key.
pub proof fn law_query_key_not_privileged(admin: Seq<char>, query: Seq<char>)
    requires
        query != admin,
    ensures
        !key_accepted(query, true, admin, query),
{
}

/// Whitelisting a block puts it in the whitelist and keeps everything else there.
pub proof fn law_whitelisting_adds(s: Seq<Cidr>, ip: Cidr)
    ensures
        with_item(s, ip).contains(ip),
        forall|y: Cidr| s.contains(y) ==> with_item(s, ip).contains(y),
        with_item(with_item(s, ip), ip) == with_item(s, ip),
{
    lemma_with_item(s, ip);
    lemma_with_item(with_item(s, ip), ip);
}

/// Removing a block that was just added gives the list back as it was before.
pub proof fn law_add_then_remove(s: Seq<Cidr>, ip: Cidr)
    requires
        !s.contains(ip),
    ensures
        without(with_item(s, ip), ip) == s,
        !without(s, ip).contains(ip),
{
    lemma_without(s, ip);
    assert(with_item(s, ip) == s.push(ip));
    assert(s.push(ip).drop_last() =~= s);
}

/// Removing a key that no entry has leaves the entries as they are.
proof fn lemma_without_absent_key(s: Seq<(Cidr, u32)>, k: Cidr)
    requires
        forall|e: (Cidr, u32)| s.contains(e) ==> e.0 != k,
    ensures
        without_key(s, k) == s,
    decreases s.len(),
{
    if s.len() > 0 {
        assert forall|e: (Cidr, u32)| s.drop_last().contains(e) implies e.0 != k by {
            lemma_contains_last(s, e);
        }
        lemma_without_absent_key(s.drop_last(), k);
        assert(s[s.len() - 1] == s.last());
        assert(s.contains(s.last()));
        assert(s.drop_last().push(s.last()) =~= s);
    }
}

/// The deletions of a whitelisted IPv4 block take out exactly the rules its whitelisting put in.
pub proof fn law_whitelist_removal_undoes(ip: Cidr)
    requires
        ip is V4,
    ensures
        whitelist_rules(ip).len() == whitelist_removals(ip).len(),
        forall|k: int| 0 <= k < whitelist_rules(ip).len() ==> (match (#[trigger] whitelist_rules(ip)[k], whitelist_removals(ip)[k]) {
            (TableOpView::InsertUnique { chain: c1, rule: r1, .. }, TableOpView::Delete { chain: c2, rule: r2 }) => c1 == c2 && r1 == r2,
            _ => false,
        }),
{
}

/// The deletion of a blacklisted IPv4 block takes out exactly the rule its blacklisting put
/// in, while the deny action stays the same.
pub proof fn law_blacklist_removal_undoes(ip: Cidr, deny: Seq<char>)
    requires
        ip is V4,
    ensures
        blacklist_rules(ip, deny).len() == 1,
        blacklist_removals(ip, deny).len() == 1,
        (match (blacklist_rules(ip, deny)[0], blacklist_removals(ip, deny)[0]) {
            (TableOpView::AppendUnique { chain: c1, rule: r1 }, TableOpView::Delete { chain: c2, rule: r2 }) => c1 == c2 && r1 == r2,
            _ => false,
        }),
{
}

/// Whitelisting a block a second time leaves the service and the `filter` table as the first
/// time left them: the block is listed once, and each rule goes into its chain only where the
/// chain lacks it.
pub proof fn law_whitelist_twice(st: FilterState, t: FilterTable, ip: Cidr)
    ensures
        ({
            let once = FilterState { whitelisted_ips: with_item(st.whitelisted_ips, ip), ..st };
            FilterState { whitelisted_ips: with_item(once.whitelisted_ips, ip), ..once } == once
        }),
        apply_ops(apply_ops(t, whitelist_rules(ip)), whitelist_rules(ip)) == apply_ops(t, whitelist_rules(ip)),
{
    lemma_with_item(st.whitelisted_ips, ip);
    let ops = whitelist_rules(ip);
    if ip is V4 {
        lemma_chain_names();
        let t1 = apply_op(t, ops[0]);
        let t2 = apply_op(t1, ops[1]);
        let t3 = apply_op(t2, ops[2]);
        lemma_apply_three(t, ops);
        lemma_apply_three(t3, ops);
        lemma_insert_holds(t, BANDWIDTH_IN_CHAIN@, " -s "@ + cidr_text(ip) + " -j RETURN"@);
        lemma_insert_holds(t1, BANDWIDTH_OUT_CHAIN@, " -d "@ + cidr_text(ip) + " -j RETURN"@);
        lemma_insert_holds(t2, PROTECT_CHAIN@, " -s "@ + cidr_text(ip) + " -j ACCEPT"@);
        lemma_op_local(t1, ops[1], BANDWIDTH_IN_CHAIN@);
        lemma_op_local(t2, ops[2], BANDWIDTH_IN_CHAIN@);
        lemma_op_local(t2, ops[2], BANDWIDTH_OUT_CHAIN@);
    } else {
        lemma_apply_none(apply_ops(t, ops), ops);
    }
}

/// Whitelisting an IPv4 block that is neither listed nor counted, and whose rules the `filter`
/// table lacks, then taking it off the whitelist, leaves the service and the table as they
/// were: each rule is deleted from the chain it went into.
pub proof fn law_whitelist_add_then_delete(st: FilterState, t: FilterTable, ip: Cidr)
    requires
        !st.whitelisted_ips.contains(ip),
        forall|e: (Cidr, u32)| st.packets_per_ip.contains(e) ==> e.0 != ip,
        ip is V4,
        t.contains_key(BANDWIDTH_IN_CHAIN@) ==> !t[BANDWIDTH_IN_CHAIN@].contains(" -s "@ + cidr_text(ip) + " -j RETURN"@),
        t.contains_key(BANDWIDTH_OUT_CHAIN@) ==> !t[BANDWIDTH_OUT_CHAIN@].contains(" -d "@ + cidr_text(ip) + " -j RETURN"@),
        t.contains_key(PROTECT_CHAIN@) ==> !t[PROTECT_CHAIN@].contains(" -s "@ + cidr_text(ip) + " -j ACCEPT"@),
    ensures
        ({
            let added = FilterState { whitelisted_ips: with_item(st.whitelisted_ips, ip), ..st };
            FilterState {
                whitelisted_ips: without(added.whitelisted_ips, ip),
                packets_per_ip: without_key(added.packets_per_ip, ip),
                ..added
            } == st
        }),
        apply_ops(apply_ops(t, whitelist_rules(ip)), whitelist_removals(ip)) == t,
{
    law_add_then_remove(st.whitelisted_ips, ip);
    lemma_without_absent_key(st.packets_per_ip, ip);
    let ins = whitelist_rules(ip);
    let del = whitelist_removals(ip);
    lemma_chain_names();
    let t1 = apply_op(t, ins[0]);
    let t2 = apply_op(t1, ins[1]);
    let t3 = apply_op(t2, ins[2]);
    let u1 = apply_op(t3, del[0]);
    let u2 = apply_op(u1, del[1]);
    let u3 = apply_op(u2, del[2]);
    lemma_apply_three(t, ins);
    lemma_apply_three(t3, del);
    assert forall|k: Seq<char>| agree_on(u3, t, k) by {
        if k != op_chain(ins[0]) {
            lemma_op_local(t, ins[0], k);
            lemma_op_local(t3, del[0], k);
        }
        if k != op_chain(ins[1]) {
            lemma_op_local(t1, ins[1], k);
            lemma_op_local(u1, del[1], k);
        }
        if k != op_chain(ins[2]) {
            lemma_op_local(t2, ins[2], k);
            lemma_op_local(u2, del[2], k);
        }
        if k == BANDWIDTH_IN_CHAIN@ {
            lemma_insert_then_delete(t, t3, k, " -s "@ + cidr_text(ip) + " -j RETURN"@);
        }
        if k == BANDWIDTH_OUT_CHAIN@ {
            lemma_insert_then_delete(t1, u1, k, " -d "@ + cidr_text(ip) + " -j RETURN"@);
        }
        if k == PROTECT_CHAIN@ {
            lemma_insert_then_delete(t2, u2, k, " -s "@ + cidr_text(ip) + " -j ACCEPT"@);
        }
    }
    lemma_agree_everywhere(u3, t);
}

/// Blacklisting an IPv4 block that is neither listed nor counted, and whose rule the `filter`
/// table lacks, then taking it off the blacklist, leaves the service and the table as they
/// were.
pub proof fn law_blacklist_add_then_delete(st: FilterState, t: FilterTable, ip: Cidr)
    requires
        !st.blacklisted_ips.contains(ip),
        forall|e: (Cidr, u32)| st.packets_per_ip.contains(e) ==> e.0 != ip,
        ip is V4,
        t.contains_key(BLACKLIST_CHAIN@) ==> !t[BLACKLIST_CHAIN@].contains(" -s "@ + cidr_text(ip) + " -j "@ + st.deny_action),
    ensures
        ({
            let added = FilterState { blacklisted_ips: with_item(st.blacklisted_ips, ip), ..st };
            FilterState {
                blacklisted_ips: without(added.blacklisted_ips, ip),
                packets_per_ip: without_key(added.packets_per_ip, ip),
                ..added
            } == st
        }),
        apply_ops(apply_ops(t, blacklist_rules(ip, st.deny_action)), blacklist_removals(ip, st.deny_action)) == t,
{
    law_add_then_remove(st.blacklisted_ips, ip);
    lemma_without_absent_key(st.packets_per_ip, ip);
    let deny = st.deny_action;
    let a = blacklist_rules(ip, deny)[0];
    let d = blacklist_removals(ip, deny)[0];
    assert(blacklist_rules(ip, deny) == seq![a]);
    assert(blacklist_removals(ip, deny) == seq![d]);
    let t1 = apply_op(t, a);
    let u1 = apply_op(t1, d);
    lemma_apply_one(t, a);
    lemma_apply_one(t1, d);
    assert forall|k: Seq<char>| agree_on(u1, t, k) by {
        if k != BLACKLIST_CHAIN@ {
            lemma_op_local(t, a, k);
            lemma_op_local(t1, d, k);
        } else {
            lemma_append_then_delete(t, t1, k, " -s "@ + cidr_text(ip) + " -j "@ + deny);
        }
    }
    lemma_agree_everywhere(u1, t);
}

/// Setting the tables up for the service and then clearing them leaves the `filter` table as
/// it was, where the table had `INPUT` and `OUTPUT` and none of the service's chains, and so
/// no rule that jumps to one of them: every chain made is removed and every rule put in is
/// taken out.
pub proof fn law_setup_then_clear(t: FilterTable, st: FilterState, local: Seq<IpAddress>)
    requires
        st.wf(),
        t.contains_key("INPUT"@),
        t.contains_key("OUTPUT"@),
        !t.contains_key(PROTECT_CHAIN@),
        !t.contains_key(BLACKLIST_CHAIN@),
        !t.contains_key(BANDWIDTH_IN_CHAIN@),
        !t.contains_key(BANDWIDTH_OUT_CHAIN@),
        !referenced(t, PROTECT_CHAIN@),
        !referenced(t, BLACKLIST_CHAIN@),
        !referenced(t, BANDWIDTH_IN_CHAIN@),
        !referenced(t, BANDWIDTH_OUT_CHAIN@),
    ensures
        apply_ops(apply_ops(t, init_ops(st, local)), clear_ops()) == t,
{
    let rest = local_rules(local)
        + seq![TableOpView::AppendUnique { chain: PROTECT_CHAIN@, rule: "-p icmp -j ACCEPT"@ }]
        + all_whitelist_rules(st.whitelisted_ips) + all_blacklist_rules(st.blacklisted_ips, st.deny_action)
        + all_allow_port_rules(st.whitelisted_ports) + protection_rules(st);
    assert(init_ops(st, local) =~= chain_setup_ops() + rest);
    lemma_apply_concat(t, chain_setup_ops(), rest);
    assert forall|k: Seq<char>, r: Seq<char>| t.contains_key(k) && #[trigger] t[k].contains(r) implies !service_jump(r) by {
        if r == jump_rule(PROTECT_CHAIN@) {
            assert(referenced(t, PROTECT_CHAIN@));
        }
        if r == jump_rule(BLACKLIST_CHAIN@) {
            assert(referenced(t, BLACKLIST_CHAIN@));
        }
        if r == jump_rule(BANDWIDTH_IN_CHAIN@) {
            assert(referenced(t, BANDWIDTH_IN_CHAIN@));
        }
        if r == jump_rule(BANDWIDTH_OUT_CHAIN@) {
            assert(referenced(t, BANDWIDTH_OUT_CHAIN@));
        }
    }
    assert(no_service_jumps(t));
    lemma_setup(t);
    lemma_init_plain(st, local);
    lemma_plain_all(apply_ops(t, chain_setup_ops()), t, rest);
    lemma_teardown(apply_ops(apply_ops(t, chain_setup_ops()), rest), t);
}

/// What a list holds after adding each item of `xs`: what it held, and the items of `xs`.
pub proof fn law_with_all_contains<T>(s: Seq<T>, xs: Seq<T>, y: T)
    ensures
        with_all(s, xs).contains(y) <==> (s.contains(y) || xs.contains(y)),
    decreases xs.len(),
{
    if xs.len() > 0 {
        law_with_all_contains(s, xs.drop_last(), y);
        lemma_with_item(with_all(s, xs.drop_last()), xs.last());
        lemma_contains_last(xs, y);
    }
}

/// Loading a configuration lets the listening port through unless the service sits behind a
/// reverse proxy, keeps what was listed, lists every configured port, and refuses with
/// `REJECT` exactly where the configuration asks for rejection.
pub proof fn law_loaded_config(st: FilterState, config: Config, p: u16)
    ensures
        !config.reverse_proxy ==> loaded_state(st, config).whitelisted_ports.contains(config.listen_port),
        (st.whitelisted_ports.contains(p) || config.filterlist.allow_ports@.contains(p))
            ==> loaded_state(st, config).whitelisted_ports.contains(p),
        loaded_state(st, config).blacklisted_ports.contains(p)
            <==> (st.blacklisted_ports.contains(p) || config.filterlist.ban_ports@.contains(p)),
        (loaded_state(st, config).deny_action == "REJECT"@) <==> config.filterlist.reject,
{
    let allowed = with_all(st.whitelisted_ports, config.filterlist.allow_ports@);
    law_with_all_contains(st.whitelisted_ports, config.filterlist.allow_ports@, p);
    law_with_all_contains(st.blacklisted_ports, config.filterlist.ban_ports@, p);
    lemma_with_item(allowed, config.listen_port);
    reveal_strlit("REJECT");
    reveal_strlit("DROP");
    assert("REJECT"@[0] != "DROP"@[0]);
}

/// Without a reverse proxy a request is taken to come from its peer, and behind one from the
/// address of `X-Real-IP` where that header is there.
pub proof fn law_client_is_peer(addr: IpAddress, xrealip: Option<crate::server::handlers::XRealIp>)
    ensures
        client_text(false, addr, xrealip) == crate::net::address_text(addr),
        xrealip matches Some(x) ==> client_text(true, addr, xrealip) == crate::net::address_text(x.0),
{
}

/// The API names differ from one another.
proof fn lemma_api_names_distinct()
    ensures
        "add"@ != "del"@, "add"@ != "listw"@, "add"@ != "listb"@, "add"@ != "ban"@, "add"@ != "reset"@,
        "add"@ != "log"@, "add"@ != "help"@,
        "del"@ != "listw"@, "del"@ != "listb"@, "del"@ != "ban"@, "del"@ != "reset"@, "del"@ != "log"@, "del"@ != "help"@,
        "listw"@ != "listb"@, "listw"@ != "ban"@, "listw"@ != "reset"@, "listw"@ != "log"@, "listw"@ != "help"@,
        "listb"@ != "ban"@, "listb"@ != "reset"@, "listb"@ != "log"@, "listb"@ != "help"@,
        "ban"@ != "reset"@, "ban"@ != "log"@, "ban"@ != "help"@,
        "reset"@ != "log"@, "reset"@ != "help"@,
        "log"@ != "help"@,
{
    reveal_strlit("add");
    reveal_strlit("del");
    reveal_strlit("ban");
    reveal_strlit("reset");
    reveal_strlit("log");
    reveal_strlit("listw");
    reveal_strlit("listb");
    reveal_strlit("help");
    assert("add"@[0] != "del"@[0] && "add"@[0] != "listw"@[0] && "add"@[0] != "listb"@[0] && "add"@[0] != "ban"@[0]);
    assert("add"@[0] != "reset"@[0] && "add"@[0] != "log"@[0] && "add"@[0] != "help"@[0]);
    assert("del"@[0] != "listw"@[0] && "del"@[0] != "listb"@[0] && "del"@[0] != "ban"@[0] && "del"@[0] != "reset"@[0]);
    assert("del"@[0] != "log"@[0] && "del"@[0] != "help"@[0]);
    assert("listw"@[4] != "listb"@[4]);
    assert("listw"@[0] != "ban"@[0] && "listw"@[0] != "reset"@[0] && "listw"@[1] != "log"@[1] && "listw"@[0] != "help"@[0]);
    assert("listb"@[0] != "ban"@[0] && "listb"@[0] != "reset"@[0] && "listb"@[1] != "log"@[1] && "listb"@[0] != "help"@[0]);
    assert("ban"@[0] != "reset"@[0] && "ban"@[0] != "log"@[0] && "ban"@[0] != "help"@[0]);
    assert("reset"@[0] != "log"@[0] && "reset"@[0] != "help"@[0]);
    assert("log"@[0] != "help"@[0]);
}

/// A call of `add`, `del`, `ban`, `reset` or `log` without the admin key changes nothing and
/// is refused.
pub proof fn law_refused_call_changes_nothing(func: Seq<char>, key: Seq<char>, ip_param: Option<Seq<char>>, client: Cidr,
    st: FilterState, config: Config, local: Seq<IpAddress>)
    requires
        func == "add"@ || func == "del"@ || func == "ban"@ || func == "reset"@ || func == "log"@,
        !key_accepted(key, true, config.key_admin@, config.key_query@),
    ensures
        api_effect(func, key, ip_param, client, st, config, local) == (st, unauthorized()),
{
    lemma_api_names_distinct();
}

/// The listing calls and the help change nothing, whatever the key.
pub proof fn law_listing_changes_nothing(func: Seq<char>, key: Seq<char>, ip_param: Option<Seq<char>>, client: Cidr,
    st: FilterState, config: Config, local: Seq<IpAddress>)
    requires
        func == "listw"@ || func == "listb"@ || func == "help"@,
    ensures
        api_effect(func, key, ip_param, client, st, config, local).0 == st,
{
    lemma_api_names_distinct();
}

/// With the admin key, `add` of a block followed by `del` of the same block leaves both lists
/// as they were, where the block was in neither.
pub proof fn law_api_add_then_del(key: Seq<char>, t: Seq<char>, client: Cidr, st: FilterState, config: Config,
    local: Seq<IpAddress>)
    requires
        key_accepted(key, true, config.key_admin@, config.key_query@),
        cidr_parse(t) is Ok,
        !st.whitelisted_ips.contains(cidr_parse(t)->Ok_0),
        !st.blacklisted_ips.contains(cidr_parse(t)->Ok_0),
    ensures
        ({
            let added = api_effect("add"@, key, Some(t), client, st, config, local).0;
            let removed = api_effect("del"@, key, Some(t), client, added, config, local).0;
            removed.whitelisted_ips == st.whitelisted_ips && removed.blacklisted_ips == st.blacklisted_ips
        }),
{
    let c = cidr_parse(t)->Ok_0;
    lemma_api_names_distinct();
    law_add_then_remove(st.whitelisted_ips, c);
    lemma_without(st.blacklisted_ips, c);
}

/// With the admin key, `reset` gives the state that loading the configuration into a new
/// service gives, without packet counts: exactly the configured blocks are whitelisted and
/// blacklisted, exactly the configured ports are protected, every configured port (and the
/// listening port unless behind a reverse proxy) is let through, and refused packets are
/// rejected exactly where the configuration asks for it. Its changes clear the tables and set
/// them up for that state.
pub proof fn law_reset_loads_the_configuration(key: Seq<char>, ip_param: Option<Seq<char>>, client: Cidr,
    st: FilterState, config: Config, local: Seq<IpAddress>, c: Cidr, p: u16)
    requires
        key_accepted(key, true, config.key_admin@, config.key_query@),
    ensures
        ({
            let (r, out) = api_effect("reset"@, key, ip_param, client, st, config, local);
            let fl = config.filterlist;
            &&& r == FilterState { packets_per_ip: Seq::empty(), ..loaded_state(initial_state(), config) }
            &&& r.whitelisted_ips.contains(c) <==> parsed_all(fl.allow_ips@).contains(c)
            &&& r.blacklisted_ips.contains(c) <==> parsed_all(fl.ban_ips@).contains(c)
            &&& r.blacklisted_ports.contains(p) <==> fl.ban_ports@.contains(p)
            &&& r.whitelisted_ports.contains(p)
                <==> (fl.allow_ports@.contains(p) || (!config.reverse_proxy && p == config.listen_port))
            &&& r.packets_per_ip.len() == 0
            &&& (r.deny_action == "REJECT"@ <==> fl.reject)
            &&& out == ApiOutcomeView::Reply { status: ApiStatus::Success, body: "ok"@, ops: clear_ops() + init_ops(r, local) }
        }),
{
    lemma_api_names_distinct();
    let fl = config.filterlist;
    let e = Seq::<Cidr>::empty();
    law_with_all_contains(e, parsed_all(fl.allow_ips@), c);
    law_with_all_contains(e, parsed_all(fl.ban_ips@), c);
    law_with_all_contains(Seq::<u16>::empty(), fl.ban_ports@, p);
    law_with_all_contains(Seq::<u16>::empty(), fl.allow_ports@, p);
    lemma_with_item(with_all(Seq::<u16>::empty(), fl.allow_ports@), config.listen_port);
    law_loaded_config(initial_state(), config, p);
}

/// With the admin key, `ban` of an IPv4 block that is not blacklisted, followed by `del` of the
/// same block, gives back the blacklist and the `filter` table, whatever the deny action, where
/// the table lacks the block's rules: the deletion takes out the very rule the ban put in.
pub proof fn law_api_ban_then_del(key: Seq<char>, t: Seq<char>, client: Cidr, st: FilterState, config: Config,
    local: Seq<IpAddress>, tab: FilterTable)
    requires
        key_accepted(key, true, config.key_admin@, config.key_query@),
        cidr_parse(t) is Ok,
        cidr_parse(t)->Ok_0 is V4,
        !st.blacklisted_ips.contains(cidr_parse(t)->Ok_0),
        tab.contains_key(BLACKLIST_CHAIN@) ==> !tab[BLACKLIST_CHAIN@].contains(
            " -s "@ + cidr_text(cidr_parse(t)->Ok_0) + " -j "@ + st.deny_action),
        tab.contains_key(BANDWIDTH_IN_CHAIN@) ==> !tab[BANDWIDTH_IN_CHAIN@].contains(
            " -s "@ + cidr_text(cidr_parse(t)->Ok_0) + " -j RETURN"@),
        tab.contains_key(BANDWIDTH_OUT_CHAIN@) ==> !tab[BANDWIDTH_OUT_CHAIN@].contains(
            " -d "@ + cidr_text(cidr_parse(t)->Ok_0) + " -j RETURN"@),
        tab.contains_key(PROTECT_CHAIN@) ==> !tab[PROTECT_CHAIN@].contains(
            " -s "@ + cidr_text(cidr_parse(t)->Ok_0) + " -j ACCEPT"@),
    ensures
        ({
            let (banned, ban_out) = api_effect("ban"@, key, Some(t), client, st, config, local);
            let (deleted, del_out) = api_effect("del"@, key, Some(t), client, banned, config, local);
            &&& deleted.blacklisted_ips == st.blacklisted_ips
            &&& ban_out is Reply && del_out is Reply
            &&& apply_ops(apply_ops(tab, ban_out->ops), del_out->ops) == tab
        }),
{
    let c = cidr_parse(t)->Ok_0;
    let deny = st.deny_action;
    lemma_api_names_distinct();
    lemma_chain_names();
    law_add_then_remove(st.blacklisted_ips, c);
    let rule = " -s "@ + cidr_text(c) + " -j "@ + deny;
    let a = TableOpView::AppendUnique { chain: BLACKLIST_CHAIN@, rule };
    let d = TableOpView::Delete { chain: BLACKLIST_CHAIN@, rule };
    assert(blacklist_rules(c, deny) == seq![a]);
    assert(blacklist_removals(c, deny) == seq![d]);
    let tab1 = apply_op(tab, a);
    lemma_apply_one(tab, a);
    let w = whitelist_removals(c);
    lemma_op_local(tab, a, BANDWIDTH_IN_CHAIN@);
    lemma_op_local(tab, a, BANDWIDTH_OUT_CHAIN@);
    lemma_op_local(tab, a, PROTECT_CHAIN@);
    lemma_apply_three(tab1, w);
    assert(apply_ops(tab1, w) == tab1);
    lemma_apply_concat(tab1, w, seq![d]);
    lemma_apply_one(tab1, d);
    let u = apply_op(tab1, d);
    assert forall|k: Seq<char>| agree_on(u, tab, k) by {
        if k != BLACKLIST_CHAIN@ {
            lemma_op_local(tab, a, k);
            lemma_op_local(tab1, d, k);
        } else {
            lemma_append_then_delete(tab, tab1, k, rule);
        }
    }
    lemma_agree_everywhere(u, tab);
}

/// Every traffic record is the record of a whitelisted block.
pub proof fn law_records_are_whitelisted(ips: Seq<Cidr>, in4: Seq<char>, out4: Seq<char>, in6: Seq<char>, out6: Seq<char>)
    ensures
        forall|k: int| 0 <= k < all_records(ips, in4, out4, in6, out6).len()
            ==> ips.contains(#[trigger] all_records(ips, in4, out4, in6, out6)[k].ip),
    decreases ips.len(),
{
    if ips.len() > 0 {
        let t = ips.drop_last();
        law_records_are_whitelisted(t, in4, out4, in6, out6);
        let a = all_records(t, in4, out4, in6, out6);
        let b = ip_records(ips.last(), in4, out4, in6, out6);
        assert forall|k: int| 0 <= k < all_records(ips, in4, out4, in6, out6).len()
            implies ips.contains(#[trigger] all_records(ips, in4, out4, in6, out6)[k].ip) by {
            let r = all_records(ips, in4, out4, in6, out6)[k];
            if k < a.len() {
                assert(r == a[k]);
                lemma_contains_last(ips, r.ip);
            } else {
                assert(r == b[k - a.len()]);
                assert(ips[ips.len() - 1] == ips.last());
            }
        }
    }
}


proof fn lemma_decimal_reads_back(n: nat)
    ensures
        all_digits(decimal(n)),
        digits_value(decimal(n)) == n,
        decimal(n)[0] != '+',
    decreases n,
{
    if n < 10 {
        let s = decimal(n);
        assert(s.drop_last() =~= Seq::<char>::empty());
        assert(digit_value(digit_char(n)) == n && is_digit(digit_char(n)));
        assert(digits_value(s.drop_last()) == 0);
        assert(s.last() == digit_char(n));
        assert(digits_value(s) == digits_value(s.drop_last()) * 10 + digit_value(s.last()));
    } else {
        lemma_decimal_reads_back(n / 10);
        let s = decimal(n);
        let t = decimal(n / 10);
        assert(s.drop_last() =~= t);
        assert(digit_value(digit_char(n % 10)) == n % 10 && is_digit(digit_char(n % 10)));
        assert(s.last() == digit_char(n % 10));
        assert(digits_value(s) == digits_value(t) * 10 + digit_value(s.last()));
        assert((n / 10) * 10 + n % 10 == n);
        assert forall|i: int| 0 <= i < s.len() implies is_digit(#[trigger] s[i]) by {
            if i < t.len() {
                assert(s[i] == t[i]);
            }
        }
        assert(s[0] == t[0]);
    }
}

/// A counter written in decimal reads back as itself.
pub proof fn law_counter_text_reads_back(n: u16)
    ensures
        unsigned_value(decimal(n as nat), 0xffff) == Some(n as nat),
        field_value(decimal(n as nat)) == n,
{
    lemma_decimal_reads_back(n as nat);
}

} // verus!
