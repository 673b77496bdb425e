use vstd::prelude::*;
use crate::config::Config;
use crate::net::{Cidr, CidrError, IpAddress, address_text, cidr_parse, cidr_error_text, parse_cidr};
use crate::filer_service::service::{
    FilterService, FilterState, TableOp, TableOpView, ops_view, with_item, without, without_key, whitelist_rules,
    whitelist_removals, blacklist_rules, blacklist_removals, loaded_state, initial_state, clear_ops, init_ops, all_parse,
    push_ops, first_parse_error,
};
use crate::server::{key_accepted, check_key};
use crate::server::report::{blacklist_text, blacklist_listing, counts_text, counts_listing, first_count_listing, listing_head, count_line};
use crate::text::{same_text, push_all};

verus! {

/// The address a reverse proxy reports in the `X-Real-IP` header.
#[derive(Debug, Clone, Copy)]
pub struct XRealIp(pub IpAddress);

/// The addresses a reverse proxy reports in the `X-Forwarded-For` header.
#[derive(Debug, Clone)]
pub struct XForwardedFor(pub String);

/// The text of the address a request is taken to come from: the peer, or behind a reverse
/// proxy the address of `X-Real-IP`, and `127.0.0.1` where that header is missing.
pub open spec fn client_text(reverse_proxy: bool, addr: IpAddress, xrealip: Option<XRealIp>) -> Seq<char> {
    if !reverse_proxy {
        address_text(addr)
    } else {
        match xrealip {
            Some(x) => address_text(x.0),
            None => "127.0.0.1"@,
        }
    }
}

fn client_address_text(reverse_proxy: bool, addr: &IpAddress, xrealip: &Option<XRealIp>) -> (t: String)
    ensures
        t@ == client_text(reverse_proxy, *addr, *xrealip),
{
    if !reverse_proxy {
        addr.to_string()
    } else {
        match xrealip {
            Some(x) => x.0.to_string(),
            None => "127.0.0.1".to_string(),
        }
    }
}

/// The client a request comes from: the CIDR block that the text of its address reads as
/// (see `client_text`), where that text reads as one.
pub fn get_client_ip(reverse_proxy: bool, addr: IpAddress, xrealip: Option<XRealIp>, xforwardfor: Option<XForwardedFor>)
    -> (ip: Cidr)
    requires
        cidr_parse(client_text(reverse_proxy, addr, xrealip)) is Ok,
    ensures
        ip == cidr_parse(client_text(reverse_proxy, addr, xrealip))->Ok_0,
        ip.wf(),
{
    let text = client_address_text(reverse_proxy, &addr, &xrealip);
    match parse_cidr(text.as_str()) {
        Ok(c) => c,
        Err(_) => {
            assert(false);
            Cidr::V4 { prefix: 0, bits: 0 }
        },
    }
}

/// The client a request comes from (see `get_client_ip`); `None` where the text of its address
/// reads as no CIDR block.
pub fn try_get_client_ip(reverse_proxy: bool, addr: IpAddress, xrealip: Option<XRealIp>, xforwardfor: Option<XForwardedFor>)
    -> (ip: Option<Cidr>)
    ensures
        ip == match cidr_parse(client_text(reverse_proxy, addr, xrealip)) {
            Ok(c) => Some(c),
            Err(_) => None::<Cidr>,
        },
        ip matches Some(c) ==> c.wf(),
{
    let text = client_address_text(reverse_proxy, &addr, &xrealip);
    match parse_cidr(text.as_str()) {
        Ok(_) => Some(get_client_ip(reverse_proxy, addr, xrealip, xforwardfor)),
        Err(_) => None,
    }
}

/// Takes an address and does nothing with it.
pub fn which_ip(ip: String) {
}

/// The help text of the API.
pub open spec fn help_text() -> Seq<char> {
    "SelfHelp iptables Whitelist\n/api/add?key=yourkey\n/api/list?key=yourkey \n/api/remove/ip?key=yourkey\n/api/log?key=yourkey\n/api/record?key=yourkey"@
}

/// The help text of the API.
pub fn help() -> (s: String)
    ensures
        s@ == help_text(),
{
    "SelfHelp iptables Whitelist\n/api/add?key=yourkey\n/api/list?key=yourkey \n/api/remove/ip?key=yourkey\n/api/log?key=yourkey\n/api/record?key=yourkey".to_string()
}


/// How an API call ends.
#[derive(Debug, Clone, Copy, PartialEq, Eq, Structural)]
pub enum ApiStatus {
    Success,
    BadRequest,
    Unauthorized,
}

/// What an API call leads to: a reply with the changes to make to the tables, or (for the
/// whitelist listing) the traffic listings to be read first.
#[derive(Debug)]
pub enum ApiOutcome {
    Reply { status: ApiStatus, body: String, ops: Vec<TableOp> },
    ListWhitelist,
}

/// An API outcome over plain values.
pub enum ApiOutcomeView {
    Reply { status: ApiStatus, body: Seq<char>, ops: Seq<TableOpView> },
    ListWhitelist,
}

impl View for ApiOutcome {
    type V = ApiOutcomeView;

    open spec fn view(&self) -> ApiOutcomeView {
        match self {
            ApiOutcome::Reply { status, body, ops } => ApiOutcomeView::Reply { status: *status, body: body@, ops: ops_view(ops@) },
            ApiOutcome::ListWhitelist => ApiOutcomeView::ListWhitelist,
        }
    }
}

/// A reply that changes nothing in the tables.
pub open spec fn plain_reply(status: ApiStatus, body: Seq<char>) -> ApiOutcomeView {
    ApiOutcomeView::Reply { status, body, ops: Seq::empty() }
}

/// The reply to a call whose key is refused, or to an unknown API.
pub open spec fn unauthorized() -> ApiOutcomeView {
    plain_reply(ApiStatus::Unauthorized, "UNAUTHORIZED"@)
}

/// The block an `add` call whitelists: the `ip` parameter where it is a block, else the client.
pub open spec fn add_target(ip_param: Option<Seq<char>>, client: Cidr) -> Cidr {
    match ip_param {
        Some(t) => match cidr_parse(t) {
            Ok(c) => c,
            Err(_) => client,
        },
        None => client,
    }
}

/// The reply to a call that names no block or one that is none.
pub open spec fn bad_ip_reply(ip_param: Option<Seq<char>>) -> ApiOutcomeView {
    match ip_param {
        Some(t) => match cidr_parse(t) {
            Ok(_) => plain_reply(ApiStatus::Success, "ok"@),
            Err(e) => plain_reply(ApiStatus::BadRequest, "bad request: "@ + cidr_error_text(e)),
        },
        None => plain_reply(ApiStatus::BadRequest, "bad request: not ip get"@),
    }
}

/// The state after a `reset` call: a new service with the configuration loaded and no packet
/// counts.
pub open spec fn reset_state(config: Config) -> FilterState {
    FilterState { packets_per_ip: Seq::empty(), ..loaded_state(initial_state(), config) }
}

/// What the API `func` does with the `key` and `ip` parameters, for a call from `client`: the
/// state after it and its outcome. `add`, `del`, `ban`, `reset` and `log` take the admin key;
/// `listw`, `listb` and `help` take none; any other API is refused.
pub open spec fn api_effect(func: Seq<char>, key: Seq<char>, ip_param: Option<Seq<char>>, client: Cidr, st: FilterState,
    config: Config, local: Seq<IpAddress>) -> (FilterState, ApiOutcomeView) {
    let admin = key_accepted(key, true, config.key_admin@, config.key_query@);
    if func == "add"@ {
        if !admin {
            (st, unauthorized())
        } else {
            let c = add_target(ip_param, client);
            (FilterState { whitelisted_ips: with_item(st.whitelisted_ips, c), ..st },
             ApiOutcomeView::Reply { status: ApiStatus::Success, body: "ok"@, ops: whitelist_rules(c) })
        }
    } else if func == "del"@ {
        if !admin {
            (st, unauthorized())
        } else {
            match ip_param {
                Some(t) => match cidr_parse(t) {
                    Ok(c) => (FilterState {
                        whitelisted_ips: without(st.whitelisted_ips, c),
                        blacklisted_ips: without(st.blacklisted_ips, c),
                        packets_per_ip: without_key(without_key(st.packets_per_ip, c), c),
                        ..st
                    }, ApiOutcomeView::Reply {
                        status: ApiStatus::Success,
                        body: "ok"@,
                        ops: whitelist_removals(c) + blacklist_removals(c, st.deny_action),
                    }),
                    Err(_) => (st, bad_ip_reply(ip_param)),
                },
                None => (st, bad_ip_reply(ip_param)),
            }
        }
    } else if func == "listw"@ {
        (st, ApiOutcomeView::ListWhitelist)
    } else if func == "listb"@ {
        (st, plain_reply(ApiStatus::Success, blacklist_text(st.blacklisted_ips, client)))
    } else if func == "ban"@ {
        if !admin {
            (st, unauthorized())
        } else {
            match ip_param {
                Some(t) => match cidr_parse(t) {
                    Ok(c) => (FilterState { blacklisted_ips: with_item(st.blacklisted_ips, c), ..st },
                        ApiOutcomeView::Reply { status: ApiStatus::Success, body: "ok"@, ops: blacklist_rules(c, st.deny_action) }),
                    Err(_) => (st, bad_ip_reply(ip_param)),
                },
                None => (st, bad_ip_reply(ip_param)),
            }
        }
    } else if func == "reset"@ {
        if !admin {
            (st, unauthorized())
        } else {
            let st2 = reset_state(config);
            (st2, ApiOutcomeView::Reply { status: ApiStatus::Success, body: "ok"@, ops: clear_ops() + init_ops(st2, local) })
        }
    } else if func == "log"@ {
        if !admin {
            (st, unauthorized())
        } else {
            (st, plain_reply(ApiStatus::Success, counts_text(st.packets_per_ip, st.whitelisted_ips, client)))
        }
    } else if func == "help"@ {
        (st, plain_reply(ApiStatus::Success, help_text()))
    } else {
        (st, unauthorized())
    }
}

/// Whether a call can load the configuration where it has to: a `reset` with the admin key
/// takes every configured address to be a CIDR block.
pub open spec fn reset_loadable(func: Seq<char>, key: Seq<char>, config: Config) -> bool {
    (func == "reset"@ && key_accepted(key, true, config.key_admin@, config.key_query@))
        ==> (all_parse(config.filterlist.allow_ips@) && all_parse(config.filterlist.ban_ips@))
}

fn reply(status: ApiStatus, body: String) -> (r: ApiOutcome)
    ensures
        r@ == plain_reply(status, body@),
{
    let r = ApiOutcome::Reply { status, body, ops: Vec::new() };
    assert(ops_view(Seq::<TableOp>::empty()) =~= Seq::<TableOpView>::empty());
    r
}

fn refuse() -> (r: ApiOutcome)
    ensures
        r@ == unauthorized(),
{
    reply(ApiStatus::Unauthorized, "UNAUTHORIZED".to_string())
}

fn ok_with(ops: Vec<TableOp>) -> (r: ApiOutcome)
    ensures
        r@ == (ApiOutcomeView::Reply { status: ApiStatus::Success, body: "ok"@, ops: ops_view(ops@) }),
{
    ApiOutcome::Reply { status: ApiStatus::Success, body: "ok".to_string(), ops }
}

fn bad_ip(e: CidrError) -> (r: ApiOutcome)
    ensures
        r@ == plain_reply(ApiStatus::BadRequest, "bad request: "@ + cidr_error_text(e)),
{
    let mut body = "bad request: ".to_string();
    push_all(&mut body, e.to_string().as_str());
    reply(ApiStatus::BadRequest, body)
}

/// Serves a call of the API `func` (see `api_effect`): `key` and `ip_param` are its parameters,
/// `client` the block it comes from, `local_ips` the host's own addresses.
pub fn api_func(func: &str, key: &str, ip_param: Option<String>, client: &Cidr, service: &mut FilterService,
    config: &Config, local_ips: &Vec<IpAddress>) -> (r: ApiOutcome)
    requires
        old(service)@.wf(),
        client.wf(),
        reset_loadable(func@, key@, *config),
    ensures
        (final(service)@, r@) == api_effect(func@, key@, match ip_param { Some(t) => Some(t@), None => None }, *client,
            old(service)@, *config, local_ips@),
        final(service)@.wf(),
{
    if same_text(func, "add") {
        if !check_key(key, true, "add".to_string(), config) {
            return refuse();
        }
        let target = match &ip_param {
            Some(t) => match parse_cidr(t.as_str()) {
                Ok(c) => c,
                Err(_) => *client,
            },
            None => *client,
        };
        let ops = service.add_whitelisted_ip(target);
        ok_with(ops)
    } else if same_text(func, "del") {
        if !check_key(key, true, "add".to_string(), config) {
            return refuse();
        }
        match &ip_param {
            Some(t) => match parse_cidr(t.as_str()) {
                Ok(c) => {
                    let mut ops = service.del_whitelisted_ip(c);
                    let more = service.del_blacklisted_ip(c);
                    push_ops(&mut ops, more);
                    ok_with(ops)
                },
                Err(e) => bad_ip(e),
            },
            None => reply(ApiStatus::BadRequest, "bad request: not ip get".to_string()),
        }
    } else if same_text(func, "listw") {
        ApiOutcome::ListWhitelist
    } else if same_text(func, "listb") {
        reply(ApiStatus::Success, blacklist_listing(service, client))
    } else if same_text(func, "ban") {
        if !check_key(key, true, "add".to_string(), config) {
            return refuse();
        }
        match &ip_param {
            Some(t) => match parse_cidr(t.as_str()) {
                Ok(c) => {
                    let ops = service.add_blacklisted_ip(c);
                    ok_with(ops)
                },
                Err(e) => bad_ip(e),
            },
            None => reply(ApiStatus::BadRequest, "bad request: not ip get".to_string()),
        }
    } else if same_text(func, "reset") {
        if !check_key(key, true, "add".to_string(), config) {
            return refuse();
        }
        service.init();
        service.load_config(config);
        let ops = service.reset_table(local_ips);
        ok_with(ops)
    } else if same_text(func, "log") {
        if !check_key(key, true, "add".to_string(), config) {
            return refuse();
        }
        reply(ApiStatus::Success, counts_listing(service, client))
    } else if same_text(func, "help") {
        reply(ApiStatus::Success, help())
    } else {
        refuse()
    }
}

/// Serves a call of the API `func` where it can load the configuration as it may have to;
/// `None`, with the service unchanged, where a `reset` with the admin key meets a configured
/// address that is no CIDR block.
pub fn api_call(func: &str, key: &str, ip_param: Option<String>, client: &Cidr, service: &mut FilterService,
    config: &Config, local_ips: &Vec<IpAddress>) -> (r: Option<ApiOutcome>)
    requires
        old(service)@.wf(),
        client.wf(),
    ensures
        r is None <==> !reset_loadable(func@, key@, *config),
        r is None ==> final(service)@ == old(service)@,
        r matches Some(o) ==> (final(service)@, o@) == api_effect(func@, key@,
            match ip_param { Some(t) => Some(t@), None => None }, *client, old(service)@, *config, local_ips@),
        final(service)@.wf(),
{
    if same_text(func, "reset") && check_key(key, true, "add".to_string(), config) {
        if first_parse_error(&config.filterlist.allow_ips).is_some()
            || first_parse_error(&config.filterlist.ban_ips).is_some() {
            return None;
        }
    }
    Some(api_func(func, key, ip_param, client, service, config, local_ips))
}

/// Serves a `reset_whitelist` call: with the query or admin key, empties the whitelist and
/// the packet counts and rebuilds the tables; else refuses it.
pub fn reset_whitelist(key: &str, service: &mut FilterService, config: &Config, local_ips: &Vec<IpAddress>) -> (r: ApiOutcome)
    requires
        old(service)@.wf(),
    ensures
        final(service)@.wf(),
        key_accepted(key@, false, config.key_admin@, config.key_query@) ==> {
            &&& final(service)@ == (FilterState { whitelisted_ips: Seq::empty(), packets_per_ip: Seq::empty(), ..old(service)@ })
            &&& r@ == (ApiOutcomeView::Reply { status: ApiStatus::Success, body: "ok"@, ops: clear_ops() + init_ops(final(service)@, local_ips@) })
        },
        !key_accepted(key@, false, config.key_admin@, config.key_query@) ==> final(service)@ == old(service)@ && r@ == unauthorized(),
{
    if check_key(key, false, "reset_whitelist".to_string(), config) {
        let ops = service.reset_whitelist(local_ips);
        ok_with(ops)
    } else {
        refuse()
    }
}

/// Serves a `get_record` call: with the admin key, answers `ok` where there is no packet count,
/// and else the first line of the count listing with the first count (refused as the answer
/// is); else refuses it.
pub fn get_record(key: &str, client: &Cidr, service: &FilterService, config: &Config) -> (r: ApiOutcome)
    ensures
        !key_accepted(key@, true, config.key_admin@, config.key_query@) ==> r@ == unauthorized(),
        key_accepted(key@, true, config.key_admin@, config.key_query@) && service@.packets_per_ip.len() == 0
            ==> r@ == plain_reply(ApiStatus::Success, "ok"@),
        key_accepted(key@, true, config.key_admin@, config.key_query@) && service@.packets_per_ip.len() > 0
            ==> r@ == plain_reply(ApiStatus::Unauthorized, listing_head("found "@, service@.packets_per_ip.len(), *client)
                + count_line(service@.packets_per_ip[0], service@.whitelisted_ips)),
{
    if check_key(key, true, "log_record".to_string(), config) {
        match first_count_listing(service, client) {
            Some(output) => reply(ApiStatus::Unauthorized, output),
            None => reply(ApiStatus::Success, "ok".to_string()),
        }
    } else {
        refuse()
    }
}

} // verus!
