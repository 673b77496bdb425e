use vstd::prelude::*;
use crate::net::{Cidr, CidrError, IpAddress, cidr_text, cidr_parse, push_cidr, parse_cidr};
use crate::config::Config;
use crate::text::{push_all, push_decimal, decimal, ipv4_text, push_ipv4,
    chars_of, string_of, joined, lemma_split_on_joined, split_chars, split_on, parse_i32, i32_value, lemma_split_on_nonempty,
};

verus! {

/// The chain whose rules protect the host.
pub const PROTECT_CHAIN: &'static str = "PROTECT_LIST";
/// The chain whose rules refuse blacklisted addresses.
pub const BLACKLIST_CHAIN: &'static str = "BLACK_LIST";
/// The chain that counts traffic coming in from whitelisted addresses.
pub const BANDWIDTH_IN_CHAIN: &'static str = "BANDWIDTH_IN";
/// The chain that counts traffic going out to whitelisted addresses.
pub const BANDWIDTH_OUT_CHAIN: &'static str = "BANDWIDTH_OUT";
/// The log prefix of refused packets.
pub const PREFIX_DEFAULT: &'static str = "[ipt]";
/// The log prefix of packets that passed the rate trigger.
pub const PREFIX_TRIGGER: &'static str = "[ipt-trigger]";
/// The table that every rule of the service lives in.
pub const FILTER_TABLE: &'static str = "filter";

/// The value stored beside each key of the service's sets.
#[allow(non_camel_case_types)]
pub struct empty_struct {}

/// One change to the IPv4 `filter` table, as `iptables` makes it.
#[derive(Debug, Clone, PartialEq, Eq)]
pub enum TableOp {
    NewChain { chain: String },
    AppendUnique { chain: String, rule: String },
    InsertUnique { chain: String, rule: String, position: i32 },
    Delete { chain: String, rule: String },
    FlushChain { chain: String },
    DeleteChain { chain: String },
}

/// A change to the `filter` table, over plain texts.
pub enum TableOpView {
    NewChain { chain: Seq<char> },
    AppendUnique { chain: Seq<char>, rule: Seq<char> },
    InsertUnique { chain: Seq<char>, rule: Seq<char>, position: int },
    Delete { chain: Seq<char>, rule: Seq<char> },
    FlushChain { chain: Seq<char> },
    DeleteChain { chain: Seq<char> },
}

impl View for TableOp {
    type V = TableOpView;

    open spec fn view(&self) -> TableOpView {
        match self {
            TableOp::NewChain { chain } => TableOpView::NewChain { chain: chain@ },
            TableOp::AppendUnique { chain, rule } => TableOpView::AppendUnique { chain: chain@, rule: rule@ },
            TableOp::InsertUnique { chain, rule, position } =>
                TableOpView::InsertUnique { chain: chain@, rule: rule@, position: *position as int },
            TableOp::Delete { chain, rule } => TableOpView::Delete { chain: chain@, rule: rule@ },
            TableOp::FlushChain { chain } => TableOpView::FlushChain { chain: chain@ },
            TableOp::DeleteChain { chain } => TableOpView::DeleteChain { chain: chain@ },
        }
    }
}

/// The views of a list of changes.
pub open spec fn ops_view(v: Seq<TableOp>) -> Seq<TableOpView> {
    v.map_values(|o: TableOp| o@)
}

/// Appends the changes of `more` to `ops`.
pub fn push_ops(ops: &mut Vec<TableOp>, more: Vec<TableOp>)
    ensures
        ops_view(final(ops)@) == ops_view(old(ops)@) + ops_view(more@),
{
    let mut more = more;
    let ghost a = ops@;
    let ghost b = more@;
    ops.append(&mut more);
    assert(ops_view(ops@) =~= ops_view(a) + ops_view(b));
}

fn append_op(chain: &str, rule: String) -> (o: TableOp)
    ensures
        o@ == (TableOpView::AppendUnique { chain: chain@, rule: rule@ }),
{
    TableOp::AppendUnique { chain: chain.to_string(), rule }
}

fn insert_op(chain: &str, rule: String) -> (o: TableOp)
    ensures
        o@ == (TableOpView::InsertUnique { chain: chain@, rule: rule@, position: 1 }),
{
    TableOp::InsertUnique { chain: chain.to_string(), rule, position: 1 }
}

fn delete_op(chain: &str, rule: String) -> (o: TableOp)
    ensures
        o@ == (TableOpView::Delete { chain: chain@, rule: rule@ }),
{
    TableOp::Delete { chain: chain.to_string(), rule }
}

/// `a`, then the text of `ip`, then `b`.
fn cidr_rule(a: &str, ip: &Cidr, b: &str) -> (r: String)
    ensures
        r@ == a@ + cidr_text(*ip) + b@,
{
    let mut r = String::new();
    push_all(&mut r, a);
    push_cidr(&mut r, ip);
    push_all(&mut r, b);
    assert(r@ =~= a@ + cidr_text(*ip) + b@);
    r
}

/// `a`, then the text of `ip`, then `b`, then `c`.
fn cidr_rule_to(a: &str, ip: &Cidr, b: &str, c: &str) -> (r: String)
    ensures
        r@ == a@ + cidr_text(*ip) + b@ + c@,
{
    let mut r = cidr_rule(a, ip, b);
    push_all(&mut r, c);
    r
}

/// The state of the service, over plain values.
pub struct FilterState {
    pub whitelisted_ips: Seq<Cidr>,
    pub blacklisted_ips: Seq<Cidr>,
    pub whitelisted_ports: Seq<u16>,
    pub blacklisted_ports: Seq<u16>,
    pub packets_per_ip: Seq<(Cidr, u32)>,
    pub auto_add_threshold: u16,
    pub deny_action: Seq<char>,
    pub rate_trigger: Seq<char>,
}

#[derive(Debug, Clone)]
/// The filter service: the addresses and ports it lets through or refuses, in the order
/// they were added, and the rule settings that the tables are built from.
pub struct FilterService {
    pub whitelisted_ips: Vec<Cidr>,
    pub blacklisted_ips: Vec<Cidr>,
    pub whitelisted_ports: Vec<u16>,
    pub blacklisted_ports: Vec<u16>,
    pub packets_per_ip: Vec<(Cidr, u32)>,
    pub auto_add_threshold: u16,
    pub deny_action: String,
    pub rate_trigger: String,
}

impl View for FilterService {
    type V = FilterState;

    open spec fn view(&self) -> FilterState {
        FilterState {
            whitelisted_ips: self.whitelisted_ips@,
            blacklisted_ips: self.blacklisted_ips@,
            whitelisted_ports: self.whitelisted_ports@,
            blacklisted_ports: self.blacklisted_ports@,
            packets_per_ip: self.packets_per_ip@,
            auto_add_threshold: self.auto_add_threshold,
            deny_action: self.deny_action@,
            rate_trigger: self.rate_trigger@,
        }
    }
}

/// No two entries of `s` have the same key.
pub open spec fn keys_distinct(s: Seq<(Cidr, u32)>) -> bool {
    forall|i: int, j: int| 0 <= i < j < s.len() ==> s[i].0 != s[j].0
}

/// `s` with `x` added at its end, where it is not in `s` yet.
pub open spec fn with_item<T>(s: Seq<T>, x: T) -> Seq<T> {
    if s.contains(x) { s } else { s.push(x) }
}

/// `s` without `x`.
pub open spec fn without<T>(s: Seq<T>, x: T) -> Seq<T>
    decreases s.len(),
{
    if s.len() == 0 {
        s
    } else if s.last() == x {
        without(s.drop_last(), x)
    } else {
        without(s.drop_last(), x).push(s.last())
    }
}

/// `s` without the entry whose key is `k`.
pub open spec fn without_key(s: Seq<(Cidr, u32)>, k: Cidr) -> Seq<(Cidr, u32)>
    decreases s.len(),
{
    if s.len() == 0 {
        s
    } else if s.last().0 == k {
        without_key(s.drop_last(), k)
    } else {
        without_key(s.drop_last(), k).push(s.last())
    }
}

/// What a non-empty sequence contains: what it holds before its last item, and that item.
pub proof fn lemma_contains_last<T>(s: Seq<T>, y: T)
    requires
        s.len() > 0,
    ensures
        s.contains(y) <==> (s.drop_last().contains(y) || s.last() == y),
{
    if s.contains(y) && s.last() != y {
        let i = choose|i: int| 0 <= i < s.len() && s[i] == y;
        assert(s.drop_last()[i] == y);
    }
    if s.drop_last().contains(y) {
        let i = choose|i: int| 0 <= i < s.drop_last().len() && s.drop_last()[i] == y;
        assert(s[i] == y);
    }
    if s.last() == y {
        assert(s[s.len() - 1] == y);
    }
}

/// What removing `x` keeps: everything else, in order, and no duplicates where there were none.
pub proof fn lemma_without<T>(s: Seq<T>, x: T)
    ensures
        forall|y: T| without(s, x).contains(y) <==> (s.contains(y) && y != x),
        s.no_duplicates() ==> without(s, x).no_duplicates(),
        !s.contains(x) ==> without(s, x) == s,
    decreases s.len(),
{
    if s.len() > 0 {
        let t = s.drop_last();
        lemma_without(t, x);
        assert forall|y: T| without(s, x).contains(y) <==> (s.contains(y) && y != x) by {
            lemma_contains_last(s, y);
            if s.last() != x {
                lemma_contains_last(without(s, x), y);
                assert(without(s, x).drop_last() =~= without(t, x));
            }
        }
        if s.no_duplicates() {
            assert(t.no_duplicates()) by {
                assert forall|i: int, j: int| 0 <= i < t.len() && 0 <= j < t.len() && i != j
                    implies t[i] != t[j] by {
                    assert(s[i] == t[i] && s[j] == t[j]);
                }
            }
            if s.last() != x {
                assert(!t.contains(s.last())) by {
                    if t.contains(s.last()) {
                        let i = choose|i: int| 0 <= i < t.len() && t[i] == s.last();
                        assert(s[i] == s[s.len() - 1]);
                    }
                }
                assert(!without(t, x).contains(s.last()));
                let w = without(s, x);
                assert forall|i: int, j: int| 0 <= i < w.len() && 0 <= j < w.len() && i != j
                    implies w[i] != w[j] by {
                    if i < w.len() - 1 && j < w.len() - 1 {
                        assert(w[i] == without(t, x)[i] && w[j] == without(t, x)[j]);
                    } else if i == w.len() - 1 {
                        assert(without(t, x).contains(w[j]));
                    } else {
                        assert(without(t, x).contains(w[i]));
                    }
                }
            }
        }
        if !s.contains(x) {
            assert(!t.contains(x)) by {
                if t.contains(x) {
                    let i = choose|i: int| 0 <= i < t.len() && t[i] == x;
                    assert(s[i] == x);
                }
            }
            assert(s.last() != x);
            assert(t.push(s.last()) =~= s);
        }
    }
}


/// Whether `t` reads as an `i32` above zero.
pub open spec fn positive_i32(t: Seq<char>) -> bool {
    i32_value(t) matches Some(v) && v > 0
}

/// What a rate trigger `[packets]/[seconds]` reads as: the packet count and the seconds as
/// written, and whether the trigger is valid (both parts numbers above zero). An invalid
/// trigger gives two empty texts.
pub open spec fn trigger_parts(s: Seq<char>) -> (Seq<char>, Seq<char>, bool) {
    let ts = split_on(s, '/');
    if s.len() == 0 || ts.len() != 2 {
        (Seq::empty(), Seq::empty(), false)
    } else if positive_i32(ts[0]) && positive_i32(ts[1]) {
        (ts[0], ts[1], true)
    } else {
        (Seq::empty(), Seq::empty(), false)
    }
}

/// Reads a rate trigger of the form `[packet num]/[seconds]`.
pub fn parse_trigger(trigger_str: &String) -> (r: (String, String, bool))
    ensures
        (r.0@, r.1@, r.2) == trigger_parts(trigger_str@),
{
    let s = chars_of(trigger_str.as_str());
    if s.len() == 0 {
        return (String::new(), String::new(), false);
    }
    let ts = split_chars(&s, '/');
    proof { lemma_split_on_nonempty(s@, '/'); }
    if ts.len() != 2 {
        return (String::new(), String::new(), false);
    }
    assert(ts@[0]@ == split_on(s@, '/')[0]);
    assert(ts@[1]@ == split_on(s@, '/')[1]);
    let first = match parse_i32(&ts[0]) {
        Some(v) => v,
        None => -1,
    };
    let second = match parse_i32(&ts[1]) {
        Some(v) => v,
        None => -1,
    };
    if first > 0 && second > 0 {
        (string_of(&ts[0]), string_of(&ts[1]), true)
    } else {
        (String::new(), String::new(), false)
    }
}


/// A valid trigger is its packet count and its seconds joined by `/`; an invalid one gives
/// two empty texts.
pub proof fn law_trigger_round_trip(s: Seq<char>)
    ensures
        trigger_parts(s).2 ==> trigger_parts(s).0 + seq!['/'] + trigger_parts(s).1 == s,
        !trigger_parts(s).2 ==> trigger_parts(s).0.len() == 0 && trigger_parts(s).1.len() == 0,
{
    let ts = split_on(s, '/');
    if trigger_parts(s).2 {
        lemma_split_on_joined(s, '/');
        assert(ts.drop_last().len() == 1);
        assert(joined(ts.drop_last(), '/') == ts[0]);
        assert(joined(ts, '/') == ts[0] + seq!['/'] + ts[1]);
    }
}


/// What removing the entry of key `k` keeps: every other entry, in order, and distinct keys
/// where they were distinct.
pub proof fn lemma_without_key(s: Seq<(Cidr, u32)>, k: Cidr)
    ensures
        forall|e: (Cidr, u32)| without_key(s, k).contains(e) <==> (s.contains(e) && e.0 != k),
        keys_distinct(s) ==> keys_distinct(without_key(s, k)),
    decreases s.len(),
{
    if s.len() > 0 {
        let t = s.drop_last();
        lemma_without_key(t, k);
        assert forall|e: (Cidr, u32)| without_key(s, k).contains(e) <==> (s.contains(e) && e.0 != k) by {
            lemma_contains_last(s, e);
            if s.last().0 != k {
                lemma_contains_last(without_key(s, k), e);
                assert(without_key(s, k).drop_last() =~= without_key(t, k));
            }
        }
        if keys_distinct(s) {
            assert(keys_distinct(t)) by {
                assert forall|i: int, j: int| 0 <= i < j < t.len() implies t[i].0 != t[j].0 by {
                    assert(s[i] == t[i] && s[j] == t[j]);
                }
            }
            if s.last().0 != k {
                let w = without_key(s, k);
                let wt = without_key(t, k);
                assert forall|i: int, j: int| 0 <= i < j < w.len() implies w[i].0 != w[j].0 by {
                    if j < w.len() - 1 {
                        assert(w[i] == wt[i] && w[j] == wt[j]);
                    } else {
                        assert(wt.contains(w[i]));
                        assert(t.contains(w[i]));
                        let m = choose|m: int| 0 <= m < t.len() && t[m] == w[i];
                        assert(s[m] == t[m]);
                        assert(s[s.len() - 1].0 != s[m].0);
                    }
                }
            }
        }
    }
}

/// Whether `v` holds `c`.
pub fn contains_cidr(v: &Vec<Cidr>, c: &Cidr) -> (r: bool)
    ensures
        r == v@.contains(*c),
{
    let mut i: usize = 0;
    while i < v.len()
        invariant
            i <= v.len(),
            forall|k: int| 0 <= k < i ==> v@[k] != *c,
        decreases v.len() - i,
    {
        if v[i] == *c {
            assert(v@[i as int] == *c);
            return true;
        }
        i = i + 1;
    }
    false
}

/// Whether `v` holds `p`.
pub fn contains_port(v: &Vec<u16>, p: u16) -> (r: bool)
    ensures
        r == v@.contains(p),
{
    let mut i: usize = 0;
    while i < v.len()
        invariant
            i <= v.len(),
            forall|k: int| 0 <= k < i ==> v@[k] != p,
        decreases v.len() - i,
    {
        if v[i] == p {
            assert(v@[i as int] == p);
            return true;
        }
        i = i + 1;
    }
    false
}

/// Adds `x` to the end of `s` where it is not in `s` yet: it is then in `s` once.
pub proof fn lemma_with_item<T>(s: Seq<T>, x: T)
    ensures
        forall|y: T| with_item(s, x).contains(y) <==> (s.contains(y) || y == x),
        s.no_duplicates() ==> with_item(s, x).no_duplicates(),
{
    if !s.contains(x) {
        let w = s.push(x);
        assert forall|y: T| w.contains(y) <==> (s.contains(y) || y == x) by {
            lemma_contains_last(w, y);
            assert(w.drop_last() =~= s);
        }
        if s.no_duplicates() {
            assert forall|i: int, j: int| 0 <= i < w.len() && 0 <= j < w.len() && i != j
                implies w[i] != w[j] by {
                if i < s.len() && j < s.len() {
                    assert(w[i] == s[i] && w[j] == s[j]);
                } else if i == s.len() {
                    assert(w[j] == s[j]);
                } else {
                    assert(w[i] == s[i]);
                }
            }
        }
    }
}

/// Adds `c` to `v` where `v` does not hold it yet.
pub fn insert_cidr(v: &mut Vec<Cidr>, c: Cidr)
    ensures
        final(v)@ == with_item(old(v)@, c),
{
    if !contains_cidr(v, &c) {
        v.push(c);
    }
}

/// Adds `p` to `v` where `v` does not hold it yet.
pub fn insert_port(v: &mut Vec<u16>, p: u16)
    ensures
        final(v)@ == with_item(old(v)@, p),
{
    if !contains_port(v, p) {
        v.push(p);
    }
}

/// Removes `c` from `v`.
pub fn remove_cidr(v: &mut Vec<Cidr>, c: &Cidr)
    ensures
        final(v)@ == without(old(v)@, *c),
{
    let mut kept: Vec<Cidr> = Vec::new();
    let mut i: usize = 0;
    while i < v.len()
        invariant
            i <= v.len(),
            kept@ == without(v@.take(i as int), *c),
        decreases v.len() - i,
    {
        assert(v@.take(i + 1).drop_last() == v@.take(i as int));
        if v[i] != *c {
            kept.push(v[i]);
        }
        i = i + 1;
    }
    assert(v@.take(v.len() as int) == v@);
    *v = kept;
}

/// Removes the entry of key `c` from `v`.
pub fn remove_key(v: &mut Vec<(Cidr, u32)>, c: &Cidr)
    ensures
        final(v)@ == without_key(old(v)@, *c),
{
    let mut kept: Vec<(Cidr, u32)> = Vec::new();
    let mut i: usize = 0;
    while i < v.len()
        invariant
            i <= v.len(),
            kept@ == without_key(v@.take(i as int), *c),
        decreases v.len() - i,
    {
        assert(v@.take(i + 1).drop_last() == v@.take(i as int));
        let e = v[i];
        if e.0 != *c {
            kept.push(e);
        }
        i = i + 1;
    }
    assert(v@.take(v.len() as int) == v@);
    *v = kept;
}


/// The rules that let a whitelisted IPv4 block in and count its traffic; none for IPv6.
pub open spec fn whitelist_rules(ip: Cidr) -> Seq<TableOpView> {
    let t = cidr_text(ip);
    if ip is V4 {
        seq![
            TableOpView::InsertUnique { chain: BANDWIDTH_IN_CHAIN@, rule: " -s "@ + t + " -j RETURN"@, position: 1 },
            TableOpView::InsertUnique { chain: BANDWIDTH_OUT_CHAIN@, rule: " -d "@ + t + " -j RETURN"@, position: 1 },
            TableOpView::InsertUnique { chain: PROTECT_CHAIN@, rule: " -s "@ + t + " -j ACCEPT"@, position: 1 },
        ]
    } else {
        Seq::empty()
    }
}

/// The deletions of the rules of a whitelisted block.
pub open spec fn whitelist_removals(ip: Cidr) -> Seq<TableOpView> {
    let t = cidr_text(ip);
    seq![
        TableOpView::Delete { chain: BANDWIDTH_IN_CHAIN@, rule: " -s "@ + t + " -j RETURN"@ },
        TableOpView::Delete { chain: BANDWIDTH_OUT_CHAIN@, rule: " -d "@ + t + " -j RETURN"@ },
        TableOpView::Delete { chain: PROTECT_CHAIN@, rule: " -s "@ + t + " -j ACCEPT"@ },
    ]
}

/// The rule that refuses a blacklisted IPv4 block with `deny`; none for IPv6.
pub open spec fn blacklist_rules(ip: Cidr, deny: Seq<char>) -> Seq<TableOpView> {
    if ip is V4 {
        seq![TableOpView::AppendUnique { chain: BLACKLIST_CHAIN@, rule: " -s "@ + cidr_text(ip) + " -j "@ + deny }]
    } else {
        Seq::empty()
    }
}

/// The deletion of the rule of a blacklisted block.
pub open spec fn blacklist_removals(ip: Cidr, deny: Seq<char>) -> Seq<TableOpView> {
    seq![TableOpView::Delete { chain: BLACKLIST_CHAIN@, rule: " -s "@ + cidr_text(ip) + " -j "@ + deny }]
}

/// The state of a new service: nothing listed, refused packets dropped, no rate trigger.
pub open spec fn initial_state() -> FilterState {
    FilterState {
        whitelisted_ips: Seq::empty(),
        blacklisted_ips: Seq::empty(),
        whitelisted_ports: Seq::empty(),
        blacklisted_ports: Seq::empty(),
        packets_per_ip: Seq::empty(),
        auto_add_threshold: 0,
        deny_action: "DROP"@,
        rate_trigger: ""@,
    }
}

impl FilterState {
    /// Each set holds each item once, each listed block is well formed, each address has one
    /// packet count, and refused packets are dropped or rejected.
    pub open spec fn wf(self) -> bool {
        &&& forall|c: Cidr| self.whitelisted_ips.contains(c) ==> c.wf()
        &&& forall|c: Cidr| self.blacklisted_ips.contains(c) ==> c.wf()
        &&& (self.deny_action == "DROP"@ || self.deny_action == "REJECT"@)
        &&& self.whitelisted_ips.no_duplicates()
        &&& self.blacklisted_ips.no_duplicates()
        &&& self.whitelisted_ports.no_duplicates()
        &&& self.blacklisted_ports.no_duplicates()
        &&& keys_distinct(self.packets_per_ip)
    }
}

impl FilterService {
    /// A service with nothing listed, that drops refused packets and has no rate trigger.
    pub fn new() -> (s: FilterService)
        ensures
            s@ == initial_state(),
            s@.wf(),
    {
        FilterService {
            whitelisted_ips: Vec::new(),
            blacklisted_ips: Vec::new(),
            whitelisted_ports: Vec::new(),
            blacklisted_ports: Vec::new(),
            packets_per_ip: Vec::new(),
            auto_add_threshold: 0,
            deny_action: "DROP".to_string(),
            rate_trigger: "".to_string(),
        }
    }

    /// Puts the service back in the state of a new one.
    pub fn init(&mut self)
        ensures
            final(self)@ == initial_state(),
            final(self)@.wf(),
    {
        *self = FilterService::new();
    }

    /// Whitelists `ip`, and gives the rules that let it in (IPv4 only).
    pub fn add_whitelisted_ip(&mut self, ip: Cidr) -> (ops: Vec<TableOp>)
        requires
            old(self)@.wf(),
            ip.wf(),
        ensures
            final(self)@ == (FilterState { whitelisted_ips: with_item(old(self)@.whitelisted_ips, ip), ..old(self)@ }),
            final(self)@.wf(),
            ops_view(ops@) == whitelist_rules(ip),
    {
        proof { lemma_with_item(self.whitelisted_ips@, ip); }
        insert_cidr(&mut self.whitelisted_ips, ip);
        let mut ops: Vec<TableOp> = Vec::new();
        if ip.is_v4() {
            ops.push(insert_op(BANDWIDTH_IN_CHAIN, cidr_rule(" -s ", &ip, " -j RETURN")));
            ops.push(insert_op(BANDWIDTH_OUT_CHAIN, cidr_rule(" -d ", &ip, " -j RETURN")));
            ops.push(insert_op(PROTECT_CHAIN, cidr_rule(" -s ", &ip, " -j ACCEPT")));
        }
        assert(ops_view(ops@) =~= whitelist_rules(ip));
        ops
    }

    /// Takes `ip` off the whitelist and forgets its packet count, and gives the deletions of
    /// its rules.
    pub fn del_whitelisted_ip(&mut self, ip: Cidr) -> (ops: Vec<TableOp>)
        requires
            old(self)@.wf(),
        ensures
            final(self)@ == (FilterState {
                whitelisted_ips: without(old(self)@.whitelisted_ips, ip),
                packets_per_ip: without_key(old(self)@.packets_per_ip, ip),
                ..old(self)@
            }),
            final(self)@.wf(),
            ops_view(ops@) == whitelist_removals(ip),
    {
        proof {
            lemma_without(self.whitelisted_ips@, ip);
            lemma_without_key(self.packets_per_ip@, ip);
        }
        remove_cidr(&mut self.whitelisted_ips, &ip);
        remove_key(&mut self.packets_per_ip, &ip);
        let mut ops: Vec<TableOp> = Vec::new();
        ops.push(delete_op(BANDWIDTH_IN_CHAIN, cidr_rule(" -s ", &ip, " -j RETURN")));
        ops.push(delete_op(BANDWIDTH_OUT_CHAIN, cidr_rule(" -d ", &ip, " -j RETURN")));
        ops.push(delete_op(PROTECT_CHAIN, cidr_rule(" -s ", &ip, " -j ACCEPT")));
        assert(ops_view(ops@) =~= whitelist_removals(ip));
        ops
    }

    /// Blacklists `ip`, and gives the rule that refuses it (IPv4 only).
    pub fn add_blacklisted_ip(&mut self, ip: Cidr) -> (ops: Vec<TableOp>)
        requires
            old(self)@.wf(),
            ip.wf(),
        ensures
            final(self)@ == (FilterState { blacklisted_ips: with_item(old(self)@.blacklisted_ips, ip), ..old(self)@ }),
            final(self)@.wf(),
            ops_view(ops@) == blacklist_rules(ip, old(self)@.deny_action),
    {
        proof { lemma_with_item(self.blacklisted_ips@, ip); }
        insert_cidr(&mut self.blacklisted_ips, ip);
        let mut ops: Vec<TableOp> = Vec::new();
        if ip.is_v4() {
            ops.push(append_op(BLACKLIST_CHAIN, cidr_rule_to(" -s ", &ip, " -j ", self.deny_action.as_str())));
        }
        assert(ops_view(ops@) =~= blacklist_rules(ip, self.deny_action@));
        ops
    }

    /// Takes `ip` off the blacklist and forgets its packet count, and gives the deletion of
    /// its rule.
    pub fn del_blacklisted_ip(&mut self, ip: Cidr) -> (ops: Vec<TableOp>)
        requires
            old(self)@.wf(),
        ensures
            final(self)@ == (FilterState {
                blacklisted_ips: without(old(self)@.blacklisted_ips, ip),
                packets_per_ip: without_key(old(self)@.packets_per_ip, ip),
                ..old(self)@
            }),
            final(self)@.wf(),
            ops_view(ops@) == blacklist_removals(ip, old(self)@.deny_action),
    {
        proof {
            lemma_without(self.blacklisted_ips@, ip);
            lemma_without_key(self.packets_per_ip@, ip);
        }
        remove_cidr(&mut self.blacklisted_ips, &ip);
        remove_key(&mut self.packets_per_ip, &ip);
        let mut ops: Vec<TableOp> = Vec::new();
        ops.push(delete_op(BLACKLIST_CHAIN, cidr_rule_to(" -s ", &ip, " -j ", self.deny_action.as_str())));
        assert(ops_view(ops@) =~= blacklist_removals(ip, self.deny_action@));
        ops
    }
}


/// The deletions that take the service's chains out of the `filter` table.
pub open spec fn clear_ops() -> Seq<TableOpView> {
    seq![
        TableOpView::Delete { chain: "INPUT"@, rule: "-j "@ + BANDWIDTH_IN_CHAIN@ },
        TableOpView::Delete { chain: "OUTPUT"@, rule: "-j "@ + BANDWIDTH_OUT_CHAIN@ },
        TableOpView::Delete { chain: "INPUT"@, rule: "-j "@ + PROTECT_CHAIN@ },
        TableOpView::Delete { chain: "INPUT"@, rule: "-j "@ + BLACKLIST_CHAIN@ },
        TableOpView::FlushChain { chain: PROTECT_CHAIN@ },
        TableOpView::DeleteChain { chain: PROTECT_CHAIN@ },
        TableOpView::FlushChain { chain: BLACKLIST_CHAIN@ },
        TableOpView::DeleteChain { chain: BLACKLIST_CHAIN@ },
        TableOpView::FlushChain { chain: BANDWIDTH_IN_CHAIN@ },
        TableOpView::DeleteChain { chain: BANDWIDTH_IN_CHAIN@ },
        TableOpView::FlushChain { chain: BANDWIDTH_OUT_CHAIN@ },
        TableOpView::DeleteChain { chain: BANDWIDTH_OUT_CHAIN@ },
    ]
}

/// The chains the service makes, and the jumps into them from `INPUT` and `OUTPUT`.
pub open spec fn chain_setup_ops() -> Seq<TableOpView> {
    seq![
        TableOpView::NewChain { chain: PROTECT_CHAIN@ },
        TableOpView::NewChain { chain: BLACKLIST_CHAIN@ },
        TableOpView::NewChain { chain: BANDWIDTH_IN_CHAIN@ },
        TableOpView::NewChain { chain: BANDWIDTH_OUT_CHAIN@ },
        TableOpView::AppendUnique { chain: "INPUT"@, rule: "-j "@ + BANDWIDTH_IN_CHAIN@ },
        TableOpView::AppendUnique { chain: "OUTPUT"@, rule: "-j "@ + BANDWIDTH_OUT_CHAIN@ },
        TableOpView::AppendUnique { chain: "INPUT"@, rule: "-j "@ + BLACKLIST_CHAIN@ },
        TableOpView::AppendUnique { chain: "INPUT"@, rule: "-j "@ + PROTECT_CHAIN@ },
    ]
}

/// The rules that let the host's own IPv4 addresses in.
pub open spec fn local_rules(addrs: Seq<IpAddress>) -> Seq<TableOpView>
    decreases addrs.len(),
{
    if addrs.len() == 0 {
        Seq::empty()
    } else {
        local_rules(addrs.drop_last()) + match addrs.last() {
            IpAddress::V4(a) => seq![TableOpView::AppendUnique { chain: PROTECT_CHAIN@, rule: "-s "@ + ipv4_text(a) + " -j ACCEPT"@ }],
            IpAddress::V6(_) => Seq::empty(),
        }
    }
}

/// The rules of each whitelisted block, in order.
pub open spec fn all_whitelist_rules(ips: Seq<Cidr>) -> Seq<TableOpView>
    decreases ips.len(),
{
    if ips.len() == 0 {
        Seq::empty()
    } else {
        all_whitelist_rules(ips.drop_last()) + whitelist_rules(ips.last())
    }
}

/// The rules of each blacklisted block, in order.
pub open spec fn all_blacklist_rules(ips: Seq<Cidr>, deny: Seq<char>) -> Seq<TableOpView>
    decreases ips.len(),
{
    if ips.len() == 0 {
        Seq::empty()
    } else {
        all_blacklist_rules(ips.drop_last(), deny) + blacklist_rules(ips.last(), deny)
    }
}

/// The rules that let TCP and UDP traffic to and from a whitelisted port through.
pub open spec fn allow_port_rules(p: u16) -> Seq<TableOpView> {
    let d = decimal(p as nat);
    seq![
        TableOpView::AppendUnique { chain: PROTECT_CHAIN@, rule: "-p tcp --dport "@ + d + " -j ACCEPT"@ },
        TableOpView::AppendUnique { chain: PROTECT_CHAIN@, rule: "-p udp --dport "@ + d + " -j ACCEPT"@ },
        TableOpView::AppendUnique { chain: PROTECT_CHAIN@, rule: "-p tcp --sport "@ + d + " -j ACCEPT"@ },
        TableOpView::AppendUnique { chain: PROTECT_CHAIN@, rule: "-p udp --sport "@ + d + " -j ACCEPT"@ },
    ]
}

/// The rules of each whitelisted port, in order.
pub open spec fn all_allow_port_rules(ports: Seq<u16>) -> Seq<TableOpView>
    decreases ports.len(),
{
    if ports.len() == 0 {
        Seq::empty()
    } else {
        all_allow_port_rules(ports.drop_last()) + allow_port_rules(ports.last())
    }
}

/// The rules that guard a protected port: log and refuse TCP and UDP traffic to it, and
/// with a valid rate trigger (packets `n` within `t` seconds) log the traffic that passes it.
pub open spec fn ban_port_rules(p: u16, n: Seq<char>, t: Seq<char>, valid: bool, deny: Seq<char>) -> Seq<TableOpView> {
    let d = decimal(p as nat);
    seq![
        TableOpView::AppendUnique { chain: PROTECT_CHAIN@, rule: "-p tcp --dport "@ + d + " -j NFLOG --nflog-group 100 --nflog-prefix "@ + PREFIX_DEFAULT@ },
        TableOpView::AppendUnique { chain: PROTECT_CHAIN@, rule: "-p udp --dport "@ + d + " -j NFLOG --nflog-group 100 --nflog-prefix "@ + PREFIX_DEFAULT@ },
    ] + (if valid {
        seq![
            TableOpView::AppendUnique { chain: PROTECT_CHAIN@, rule: "-p tcp --dport "@ + d + " -m recent --name "@ + d + "TRIGGER --set"@ },
            TableOpView::AppendUnique { chain: PROTECT_CHAIN@, rule: "-p tcp --dport "@ + d + " -m recent --name "@ + d
                + "TRIGGER --rcheck --seconds "@ + t + " --hitcount "@ + n + " -j NFLOG --nflog-group 100 --nflog-prefix  "@ + PREFIX_TRIGGER@ },
        ]
    } else {
        Seq::empty()
    }) + seq![
        TableOpView::AppendUnique { chain: PROTECT_CHAIN@, rule: "-p tcp --dport "@ + d + " -j "@ + deny },
        TableOpView::AppendUnique { chain: PROTECT_CHAIN@, rule: "-p udp --dport "@ + d + " -j "@ + deny },
    ]
}

/// The rules of each protected port, in order.
pub open spec fn all_ban_port_rules(ports: Seq<u16>, n: Seq<char>, t: Seq<char>, valid: bool, deny: Seq<char>) -> Seq<TableOpView>
    decreases ports.len(),
{
    if ports.len() == 0 {
        Seq::empty()
    } else {
        all_ban_port_rules(ports.drop_last(), n, t, valid, deny) + ban_port_rules(ports.last(), n, t, valid, deny)
    }
}

/// The rules that protect the host: the protected ports where there are any, else every port.
pub open spec fn protection_rules(st: FilterState) -> Seq<TableOpView> {
    let trig = trigger_parts(st.rate_trigger);
    if st.blacklisted_ports.len() > 0 {
        all_ban_port_rules(st.blacklisted_ports, trig.0, trig.1, trig.2, st.deny_action)
    } else {
        seq![TableOpView::AppendUnique { chain: PROTECT_CHAIN@, rule: "-j "@ + st.deny_action }]
    }
}

/// Everything that sets up the tables for a state, given the host's own addresses.
pub open spec fn init_ops(st: FilterState, local: Seq<IpAddress>) -> Seq<TableOpView> {
    chain_setup_ops() + local_rules(local)
        + seq![TableOpView::AppendUnique { chain: PROTECT_CHAIN@, rule: "-p icmp -j ACCEPT"@ }]
        + all_whitelist_rules(st.whitelisted_ips) + all_blacklist_rules(st.blacklisted_ips, st.deny_action)
        + all_allow_port_rules(st.whitelisted_ports) + protection_rules(st)
}

/// `a` followed by the name of `chain`.
fn chain_rule(a: &str, chain: &str) -> (r: String)
    ensures
        r@ == a@ + chain@,
{
    let mut r = String::new();
    push_all(&mut r, a);
    push_all(&mut r, chain);
    assert(r@ =~= a@ + chain@);
    r
}

/// `a`, the decimal text of `p`, then `b`.
fn port_rule(a: &str, p: u16, b: &str) -> (r: String)
    ensures
        r@ == a@ + decimal(p as nat) + b@,
{
    let mut r = String::new();
    push_all(&mut r, a);
    push_decimal(&mut r, p as u64);
    push_all(&mut r, b);
    assert(r@ =~= a@ + decimal(p as nat) + b@);
    r
}

fn chain_setup() -> (ops: Vec<TableOp>)
    ensures
        ops_view(ops@) == chain_setup_ops(),
{
    let mut ops: Vec<TableOp> = Vec::new();
    ops.push(TableOp::NewChain { chain: PROTECT_CHAIN.to_string() });
    ops.push(TableOp::NewChain { chain: BLACKLIST_CHAIN.to_string() });
    ops.push(TableOp::NewChain { chain: BANDWIDTH_IN_CHAIN.to_string() });
    ops.push(TableOp::NewChain { chain: BANDWIDTH_OUT_CHAIN.to_string() });
    ops.push(append_op("INPUT", chain_rule("-j ", BANDWIDTH_IN_CHAIN)));
    ops.push(append_op("OUTPUT", chain_rule("-j ", BANDWIDTH_OUT_CHAIN)));
    ops.push(append_op("INPUT", chain_rule("-j ", BLACKLIST_CHAIN)));
    ops.push(append_op("INPUT", chain_rule("-j ", PROTECT_CHAIN)));
    assert(ops_view(ops@) =~= chain_setup_ops());
    ops
}

fn local_accepts(local: &Vec<IpAddress>) -> (ops: Vec<TableOp>)
    ensures
        ops_view(ops@) == local_rules(local@),
{
    let mut ops: Vec<TableOp> = Vec::new();
    let mut i: usize = 0;
    while i < local.len()
        invariant
            i <= local.len(),
            ops_view(ops@) == local_rules(local@.take(i as int)),
        decreases local.len() - i,
    {
        assert(local@.take(i + 1).drop_last() == local@.take(i as int));
        let ghost before = ops_view(ops@);
        match local[i] {
            IpAddress::V4(a) => {
                let mut r = String::new();
                push_all(&mut r, "-s ");
                push_ipv4(&mut r, a);
                push_all(&mut r, " -j ACCEPT");
                ops.push(append_op(PROTECT_CHAIN, r));
            },
            IpAddress::V6(_) => {},
        }
        i = i + 1;
        assert(ops_view(ops@) =~= local_rules(local@.take(i as int)));
    }
    assert(local@.take(local.len() as int) == local@);
    ops
}

fn allow_ports(ports: &Vec<u16>) -> (ops: Vec<TableOp>)
    ensures
        ops_view(ops@) == all_allow_port_rules(ports@),
{
    let mut ops: Vec<TableOp> = Vec::new();
    let mut i: usize = 0;
    while i < ports.len()
        invariant
            i <= ports.len(),
            ops_view(ops@) == all_allow_port_rules(ports@.take(i as int)),
        decreases ports.len() - i,
    {
        assert(ports@.take(i + 1).drop_last() == ports@.take(i as int));
        let p = ports[i];
        ops.push(append_op(PROTECT_CHAIN, port_rule("-p tcp --dport ", p, " -j ACCEPT")));
        ops.push(append_op(PROTECT_CHAIN, port_rule("-p udp --dport ", p, " -j ACCEPT")));
        ops.push(append_op(PROTECT_CHAIN, port_rule("-p tcp --sport ", p, " -j ACCEPT")));
        ops.push(append_op(PROTECT_CHAIN, port_rule("-p udp --sport ", p, " -j ACCEPT")));
        i = i + 1;
        assert(ops_view(ops@) =~= all_allow_port_rules(ports@.take(i as int)));
    }
    assert(ports@.take(ports.len() as int) == ports@);
    ops
}

fn ban_port(p: u16, n: &String, t: &String, valid: bool, deny: &String) -> (ops: Vec<TableOp>)
    ensures
        ops_view(ops@) == ban_port_rules(p, n@, t@, valid, deny@),
{
    let mut ops: Vec<TableOp> = Vec::new();
    let mut r = port_rule("-p tcp --dport ", p, " -j NFLOG --nflog-group 100 --nflog-prefix ");
    push_all(&mut r, PREFIX_DEFAULT);
    ops.push(append_op(PROTECT_CHAIN, r));
    let mut r = port_rule("-p udp --dport ", p, " -j NFLOG --nflog-group 100 --nflog-prefix ");
    push_all(&mut r, PREFIX_DEFAULT);
    ops.push(append_op(PROTECT_CHAIN, r));
    if valid {
        let mut r = port_rule("-p tcp --dport ", p, " -m recent --name ");
        push_decimal(&mut r, p as u64);
        push_all(&mut r, "TRIGGER --set");
        ops.push(append_op(PROTECT_CHAIN, r));
        let mut r = port_rule("-p tcp --dport ", p, " -m recent --name ");
        push_decimal(&mut r, p as u64);
        push_all(&mut r, "TRIGGER --rcheck --seconds ");
        push_all(&mut r, t.as_str());
        push_all(&mut r, " --hitcount ");
        push_all(&mut r, n.as_str());
        push_all(&mut r, " -j NFLOG --nflog-group 100 --nflog-prefix  ");
        push_all(&mut r, PREFIX_TRIGGER);
        ops.push(append_op(PROTECT_CHAIN, r));
    }
    let mut r = port_rule("-p tcp --dport ", p, " -j ");
    push_all(&mut r, deny.as_str());
    ops.push(append_op(PROTECT_CHAIN, r));
    let mut r = port_rule("-p udp --dport ", p, " -j ");
    push_all(&mut r, deny.as_str());
    ops.push(append_op(PROTECT_CHAIN, r));
    assert(ops_view(ops@) =~= ban_port_rules(p, n@, t@, valid, deny@));
    ops
}

fn ban_ports(ports: &Vec<u16>, n: &String, t: &String, valid: bool, deny: &String) -> (ops: Vec<TableOp>)
    ensures
        ops_view(ops@) == all_ban_port_rules(ports@, n@, t@, valid, deny@),
{
    let mut ops: Vec<TableOp> = Vec::new();
    let mut i: usize = 0;
    while i < ports.len()
        invariant
            i <= ports.len(),
            ops_view(ops@) == all_ban_port_rules(ports@.take(i as int), n@, t@, valid, deny@),
        decreases ports.len() - i,
    {
        assert(ports@.take(i + 1).drop_last() == ports@.take(i as int));
        let more = ban_port(ports[i], n, t, valid, deny);
        push_ops(&mut ops, more);
        i = i + 1;
    }
    assert(ports@.take(ports.len() as int) == ports@);
    ops
}


fn whitelist_ops(ip: &Cidr) -> (ops: Vec<TableOp>)
    ensures
        ops_view(ops@) == whitelist_rules(*ip),
{
    let mut ops: Vec<TableOp> = Vec::new();
    if ip.is_v4() {
        ops.push(insert_op(BANDWIDTH_IN_CHAIN, cidr_rule(" -s ", ip, " -j RETURN")));
        ops.push(insert_op(BANDWIDTH_OUT_CHAIN, cidr_rule(" -d ", ip, " -j RETURN")));
        ops.push(insert_op(PROTECT_CHAIN, cidr_rule(" -s ", ip, " -j ACCEPT")));
    }
    assert(ops_view(ops@) =~= whitelist_rules(*ip));
    ops
}

fn blacklist_ops(ip: &Cidr, deny: &String) -> (ops: Vec<TableOp>)
    ensures
        ops_view(ops@) == blacklist_rules(*ip, deny@),
{
    let mut ops: Vec<TableOp> = Vec::new();
    if ip.is_v4() {
        ops.push(append_op(BLACKLIST_CHAIN, cidr_rule_to(" -s ", ip, " -j ", deny.as_str())));
    }
    assert(ops_view(ops@) =~= blacklist_rules(*ip, deny@));
    ops
}

/// `s` with each item of `xs` added in turn.
pub open spec fn with_all<T>(s: Seq<T>, xs: Seq<T>) -> Seq<T>
    decreases xs.len(),
{
    if xs.len() == 0 {
        s
    } else {
        with_item(with_all(s, xs.drop_last()), xs.last())
    }
}

/// Whether every text of `texts` is a CIDR block.
pub open spec fn all_parse(texts: Seq<String>) -> bool {
    forall|i: int| 0 <= i < texts.len() ==> cidr_parse(#[trigger] texts[i]@) is Ok
}

/// The blocks that `texts` read as.
pub open spec fn parsed_all(texts: Seq<String>) -> Seq<Cidr> {
    texts.map_values(|t: String| cidr_parse(t@)->Ok_0)
}

/// The state after loading `config` into `st`: the configured addresses and ports are added to
/// the lists (the listening port is let through unless the service sits behind a reverse
/// proxy), and the settings are taken over.
pub open spec fn loaded_state(st: FilterState, config: Config) -> FilterState {
    let fl = config.filterlist;
    let allowed = with_all(st.whitelisted_ports, fl.allow_ports@);
    FilterState {
        whitelisted_ips: with_all(st.whitelisted_ips, parsed_all(fl.allow_ips@)),
        blacklisted_ips: with_all(st.blacklisted_ips, parsed_all(fl.ban_ips@)),
        whitelisted_ports: if config.reverse_proxy { allowed } else { with_item(allowed, config.listen_port) },
        blacklisted_ports: with_all(st.blacklisted_ports, fl.ban_ports@),
        packets_per_ip: st.packets_per_ip,
        auto_add_threshold: fl.auto_add_threshold,
        deny_action: if fl.reject { "REJECT"@ } else { "DROP"@ },
        rate_trigger: fl.rate_trigger@,
    }
}

/// Adds each block that `texts` read as to `v`.
fn insert_parsed(v: &mut Vec<Cidr>, texts: &Vec<String>)
    requires
        all_parse(texts@),
        old(v)@.no_duplicates(),
        forall|c: Cidr| old(v)@.contains(c) ==> c.wf(),
    ensures
        final(v)@ == with_all(old(v)@, parsed_all(texts@)),
        final(v)@.no_duplicates(),
        forall|c: Cidr| final(v)@.contains(c) ==> c.wf(),
{
    let ghost start = v@;
    let ghost all = parsed_all(texts@);
    let mut i: usize = 0;
    while i < texts.len()
        invariant
            i <= texts.len(),
            all_parse(texts@),
            all == parsed_all(texts@),
            v@ == with_all(start, all.take(i as int)),
            v@.no_duplicates(),
            forall|c: Cidr| v@.contains(c) ==> c.wf(),
        decreases texts.len() - i,
    {
        assert(cidr_parse(texts@[i as int]@) is Ok);
        let c = match parse_cidr(texts[i].as_str()) {
            Ok(c) => c,
            Err(_) => { assert(false); return; },
        };
        proof { lemma_with_item(v@, c); }
        insert_cidr(v, c);
        i = i + 1;
        assert(all.take(i as int).drop_last() =~= all.take(i - 1));
    }
    assert(all.take(texts.len() as int) =~= all);
}

/// Adds each port of `ports` to `v`.
fn insert_ports(v: &mut Vec<u16>, ports: &Vec<u16>)
    requires
        old(v)@.no_duplicates(),
    ensures
        final(v)@ == with_all(old(v)@, ports@),
        final(v)@.no_duplicates(),
{
    let ghost start = v@;
    let mut i: usize = 0;
    while i < ports.len()
        invariant
            i <= ports.len(),
            v@ == with_all(start, ports@.take(i as int)),
            v@.no_duplicates(),
        decreases ports.len() - i,
    {
        proof { lemma_with_item(v@, ports@[i as int]); }
        insert_port(v, ports[i]);
        i = i + 1;
        assert(ports@.take(i as int).drop_last() =~= ports@.take(i - 1));
    }
    assert(ports@.take(ports.len() as int) =~= ports@);
}

/// The first parse error among `texts`, if any.
pub fn first_parse_error(texts: &Vec<String>) -> (r: Option<CidrError>)
    ensures
        r is None <==> all_parse(texts@),
        r matches Some(e) ==> exists|i: int| 0 <= i < texts@.len() && cidr_parse(#[trigger] texts@[i]@) == Err::<Cidr, CidrError>(e),
{
    let mut i: usize = 0;
    while i < texts.len()
        invariant
            i <= texts.len(),
            forall|k: int| 0 <= k < i ==> cidr_parse(#[trigger] texts@[k]@) is Ok,
        decreases texts.len() - i,
    {
        match parse_cidr(texts[i].as_str()) {
            Ok(_) => {},
            Err(e) => {
                assert(cidr_parse(texts@[i as int]@) == Err::<Cidr, CidrError>(e));
                return Some(e);
            },
        }
        i = i + 1;
    }
    None
}

impl FilterService {
    /// Everything that sets the tables up for the service: its chains, the host's own IPv4
    /// addresses, ICMP, the listed blocks and ports, and the protection of the host.
    pub fn init_tables(&mut self, local_ips: &Vec<IpAddress>) -> (ops: Vec<TableOp>)
        ensures
            final(self)@ == old(self)@,
            ops_view(ops@) == init_ops(old(self)@, local_ips@),
    {
        let mut ops = chain_setup();
        push_ops(&mut ops, local_accepts(local_ips));
        ops.push(append_op(PROTECT_CHAIN, "-p icmp -j ACCEPT".to_string()));
        let ghost base = ops_view(ops@);
        let mut i: usize = 0;
        while i < self.whitelisted_ips.len()
            invariant
                i <= self.whitelisted_ips.len(),
                ops_view(ops@) == base + all_whitelist_rules(self.whitelisted_ips@.take(i as int)),
            decreases self.whitelisted_ips.len() - i,
        {
            assert(self.whitelisted_ips@.take(i + 1).drop_last() == self.whitelisted_ips@.take(i as int));
            push_ops(&mut ops, whitelist_ops(&self.whitelisted_ips[i]));
            i = i + 1;
        }
        assert(self.whitelisted_ips@.take(self.whitelisted_ips.len() as int) == self.whitelisted_ips@);
        let ghost base = ops_view(ops@);
        let mut i: usize = 0;
        while i < self.blacklisted_ips.len()
            invariant
                i <= self.blacklisted_ips.len(),
                ops_view(ops@) == base + all_blacklist_rules(self.blacklisted_ips@.take(i as int), self.deny_action@),
            decreases self.blacklisted_ips.len() - i,
        {
            assert(self.blacklisted_ips@.take(i + 1).drop_last() == self.blacklisted_ips@.take(i as int));
            push_ops(&mut ops, blacklist_ops(&self.blacklisted_ips[i], &self.deny_action));
            i = i + 1;
        }
        assert(self.blacklisted_ips@.take(self.blacklisted_ips.len() as int) == self.blacklisted_ips@);
        push_ops(&mut ops, allow_ports(&self.whitelisted_ports));
        let ghost before_protection = ops_view(ops@);
        assert(before_protection == chain_setup_ops() + local_rules(local_ips@)
            + seq![TableOpView::AppendUnique { chain: PROTECT_CHAIN@, rule: "-p icmp -j ACCEPT"@ }]
            + all_whitelist_rules(self.whitelisted_ips@) + all_blacklist_rules(self.blacklisted_ips@, self.deny_action@)
            + all_allow_port_rules(self.whitelisted_ports@));
        let (pstr, tstr, valid_trigger) = parse_trigger(&self.rate_trigger);
        if self.blacklisted_ports.len() > 0 {
            push_ops(&mut ops, ban_ports(&self.blacklisted_ports, &pstr, &tstr, valid_trigger, &self.deny_action));
        } else {
            let ghost prev = ops_view(ops@);
            ops.push(append_op(PROTECT_CHAIN, chain_rule("-j ", self.deny_action.as_str())));
            assert(ops_view(ops@) =~= prev + protection_rules(self@));
        }
        assert(ops_view(ops@) =~= before_protection + protection_rules(self@));
        ops
    }

    /// The deletions that take the service's chains out of the table.
    pub fn clear_tables(&self) -> (ops: Vec<TableOp>)
        ensures
            ops_view(ops@) == clear_ops(),
    {
        let mut ops: Vec<TableOp> = Vec::new();
        ops.push(delete_op("INPUT", chain_rule("-j ", BANDWIDTH_IN_CHAIN)));
        ops.push(delete_op("OUTPUT", chain_rule("-j ", BANDWIDTH_OUT_CHAIN)));
        ops.push(delete_op("INPUT", chain_rule("-j ", PROTECT_CHAIN)));
        ops.push(delete_op("INPUT", chain_rule("-j ", BLACKLIST_CHAIN)));
        ops.push(TableOp::FlushChain { chain: PROTECT_CHAIN.to_string() });
        ops.push(TableOp::DeleteChain { chain: PROTECT_CHAIN.to_string() });
        ops.push(TableOp::FlushChain { chain: BLACKLIST_CHAIN.to_string() });
        ops.push(TableOp::DeleteChain { chain: BLACKLIST_CHAIN.to_string() });
        ops.push(TableOp::FlushChain { chain: BANDWIDTH_IN_CHAIN.to_string() });
        ops.push(TableOp::DeleteChain { chain: BANDWIDTH_IN_CHAIN.to_string() });
        ops.push(TableOp::FlushChain { chain: BANDWIDTH_OUT_CHAIN.to_string() });
        ops.push(TableOp::DeleteChain { chain: BANDWIDTH_OUT_CHAIN.to_string() });
        assert(ops_view(ops@) =~= clear_ops());
        ops
    }

    /// Sets the tables up (see `init_tables`).
    pub fn start(&mut self, local_ips: &Vec<IpAddress>) -> (ops: Vec<TableOp>)
        ensures
            final(self)@ == old(self)@,
            ops_view(ops@) == init_ops(old(self)@, local_ips@),
    {
        self.init_tables(local_ips)
    }

    /// Empties the whitelist and the packet counts, and gives the changes that take the tables
    /// down and set them up again.
    pub fn reset_whitelist(&mut self, local_ips: &Vec<IpAddress>) -> (ops: Vec<TableOp>)
        requires
            old(self)@.wf(),
        ensures
            final(self)@ == (FilterState { whitelisted_ips: Seq::empty(), packets_per_ip: Seq::empty(), ..old(self)@ }),
            final(self)@.wf(),
            ops_view(ops@) == clear_ops() + init_ops(final(self)@, local_ips@),
    {
        self.whitelisted_ips = Vec::new();
        self.packets_per_ip = Vec::new();
        let mut ops = self.clear_tables();
        push_ops(&mut ops, self.start(local_ips));
        ops
    }

    /// Empties the packet counts, and gives the changes that take the tables down and set them
    /// up again.
    pub fn reset_table(&mut self, local_ips: &Vec<IpAddress>) -> (ops: Vec<TableOp>)
        requires
            old(self)@.wf(),
        ensures
            final(self)@ == (FilterState { packets_per_ip: Seq::empty(), ..old(self)@ }),
            final(self)@.wf(),
            ops_view(ops@) == clear_ops() + init_ops(final(self)@, local_ips@),
    {
        self.packets_per_ip = Vec::new();
        let mut ops = self.clear_tables();
        push_ops(&mut ops, self.start(local_ips));
        ops
    }

    /// Takes the lists and settings of `config` over (see `loaded_state`). Every configured
    /// address must be a CIDR block.
    pub fn load_config(&mut self, config: &Config)
        requires
            old(self)@.wf(),
            all_parse(config.filterlist.allow_ips@),
            all_parse(config.filterlist.ban_ips@),
        ensures
            final(self)@ == loaded_state(old(self)@, *config),
            final(self)@.wf(),
    {
        insert_parsed(&mut self.whitelisted_ips, &config.filterlist.allow_ips);
        insert_parsed(&mut self.blacklisted_ips, &config.filterlist.ban_ips);
        insert_ports(&mut self.whitelisted_ports, &config.filterlist.allow_ports);
        if !config.reverse_proxy {
            proof { lemma_with_item(self.whitelisted_ports@, config.listen_port); }
            insert_port(&mut self.whitelisted_ports, config.listen_port);
        }
        insert_ports(&mut self.blacklisted_ports, &config.filterlist.ban_ports);
        self.auto_add_threshold = config.filterlist.auto_add_threshold;
        if config.filterlist.reject {
            self.deny_action = "REJECT".to_string();
        } else {
            self.deny_action = "DROP".to_string();
        }
        self.rate_trigger = config.filterlist.rate_trigger.clone();
    }

    /// Loads `config` where every configured address is a CIDR block; else leaves the service
    /// as it is and gives the error of the first address that is none (allowed addresses
    /// first, then banned ones).
    pub fn try_load_config(&mut self, config: &Config) -> (r: Result<(), CidrError>)
        requires
            old(self)@.wf(),
        ensures
            final(self)@.wf(),
            r is Ok <==> (all_parse(config.filterlist.allow_ips@) && all_parse(config.filterlist.ban_ips@)),
            r is Ok ==> final(self)@ == loaded_state(old(self)@, *config),
            r is Err ==> final(self)@ == old(self)@,
            r matches Err(e) ==> (exists|i: int| 0 <= i < config.filterlist.allow_ips@.len()
                && cidr_parse(#[trigger] config.filterlist.allow_ips@[i]@) == Err::<Cidr, CidrError>(e))
                || (all_parse(config.filterlist.allow_ips@) && exists|i: int| 0 <= i < config.filterlist.ban_ips@.len()
                && cidr_parse(#[trigger] config.filterlist.ban_ips@[i]@) == Err::<Cidr, CidrError>(e)),
    {
        if let Some(e) = first_parse_error(&config.filterlist.allow_ips) {
            return Err(e);
        }
        if let Some(e) = first_parse_error(&config.filterlist.ban_ips) {
            return Err(e);
        }
        self.load_config(config);
        Ok(())
    }
}

} // verus!
