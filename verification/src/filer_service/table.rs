use vstd::prelude::*;
use crate::filer_service::service::{
    TableOpView, FilterState, PROTECT_CHAIN, BLACKLIST_CHAIN, BANDWIDTH_IN_CHAIN, BANDWIDTH_OUT_CHAIN, chain_setup_ops,
    clear_ops, local_rules, all_whitelist_rules, all_blacklist_rules, all_allow_port_rules, all_ban_port_rules,
    whitelist_rules, blacklist_rules, allow_port_rules, ban_port_rules, protection_rules,
};
use crate::net::{Cidr, IpAddress, cidr_text};
use crate::text::{ipv4_text, decimal};

verus! {

/// The `filter` table as a map from each chain to its rules, in order.
pub type FilterTable = Map<Seq<char>, Seq<Seq<char>>>;

/// `s` without its first copy of `r`.
pub open spec fn remove_first(s: Seq<Seq<char>>, r: Seq<char>) -> Seq<Seq<char>>
    decreases s.len(),
{
    if s.len() == 0 {
        s
    } else if s[0] == r {
        s.drop_first()
    } else {
        seq![s[0]] + remove_first(s.drop_first(), r)
    }
}

/// The rule that jumps to `chain`.
pub open spec fn jump_rule(chain: Seq<char>) -> Seq<char> {
    "-j "@ + chain
}

/// Whether a rule of the table jumps to `chain`, written as the service writes its jumps:
/// `-j` and the chain's name. Rules are told apart by their text.
pub open spec fn referenced(t: FilterTable, chain: Seq<char>) -> bool {
    exists|k: Seq<char>| t.contains_key(k) && #[trigger] t[k].contains(jump_rule(chain))
}

/// What one change does to the table, as `iptables` makes it: a new chain is made where there
/// is none; a rule is appended, or put at a position, where its chain exists and lacks it;
/// the first copy of a rule is deleted where there is one; a chain is emptied; an empty chain
/// that no rule jumps to is removed. A change that fails leaves the table as it was.
pub open spec fn apply_op(t: FilterTable, op: TableOpView) -> FilterTable {
    match op {
        TableOpView::NewChain { chain } =>
            if t.contains_key(chain) { t } else { t.insert(chain, Seq::empty()) },
        TableOpView::AppendUnique { chain, rule } =>
            if t.contains_key(chain) && !t[chain].contains(rule) { t.insert(chain, t[chain].push(rule)) } else { t },
        TableOpView::InsertUnique { chain, rule, position } =>
            if t.contains_key(chain) && !t[chain].contains(rule) && 1 <= position <= t[chain].len() + 1 {
                t.insert(chain, t[chain].insert(position - 1, rule))
            } else {
                t
            },
        TableOpView::Delete { chain, rule } =>
            if t.contains_key(chain) && t[chain].contains(rule) { t.insert(chain, remove_first(t[chain], rule)) } else { t },
        TableOpView::FlushChain { chain } =>
            if t.contains_key(chain) { t.insert(chain, Seq::empty()) } else { t },
        TableOpView::DeleteChain { chain } =>
            if t.contains_key(chain) && t[chain].len() == 0 && !referenced(t, chain) { t.remove(chain) } else { t },
    }
}

/// What a list of changes does to the table, made in order.
pub open spec fn apply_ops(t: FilterTable, ops: Seq<TableOpView>) -> FilterTable
    decreases ops.len(),
{
    if ops.len() == 0 {
        t
    } else {
        apply_op(apply_ops(t, ops.drop_last()), ops.last())
    }
}

/// The chain a change works on.
pub open spec fn op_chain(op: TableOpView) -> Seq<char> {
    match op {
        TableOpView::NewChain { chain } => chain,
        TableOpView::AppendUnique { chain, .. } => chain,
        TableOpView::InsertUnique { chain, .. } => chain,
        TableOpView::Delete { chain, .. } => chain,
        TableOpView::FlushChain { chain } => chain,
        TableOpView::DeleteChain { chain } => chain,
    }
}

/// Whether `c` is one of the chains the service makes.
pub open spec fn service_chain(c: Seq<char>) -> bool {
    c == PROTECT_CHAIN@ || c == BLACKLIST_CHAIN@ || c == BANDWIDTH_IN_CHAIN@ || c == BANDWIDTH_OUT_CHAIN@
}

/// A change touches no chain but its own.
pub proof fn lemma_op_local(t: FilterTable, op: TableOpView, k: Seq<char>)
    requires
        k != op_chain(op),
    ensures
        apply_op(t, op).contains_key(k) == t.contains_key(k),
        t.contains_key(k) ==> apply_op(t, op)[k] == t[k],
{
}

/// A list of one change.
pub proof fn lemma_apply_one(t: FilterTable, a: TableOpView)
    ensures
        apply_ops(t, seq![a]) == apply_op(t, a),
{
    assert(apply_ops(t, Seq::<TableOpView>::empty()) == t);
    assert(seq![a].drop_last() =~= Seq::<TableOpView>::empty());
}

/// The changes of a list from position `k` on: the one at `k`, then the rest.
pub proof fn lemma_apply_at(t: FilterTable, ops: Seq<TableOpView>, k: int)
    requires
        0 <= k < ops.len(),
    ensures
        apply_ops(t, ops.subrange(k, ops.len() as int))
            == apply_ops(apply_op(t, ops[k]), ops.subrange(k + 1, ops.len() as int)),
{
    let rest = ops.subrange(k + 1, ops.len() as int);
    lemma_apply_concat(t, seq![ops[k]], rest);
    assert(seq![ops[k]] + rest =~= ops.subrange(k, ops.len() as int));
    lemma_apply_one(t, ops[k]);
}

/// No change leaves the table as it is.
pub proof fn lemma_apply_none(t: FilterTable, ops: Seq<TableOpView>)
    ensures
        apply_ops(t, ops.subrange(ops.len() as int, ops.len() as int)) == t,
        apply_ops(t, Seq::<TableOpView>::empty()) == t,
        ops.subrange(0, ops.len() as int) == ops,
{
    assert(ops.subrange(ops.len() as int, ops.len() as int) =~= Seq::<TableOpView>::empty());
    assert(ops.subrange(0, ops.len() as int) =~= ops);
}

/// Three changes in a row.
pub proof fn lemma_apply_three(t: FilterTable, ops: Seq<TableOpView>)
    requires
        ops.len() == 3,
    ensures
        apply_ops(t, ops) == apply_op(apply_op(apply_op(t, ops[0]), ops[1]), ops[2]),
{
    let t1 = apply_op(t, ops[0]);
    let t2 = apply_op(t1, ops[1]);
    lemma_apply_none(t, ops);
    lemma_apply_at(t, ops, 0);
    lemma_apply_at(t1, ops, 1);
    lemma_apply_at(t2, ops, 2);
    lemma_apply_none(apply_op(t2, ops[2]), ops);
}

/// Two tables that agree on chain `k`: both lack it, or both have it with the same rules.
pub open spec fn agree_on(a: FilterTable, b: FilterTable, k: Seq<char>) -> bool {
    &&& a.contains_key(k) == b.contains_key(k)
    &&& a.contains_key(k) ==> a[k] == b[k]
}

/// Tables that agree on every chain are the same table.
pub proof fn lemma_agree_everywhere(a: FilterTable, b: FilterTable)
    requires
        forall|k: Seq<char>| #[trigger] agree_on(a, b, k),
    ensures
        a == b,
{
    assert forall|k: Seq<char>| a.contains_key(k) <==> b.contains_key(k) by {
        assert(agree_on(a, b, k));
    }
    assert(a.dom() =~= b.dom());
    assert forall|k: Seq<char>| a.contains_key(k) implies a[k] == b[k] by {
        assert(agree_on(a, b, k));
    }
    assert(a =~= b);
}

/// Deleting the first copy of a rule that follows rules unlike it.
pub proof fn lemma_remove_first_after(s: Seq<Seq<char>>, r: Seq<char>, tail: Seq<Seq<char>>)
    requires
        !s.contains(r),
    ensures
        remove_first(s + seq![r] + tail, r) == s + tail,
    decreases s.len(),
{
    let x = s + seq![r] + tail;
    if s.len() == 0 {
        assert(x[0] == r);
        assert(x.drop_first() =~= s + tail);
    } else {
        assert(!s.drop_first().contains(r)) by {
            assert forall|i: int| 0 <= i < s.drop_first().len() implies s.drop_first()[i] != r by {
                assert(s.drop_first()[i] == s[i + 1]);
            }
        }
        lemma_remove_first_after(s.drop_first(), r, tail);
        assert(x[0] == s[0]);
        assert(s[0] != r);
        assert(x.drop_first() =~= s.drop_first() + seq![r] + tail);
        assert(seq![s[0]] + (s.drop_first() + tail) =~= s + tail);
    }
}

/// A rule put first into a chain that lacked it, then deleted, leaves the chain as it was.
pub proof fn lemma_insert_then_delete(
    before: FilterTable,
    mid: FilterTable,
    chain: Seq<char>,
    rule: Seq<char>,
)
    requires
        before.contains_key(chain) ==> !before[chain].contains(rule),
        agree_on(mid, apply_op(before, TableOpView::InsertUnique { chain, rule, position: 1 }), chain),
    ensures
        agree_on(apply_op(mid, TableOpView::Delete { chain, rule }), before, chain),
{
    if before.contains_key(chain) {
        let s = before[chain];
        assert(s.insert(0, rule) =~= Seq::<Seq<char>>::empty() + seq![rule] + s);
        assert(s.insert(0, rule)[0] == rule);
        lemma_remove_first_after(Seq::<Seq<char>>::empty(), rule, s);
        assert(Seq::<Seq<char>>::empty() + s =~= s);
    }
}

/// A rule appended to a chain that lacked it, then deleted, leaves the chain as it was.
pub proof fn lemma_append_then_delete(
    before: FilterTable,
    mid: FilterTable,
    chain: Seq<char>,
    rule: Seq<char>,
)
    requires
        before.contains_key(chain) ==> !before[chain].contains(rule),
        agree_on(mid, apply_op(before, TableOpView::AppendUnique { chain, rule }), chain),
    ensures
        agree_on(apply_op(mid, TableOpView::Delete { chain, rule }), before, chain),
{
    if before.contains_key(chain) {
        let s = before[chain];
        assert(s.push(rule) =~= s + seq![rule] + Seq::<Seq<char>>::empty());
        assert(s.push(rule)[s.len() as int] == rule);
        lemma_remove_first_after(s, rule, Seq::<Seq<char>>::empty());
        assert(s + Seq::<Seq<char>>::empty() =~= s);
    }
}

/// After a rule is put first into a chain, the chain holds it, where the chain exists.
pub proof fn lemma_insert_holds(t: FilterTable, chain: Seq<char>, rule: Seq<char>)
    ensures
        apply_op(t, TableOpView::InsertUnique { chain, rule, position: 1 }).contains_key(chain) ==>
            apply_op(t, TableOpView::InsertUnique { chain, rule, position: 1 })[chain].contains(rule),
{
    if t.contains_key(chain) && !t[chain].contains(rule) {
        assert(t[chain].insert(0, rule)[0] == rule);
    }
}

/// Changes made one list after another.
pub proof fn lemma_apply_concat(t: FilterTable, a: Seq<TableOpView>, b: Seq<TableOpView>)
    ensures
        apply_ops(t, a + b) == apply_ops(apply_ops(t, a), b),
    decreases b.len(),
{
    if b.len() == 0 {
        assert(a + b =~= a);
    } else {
        lemma_apply_concat(t, a, b.drop_last());
        assert((a + b).drop_last() =~= a + b.drop_last());
    }
}

/// The service's chain names differ from one another and from `INPUT` and `OUTPUT`.
pub proof fn lemma_chain_names()
    ensures
        PROTECT_CHAIN@ != BLACKLIST_CHAIN@, PROTECT_CHAIN@ != BANDWIDTH_IN_CHAIN@, PROTECT_CHAIN@ != BANDWIDTH_OUT_CHAIN@,
        BLACKLIST_CHAIN@ != BANDWIDTH_IN_CHAIN@, BLACKLIST_CHAIN@ != BANDWIDTH_OUT_CHAIN@,
        BANDWIDTH_IN_CHAIN@ != BANDWIDTH_OUT_CHAIN@,
        !service_chain("INPUT"@), !service_chain("OUTPUT"@), "INPUT"@ != "OUTPUT"@,
        PROTECT_CHAIN@ == "PROTECT_LIST"@, BLACKLIST_CHAIN@ == "BLACK_LIST"@,
        BANDWIDTH_IN_CHAIN@ == "BANDWIDTH_IN"@, BANDWIDTH_OUT_CHAIN@ == "BANDWIDTH_OUT"@,
{
    reveal_strlit("PROTECT_LIST");
    reveal_strlit("BLACK_LIST");
    reveal_strlit("BANDWIDTH_IN");
    reveal_strlit("BANDWIDTH_OUT");
    reveal_strlit("INPUT");
    reveal_strlit("OUTPUT");
    assert("PROTECT_LIST"@[0] != "BLACK_LIST"@[0]);
    assert("PROTECT_LIST"@[0] != "BANDWIDTH_IN"@[0]);
    assert("PROTECT_LIST"@[0] != "BANDWIDTH_OUT"@[0]);
    assert("BLACK_LIST"@[1] != "BANDWIDTH_IN"@[1]);
    assert("BLACK_LIST"@[1] != "BANDWIDTH_OUT"@[1]);
    assert("BANDWIDTH_IN"@[10] != "BANDWIDTH_OUT"@[10]);
    assert("INPUT"@[0] != "PROTECT_LIST"@[0] && "INPUT"@[0] != "BLACK_LIST"@[0]);
    assert("INPUT"@[0] != "BANDWIDTH_IN"@[0] && "INPUT"@[0] != "BANDWIDTH_OUT"@[0]);
    assert("OUTPUT"@[0] != "PROTECT_LIST"@[0] && "OUTPUT"@[0] != "BLACK_LIST"@[0]);
    assert("OUTPUT"@[0] != "BANDWIDTH_IN"@[0] && "OUTPUT"@[0] != "BANDWIDTH_OUT"@[0]);
    assert("INPUT"@[0] != "OUTPUT"@[0]);
}

/// Whether a rule is the jump to one of the service's chains.
pub open spec fn service_jump(r: Seq<char>) -> bool {
    ||| r == jump_rule(PROTECT_CHAIN@)
    ||| r == jump_rule(BLACKLIST_CHAIN@)
    ||| r == jump_rule(BANDWIDTH_IN_CHAIN@)
    ||| r == jump_rule(BANDWIDTH_OUT_CHAIN@)
}

/// No rule of the table jumps to one of the service's chains.
pub open spec fn no_service_jumps(t: FilterTable) -> bool {
    forall|k: Seq<char>, r: Seq<char>| t.contains_key(k) && #[trigger] t[k].contains(r) ==> !service_jump(r)
}

/// Whether a change puts into one of the service's chains a rule that jumps to none of them.
pub open spec fn adds_plain_rule(op: TableOpView) -> bool {
    match op {
        TableOpView::AppendUnique { chain, rule } => service_chain(chain) && !service_jump(rule),
        TableOpView::InsertUnique { chain, rule, .. } => service_chain(chain) && !service_jump(rule),
        _ => false,
    }
}

/// Whether each change of a list puts a plain rule into one of the service's chains.
pub open spec fn all_plain(ops: Seq<TableOpView>) -> bool {
    forall|i: int| 0 <= i < ops.len() ==> adds_plain_rule(#[trigger] ops[i])
}

/// `u` is `t` with the service's chains set up: the four chains exist and hold no jump to one
/// another, `INPUT` and `OUTPUT` end with the jumps into them, and every other chain is as in `t`.
pub open spec fn set_up_from(u: FilterTable, t: FilterTable) -> bool {
    &&& forall|k: Seq<char>| !service_chain(k) && k != "INPUT"@ && k != "OUTPUT"@ ==> #[trigger] agree_on(u, t, k)
    &&& u.contains_key("INPUT"@)
    &&& u["INPUT"@] == t["INPUT"@] + seq![
        jump_rule(BANDWIDTH_IN_CHAIN@),
        jump_rule(BLACKLIST_CHAIN@),
        jump_rule(PROTECT_CHAIN@),
    ]
    &&& u.contains_key("OUTPUT"@)
    &&& u["OUTPUT"@] == t["OUTPUT"@] + seq![jump_rule(BANDWIDTH_OUT_CHAIN@)]
    &&& u.contains_key(PROTECT_CHAIN@)
    &&& u.contains_key(BLACKLIST_CHAIN@)
    &&& u.contains_key(BANDWIDTH_IN_CHAIN@)
    &&& u.contains_key(BANDWIDTH_OUT_CHAIN@)
    &&& forall|k: Seq<char>, r: Seq<char>|
        service_chain(k) && u.contains_key(k) && #[trigger] u[k].contains(r) ==> !service_jump(r)
}

/// `w` agrees with `t` outside the service's chains, and those of them it has hold no jump to
/// one another.
pub open spec fn clean_from(w: FilterTable, t: FilterTable) -> bool {
    &&& forall|k: Seq<char>| !service_chain(k) ==> #[trigger] agree_on(w, t, k)
    &&& forall|k: Seq<char>, r: Seq<char>|
        service_chain(k) && w.contains_key(k) && #[trigger] w[k].contains(r) ==> !service_jump(r)
}

/// What a chain holds after a rule is put into it: the rule and what it held.
pub proof fn lemma_added_rules(s: Seq<Seq<char>>, p: int, a: Seq<char>, x: Seq<char>)
    requires
        0 <= p <= s.len(),
    ensures
        s.insert(p, a).contains(x) ==> x == a || s.contains(x),
        s.push(a).contains(x) ==> x == a || s.contains(x),
{
    s.insert_ensures(p, a);
    if s.insert(p, a).contains(x) {
        let i = choose|i: int| 0 <= i < s.insert(p, a).len() && s.insert(p, a)[i] == x;
        if i < p {
            assert(s[i] == x);
        } else if i > p {
            assert(s.insert(p, a)[(i - 1) + 1] == s[i - 1]);
        }
    }
    if s.push(a).contains(x) {
        let i = choose|i: int| 0 <= i < s.push(a).len() && s.push(a)[i] == x;
        if i < s.len() {
            assert(s[i] == x);
        }
    }
}

/// The jumps to the service's chains differ from one another, and each is a jump to one of them.
pub proof fn lemma_jumps_distinct()
    ensures
        jump_rule(PROTECT_CHAIN@) != jump_rule(BLACKLIST_CHAIN@),
        jump_rule(PROTECT_CHAIN@) != jump_rule(BANDWIDTH_IN_CHAIN@),
        jump_rule(PROTECT_CHAIN@) != jump_rule(BANDWIDTH_OUT_CHAIN@),
        jump_rule(BLACKLIST_CHAIN@) != jump_rule(BANDWIDTH_IN_CHAIN@),
        jump_rule(BLACKLIST_CHAIN@) != jump_rule(BANDWIDTH_OUT_CHAIN@),
        jump_rule(BANDWIDTH_IN_CHAIN@) != jump_rule(BANDWIDTH_OUT_CHAIN@),
        forall|c: Seq<char>| service_chain(c) ==> #[trigger] service_jump(jump_rule(c)),
{
    lemma_chain_names();
    reveal_strlit("-j ");
    reveal_strlit("PROTECT_LIST");
    reveal_strlit("BLACK_LIST");
    reveal_strlit("BANDWIDTH_IN");
    reveal_strlit("BANDWIDTH_OUT");
    assert(jump_rule(PROTECT_CHAIN@)[3] != jump_rule(BLACKLIST_CHAIN@)[3]);
    assert(jump_rule(PROTECT_CHAIN@)[3] != jump_rule(BANDWIDTH_IN_CHAIN@)[3]);
    assert(jump_rule(PROTECT_CHAIN@)[3] != jump_rule(BANDWIDTH_OUT_CHAIN@)[3]);
    assert(jump_rule(BLACKLIST_CHAIN@)[4] != jump_rule(BANDWIDTH_IN_CHAIN@)[4]);
    assert(jump_rule(BLACKLIST_CHAIN@)[4] != jump_rule(BANDWIDTH_OUT_CHAIN@)[4]);
    assert(jump_rule(BANDWIDTH_IN_CHAIN@)[13] != jump_rule(BANDWIDTH_OUT_CHAIN@)[13]);
}

/// A rule that does not start with `-j` jumps to none of the service's chains.
pub proof fn lemma_plain_rule(r: Seq<char>)
    requires
        r.len() >= 2,
        r[0] != '-' || r[1] != 'j',
    ensures
        !service_jump(r),
{
    reveal_strlit("-j ");
    assert forall|c: Seq<char>| #[trigger] jump_rule(c)[0] == '-' && jump_rule(c)[1] == 'j' by {
        assert(jump_rule(c)[0] == "-j "@[0]);
        assert(jump_rule(c)[1] == "-j "@[1]);
    }
    assert(jump_rule(PROTECT_CHAIN@)[0] == '-' && jump_rule(PROTECT_CHAIN@)[1] == 'j');
    assert(jump_rule(BLACKLIST_CHAIN@)[0] == '-' && jump_rule(BLACKLIST_CHAIN@)[1] == 'j');
    assert(jump_rule(BANDWIDTH_IN_CHAIN@)[0] == '-' && jump_rule(BANDWIDTH_IN_CHAIN@)[1] == 'j');
    assert(jump_rule(BANDWIDTH_OUT_CHAIN@)[0] == '-' && jump_rule(BANDWIDTH_OUT_CHAIN@)[1] == 'j');
}

/// Two lists of plain changes, one after the other.
pub proof fn lemma_plain_concat(a: Seq<TableOpView>, b: Seq<TableOpView>)
    requires
        all_plain(a),
        all_plain(b),
    ensures
        all_plain(a + b),
{
    assert forall|i: int| 0 <= i < (a + b).len() implies adds_plain_rule(#[trigger] (a + b)[i]) by {
        if i < a.len() {
            assert((a + b)[i] == a[i]);
        } else {
            assert((a + b)[i] == b[i - a.len()]);
        }
    }
}

/// A plain change keeps the service's chains set up.
pub proof fn lemma_plain_step(u: FilterTable, t: FilterTable, op: TableOpView)
    requires
        set_up_from(u, t),
        adds_plain_rule(op),
    ensures
        set_up_from(apply_op(u, op), t),
{
    let c = op_chain(op);
    let u2 = apply_op(u, op);
    lemma_chain_names();
    assert forall|k: Seq<char>| !service_chain(k) && k != "INPUT"@ && k != "OUTPUT"@ implies #[trigger] agree_on(u2, t, k) by {
        lemma_op_local(u, op, k);
        assert(agree_on(u, t, k));
    }
    lemma_op_local(u, op, "INPUT"@);
    lemma_op_local(u, op, "OUTPUT"@);
    assert forall|k: Seq<char>, r: Seq<char>| service_chain(k) && u2.contains_key(k) && #[trigger] u2[k].contains(r)
        implies !service_jump(r) by {
        if k != c {
            lemma_op_local(u, op, k);
        } else {
            match op {
                TableOpView::AppendUnique { chain, rule } => {
                    lemma_added_rules(u[k], 0, rule, r);
                },
                TableOpView::InsertUnique { chain, rule, position } => {
                    if u.contains_key(chain) && !u[chain].contains(rule) && 1 <= position <= u[chain].len() + 1 {
                        lemma_added_rules(u[k], position - 1, rule, r);
                    }
                },
                _ => {},
            }
        }
    }
    if c != PROTECT_CHAIN@ {
        lemma_op_local(u, op, PROTECT_CHAIN@);
    }
    if c != BLACKLIST_CHAIN@ {
        lemma_op_local(u, op, BLACKLIST_CHAIN@);
    }
    if c != BANDWIDTH_IN_CHAIN@ {
        lemma_op_local(u, op, BANDWIDTH_IN_CHAIN@);
    }
    if c != BANDWIDTH_OUT_CHAIN@ {
        lemma_op_local(u, op, BANDWIDTH_OUT_CHAIN@);
    }
}

/// A list of plain changes keeps the service's chains set up.
pub proof fn lemma_plain_all(u: FilterTable, t: FilterTable, ops: Seq<TableOpView>)
    requires
        set_up_from(u, t),
        all_plain(ops),
    ensures
        set_up_from(apply_ops(u, ops), t),
    decreases ops.len(),
{
    if ops.len() > 0 {
        assert forall|i: int| 0 <= i < ops.drop_last().len() implies adds_plain_rule(#[trigger] ops.drop_last()[i]) by {
            assert(ops.drop_last()[i] == ops[i]);
        }
        lemma_plain_all(u, t, ops.drop_last());
        lemma_plain_step(apply_ops(u, ops.drop_last()), t, ops.last());
    }
}

/// Making the service's chains in a table that lacks them, and jumping into them from `INPUT`
/// and `OUTPUT`, sets them up.
pub proof fn lemma_setup(t: FilterTable)
    requires
        t.contains_key("INPUT"@),
        t.contains_key("OUTPUT"@),
        !t.contains_key(PROTECT_CHAIN@),
        !t.contains_key(BLACKLIST_CHAIN@),
        !t.contains_key(BANDWIDTH_IN_CHAIN@),
        !t.contains_key(BANDWIDTH_OUT_CHAIN@),
        no_service_jumps(t),
    ensures
        set_up_from(apply_ops(t, chain_setup_ops()), t),
{
    let ops = chain_setup_ops();
    lemma_chain_names();
    lemma_jumps_distinct();
    let s1 = apply_op(t, ops[0]);
    let s2 = apply_op(s1, ops[1]);
    let s3 = apply_op(s2, ops[2]);
    let s4 = apply_op(s3, ops[3]);
    let s5 = apply_op(s4, ops[4]);
    let s6 = apply_op(s5, ops[5]);
    let s7 = apply_op(s6, ops[6]);
    let s8 = apply_op(s7, ops[7]);
    lemma_apply_none(t, ops);
    lemma_apply_at(t, ops, 0);
    lemma_apply_at(s1, ops, 1);
    lemma_apply_at(s2, ops, 2);
    lemma_apply_at(s3, ops, 3);
    lemma_apply_at(s4, ops, 4);
    lemma_apply_at(s5, ops, 5);
    lemma_apply_at(s6, ops, 6);
    lemma_apply_at(s7, ops, 7);
    lemma_apply_none(s8, ops);
    assert(apply_ops(t, ops) == s8);

    let t_in = t["INPUT"@];
    let t_out = t["OUTPUT"@];
    let j_in = jump_rule(BANDWIDTH_IN_CHAIN@);
    let j_out = jump_rule(BANDWIDTH_OUT_CHAIN@);
    let j_black = jump_rule(BLACKLIST_CHAIN@);
    let j_protect = jump_rule(PROTECT_CHAIN@);
    assert(!t_in.contains(j_in) && !t_in.contains(j_black) && !t_in.contains(j_protect));
    assert(!t_out.contains(j_out));
    assert(s4["INPUT"@] == t_in && s4["OUTPUT"@] == t_out);
    assert(s5["INPUT"@] == t_in.push(j_in));
    assert(s6["OUTPUT"@] == t_out.push(j_out));
    lemma_added_rules(t_in, 0, j_in, j_black);
    assert(s7["INPUT"@] == t_in.push(j_in).push(j_black));
    lemma_added_rules(t_in.push(j_in), 0, j_black, j_protect);
    lemma_added_rules(t_in, 0, j_in, j_protect);
    assert(s8["INPUT"@] == t_in.push(j_in).push(j_black).push(j_protect));
    assert(s8["INPUT"@] =~= t_in + seq![j_in, j_black, j_protect]);
    assert(s8["OUTPUT"@] =~= t_out + seq![j_out]);
    assert forall|k: Seq<char>| !service_chain(k) && k != "INPUT"@ && k != "OUTPUT"@ implies #[trigger] agree_on(s8, t, k) by {
        lemma_op_local(t, ops[0], k);
        lemma_op_local(s1, ops[1], k);
        lemma_op_local(s2, ops[2], k);
        lemma_op_local(s3, ops[3], k);
        lemma_op_local(s4, ops[4], k);
        lemma_op_local(s5, ops[5], k);
        lemma_op_local(s6, ops[6], k);
        lemma_op_local(s7, ops[7], k);
    }
    assert forall|k: Seq<char>, r: Seq<char>| service_chain(k) && s8.contains_key(k) && #[trigger] s8[k].contains(r)
        implies !service_jump(r) by {
        assert(s8[k] == s4[k]);
        assert(s4[k] =~= Seq::<Seq<char>>::empty());
    }
}

/// Taking the jumps into the service's chains out of `INPUT` and `OUTPUT`, then emptying and
/// removing each chain, gives back the table they were set up in.
pub proof fn lemma_teardown(u: FilterTable, t: FilterTable)
    requires
        set_up_from(u, t),
        t.contains_key("INPUT"@),
        t.contains_key("OUTPUT"@),
        !t.contains_key(PROTECT_CHAIN@),
        !t.contains_key(BLACKLIST_CHAIN@),
        !t.contains_key(BANDWIDTH_IN_CHAIN@),
        !t.contains_key(BANDWIDTH_OUT_CHAIN@),
        no_service_jumps(t),
    ensures
        apply_ops(u, clear_ops()) == t,
{
    let ops = clear_ops();
    lemma_chain_names();
    lemma_jumps_distinct();
    let v1 = apply_op(u, ops[0]);
    let v2 = apply_op(v1, ops[1]);
    let v3 = apply_op(v2, ops[2]);
    let v4 = apply_op(v3, ops[3]);
    lemma_unjump(u, t);
    let w1 = apply_op(v4, ops[4]);
    let w2 = apply_op(w1, ops[5]);
    lemma_flush_delete(v4, t, PROTECT_CHAIN@);
    let w3 = apply_op(w2, ops[6]);
    let w4 = apply_op(w3, ops[7]);
    lemma_flush_delete(w2, t, BLACKLIST_CHAIN@);
    let w5 = apply_op(w4, ops[8]);
    let w6 = apply_op(w5, ops[9]);
    lemma_flush_delete(w4, t, BANDWIDTH_IN_CHAIN@);
    let w7 = apply_op(w6, ops[10]);
    let w8 = apply_op(w7, ops[11]);
    lemma_flush_delete(w6, t, BANDWIDTH_OUT_CHAIN@);
    lemma_apply_none(u, ops);
    lemma_apply_at(u, ops, 0);
    lemma_apply_at(v1, ops, 1);
    lemma_apply_at(v2, ops, 2);
    lemma_apply_at(v3, ops, 3);
    lemma_apply_at(v4, ops, 4);
    lemma_apply_at(w1, ops, 5);
    lemma_apply_at(w2, ops, 6);
    lemma_apply_at(w3, ops, 7);
    lemma_apply_at(w4, ops, 8);
    lemma_apply_at(w5, ops, 9);
    lemma_apply_at(w6, ops, 10);
    lemma_apply_at(w7, ops, 11);
    lemma_apply_none(w8, ops);
    assert(apply_ops(u, ops) == w8);
    assert forall|k: Seq<char>| #[trigger] agree_on(w8, t, k) by {
        if !service_chain(k) {
            assert(agree_on(w8, t, k));
        }
    }
    lemma_agree_everywhere(w8, t);
}

/// Deleting the jumps into the service's chains from `INPUT` and `OUTPUT` leaves those two
/// chains as they were before the set-up.
pub proof fn lemma_unjump(u: FilterTable, t: FilterTable)
    requires
        set_up_from(u, t),
        t.contains_key("INPUT"@),
        t.contains_key("OUTPUT"@),
        no_service_jumps(t),
    ensures
        ({
            let ops = clear_ops();
            let v4 = apply_op(apply_op(apply_op(apply_op(u, ops[0]), ops[1]), ops[2]), ops[3]);
            &&& clean_from(v4, t)
            &&& v4.contains_key(PROTECT_CHAIN@)
            &&& v4.contains_key(BLACKLIST_CHAIN@)
            &&& v4.contains_key(BANDWIDTH_IN_CHAIN@)
            &&& v4.contains_key(BANDWIDTH_OUT_CHAIN@)
        }),
{
    let ops = clear_ops();
    lemma_chain_names();
    lemma_jumps_distinct();
    let v1 = apply_op(u, ops[0]);
    let v2 = apply_op(v1, ops[1]);
    let v3 = apply_op(v2, ops[2]);
    let v4 = apply_op(v3, ops[3]);
    let t_in = t["INPUT"@];
    let t_out = t["OUTPUT"@];
    let j_in = jump_rule(BANDWIDTH_IN_CHAIN@);
    let j_out = jump_rule(BANDWIDTH_OUT_CHAIN@);
    let j_black = jump_rule(BLACKLIST_CHAIN@);
    let j_protect = jump_rule(PROTECT_CHAIN@);
    assert(!t_in.contains(j_in) && !t_in.contains(j_black) && !t_in.contains(j_protect));
    assert(!t_out.contains(j_out));

    let e = Seq::<Seq<char>>::empty();
    assert(u["INPUT"@] =~= t_in + seq![j_in] + seq![j_black, j_protect]);
    assert(u["INPUT"@][t_in.len() as int] == j_in);
    lemma_remove_first_after(t_in, j_in, seq![j_black, j_protect]);
    assert(v1["INPUT"@] == t_in + seq![j_black, j_protect]);

    assert(u["OUTPUT"@] =~= t_out + seq![j_out] + e);
    assert(u["OUTPUT"@][t_out.len() as int] == j_out);
    lemma_remove_first_after(t_out, j_out, e);
    assert(t_out + e =~= t_out);
    assert(v2["OUTPUT"@] == t_out);
    assert(v2["INPUT"@] == t_in + seq![j_black, j_protect]);

    lemma_added_rules(t_in, 0, j_black, j_protect);
    assert(t_in.push(j_black) =~= t_in + seq![j_black]);
    assert(t_in + seq![j_black, j_protect] =~= t_in.push(j_black) + seq![j_protect] + e);
    assert((t_in + seq![j_black, j_protect])[t_in.len() + 1int] == j_protect);
    lemma_remove_first_after(t_in.push(j_black), j_protect, e);
    assert(t_in.push(j_black) + e =~= t_in.push(j_black));
    assert(v3["INPUT"@] == t_in.push(j_black));

    assert(t_in.push(j_black) =~= t_in + seq![j_black] + e);
    assert(t_in.push(j_black)[t_in.len() as int] == j_black);
    lemma_remove_first_after(t_in, j_black, e);
    assert(t_in + e =~= t_in);
    assert(v4["INPUT"@] == t_in);
    assert(v4["OUTPUT"@] == t_out);

    assert forall|k: Seq<char>| !service_chain(k) implies #[trigger] agree_on(v4, t, k) by {
        if k != "INPUT"@ && k != "OUTPUT"@ {
            lemma_op_local(u, ops[0], k);
            lemma_op_local(v1, ops[1], k);
            lemma_op_local(v2, ops[2], k);
            lemma_op_local(v3, ops[3], k);
            assert(agree_on(u, t, k));
        }
    }
    assert forall|k: Seq<char>, r: Seq<char>| service_chain(k) && v4.contains_key(k) && #[trigger] v4[k].contains(r)
        implies !service_jump(r) by {
        lemma_op_local(u, ops[0], k);
        lemma_op_local(v1, ops[1], k);
        lemma_op_local(v2, ops[2], k);
        lemma_op_local(v3, ops[3], k);
    }
    lemma_op_local(u, ops[0], PROTECT_CHAIN@);
    lemma_op_local(v1, ops[1], PROTECT_CHAIN@);
    lemma_op_local(v2, ops[2], PROTECT_CHAIN@);
    lemma_op_local(v3, ops[3], PROTECT_CHAIN@);
    lemma_op_local(u, ops[0], BLACKLIST_CHAIN@);
    lemma_op_local(v1, ops[1], BLACKLIST_CHAIN@);
    lemma_op_local(v2, ops[2], BLACKLIST_CHAIN@);
    lemma_op_local(v3, ops[3], BLACKLIST_CHAIN@);
    lemma_op_local(u, ops[0], BANDWIDTH_IN_CHAIN@);
    lemma_op_local(v1, ops[1], BANDWIDTH_IN_CHAIN@);
    lemma_op_local(v2, ops[2], BANDWIDTH_IN_CHAIN@);
    lemma_op_local(v3, ops[3], BANDWIDTH_IN_CHAIN@);
    lemma_op_local(u, ops[0], BANDWIDTH_OUT_CHAIN@);
    lemma_op_local(v1, ops[1], BANDWIDTH_OUT_CHAIN@);
    lemma_op_local(v2, ops[2], BANDWIDTH_OUT_CHAIN@);
    lemma_op_local(v3, ops[3], BANDWIDTH_OUT_CHAIN@);
}

/// Emptying one of the service's chains and then removing it, where no other chain jumps to it.
pub proof fn lemma_flush_delete(w: FilterTable, t: FilterTable, c: Seq<char>)
    requires
        clean_from(w, t),
        no_service_jumps(t),
        service_chain(c),
        w.contains_key(c),
    ensures
        apply_op(apply_op(w, TableOpView::FlushChain { chain: c }), TableOpView::DeleteChain { chain: c }) == w.remove(c),
        clean_from(w.remove(c), t),
{
    lemma_jumps_distinct();
    let w1 = w.insert(c, Seq::empty());
    assert(apply_op(w, TableOpView::FlushChain { chain: c }) == w1);
    assert(service_jump(jump_rule(c)));
    assert(!referenced(w1, c)) by {
        assert forall|k: Seq<char>| w1.contains_key(k) implies !(#[trigger] w1[k]).contains(jump_rule(c)) by {
            if k == c {
                assert(w1[k] =~= Seq::<Seq<char>>::empty());
            } else if service_chain(k) {
                assert(w1[k] == w[k]);
            } else {
                assert(agree_on(w, t, k));
                assert(w1[k] == t[k]);
            }
        }
    }
    assert(w1.remove(c) =~= w.remove(c));
    assert forall|k: Seq<char>| !service_chain(k) implies #[trigger] agree_on(w.remove(c), t, k) by {
        assert(agree_on(w, t, k));
    }
}

/// A single plain change.
pub proof fn lemma_plain_one(a: TableOpView)
    requires
        adds_plain_rule(a),
    ensures
        all_plain(seq![a]),
{
    assert forall|i: int| 0 <= i < seq![a].len() implies adds_plain_rule(#[trigger] seq![a][i]) by {
        assert(i == 0);
    }
}

/// Two plain changes.
pub proof fn lemma_plain_two(a: TableOpView, b: TableOpView)
    requires
        adds_plain_rule(a),
        adds_plain_rule(b),
    ensures
        all_plain(seq![a, b]),
{
    lemma_plain_one(a);
    lemma_plain_one(b);
    lemma_plain_concat(seq![a], seq![b]);
    assert(seq![a] + seq![b] =~= seq![a, b]);
}

/// The refusal of the deny action jumps to none of the service's chains.
pub proof fn lemma_deny_plain(deny: Seq<char>)
    requires
        deny == "DROP"@ || deny == "REJECT"@,
    ensures
        !service_jump("-j "@ + deny),
{
    lemma_chain_names();
    reveal_strlit("-j ");
    reveal_strlit("DROP");
    reveal_strlit("REJECT");
    reveal_strlit("PROTECT_LIST");
    reveal_strlit("BLACK_LIST");
    reveal_strlit("BANDWIDTH_IN");
    reveal_strlit("BANDWIDTH_OUT");
    let r = "-j "@ + deny;
    assert(r[3] == deny[0]);
    assert(jump_rule(PROTECT_CHAIN@)[3] == 'P');
    assert(jump_rule(BLACKLIST_CHAIN@)[3] == 'B');
    assert(jump_rule(BANDWIDTH_IN_CHAIN@)[3] == 'B');
    assert(jump_rule(BANDWIDTH_OUT_CHAIN@)[3] == 'B');
}

/// The rules that let the host's own addresses in are plain.
pub proof fn lemma_local_plain(addrs: Seq<IpAddress>)
    ensures
        all_plain(local_rules(addrs)),
    decreases addrs.len(),
{
    if addrs.len() > 0 {
        lemma_local_plain(addrs.drop_last());
        match addrs.last() {
            IpAddress::V4(a) => {
                reveal_strlit("-s ");
                let r = "-s "@ + ipv4_text(a) + " -j ACCEPT"@;
                assert(("-s "@ + ipv4_text(a))[1] == 's');
                assert(r[1] == 's');
                lemma_plain_rule(r);
                lemma_plain_one(TableOpView::AppendUnique { chain: PROTECT_CHAIN@, rule: r });
                lemma_plain_concat(local_rules(addrs.drop_last()), seq![TableOpView::AppendUnique { chain: PROTECT_CHAIN@, rule: r }]);
            },
            IpAddress::V6(_) => {
                lemma_plain_concat(local_rules(addrs.drop_last()), Seq::empty());
            },
        }
    }
}

/// The rules of the whitelisted blocks are plain.
pub proof fn lemma_whitelist_plain(ips: Seq<Cidr>)
    ensures
        all_plain(all_whitelist_rules(ips)),
    decreases ips.len(),
{
    if ips.len() > 0 {
        lemma_whitelist_plain(ips.drop_last());
        let ip = ips.last();
        if ip is V4 {
            reveal_strlit(" -s ");
            reveal_strlit(" -d ");
            let t = cidr_text(ip);
            let r0 = " -s "@ + t + " -j RETURN"@;
            let r1 = " -d "@ + t + " -j RETURN"@;
            let r2 = " -s "@ + t + " -j ACCEPT"@;
            assert((" -s "@ + t)[0] == ' ' && (" -d "@ + t)[0] == ' ');
            assert(r0[0] == ' ' && r1[0] == ' ' && r2[0] == ' ');
            lemma_plain_rule(r0);
            lemma_plain_rule(r1);
            lemma_plain_rule(r2);
            let ops = whitelist_rules(ip);
            lemma_plain_two(ops[0], ops[1]);
            lemma_plain_one(ops[2]);
            lemma_plain_concat(seq![ops[0], ops[1]], seq![ops[2]]);
            assert(seq![ops[0], ops[1]] + seq![ops[2]] =~= ops);
        }
        lemma_plain_concat(all_whitelist_rules(ips.drop_last()), whitelist_rules(ip));
    }
}

/// The rules of the blacklisted blocks are plain.
pub proof fn lemma_blacklist_plain(ips: Seq<Cidr>, deny: Seq<char>)
    ensures
        all_plain(all_blacklist_rules(ips, deny)),
    decreases ips.len(),
{
    if ips.len() > 0 {
        lemma_blacklist_plain(ips.drop_last(), deny);
        let ip = ips.last();
        if ip is V4 {
            reveal_strlit(" -s ");
            let r = " -s "@ + cidr_text(ip) + " -j "@ + deny;
            assert((" -s "@ + cidr_text(ip))[0] == ' ');
            assert((" -s "@ + cidr_text(ip) + " -j "@)[0] == ' ');
            assert(r[0] == ' ');
            lemma_plain_rule(r);
            lemma_plain_one(blacklist_rules(ip, deny)[0]);
            assert(seq![blacklist_rules(ip, deny)[0]] =~= blacklist_rules(ip, deny));
        }
        lemma_plain_concat(all_blacklist_rules(ips.drop_last(), deny), blacklist_rules(ip, deny));
    }
}

/// The rules of the whitelisted ports are plain.
pub proof fn lemma_allow_plain(ports: Seq<u16>)
    ensures
        all_plain(all_allow_port_rules(ports)),
    decreases ports.len(),
{
    if ports.len() > 0 {
        lemma_allow_plain(ports.drop_last());
        let p = ports.last();
        let d = decimal(p as nat);
        reveal_strlit("-p tcp --dport ");
        reveal_strlit("-p udp --dport ");
        reveal_strlit("-p tcp --sport ");
        reveal_strlit("-p udp --sport ");
        assert(("-p tcp --dport "@ + d + " -j ACCEPT"@)[1] == 'p') by { assert(("-p tcp --dport "@ + d)[1] == 'p'); }
        assert(("-p udp --dport "@ + d + " -j ACCEPT"@)[1] == 'p') by { assert(("-p udp --dport "@ + d)[1] == 'p'); }
        assert(("-p tcp --sport "@ + d + " -j ACCEPT"@)[1] == 'p') by { assert(("-p tcp --sport "@ + d)[1] == 'p'); }
        assert(("-p udp --sport "@ + d + " -j ACCEPT"@)[1] == 'p') by { assert(("-p udp --sport "@ + d)[1] == 'p'); }
        lemma_plain_rule("-p tcp --dport "@ + d + " -j ACCEPT"@);
        lemma_plain_rule("-p udp --dport "@ + d + " -j ACCEPT"@);
        lemma_plain_rule("-p tcp --sport "@ + d + " -j ACCEPT"@);
        lemma_plain_rule("-p udp --sport "@ + d + " -j ACCEPT"@);
        let ops = allow_port_rules(p);
        lemma_plain_two(ops[0], ops[1]);
        lemma_plain_two(ops[2], ops[3]);
        lemma_plain_concat(seq![ops[0], ops[1]], seq![ops[2], ops[3]]);
        assert(seq![ops[0], ops[1]] + seq![ops[2], ops[3]] =~= ops);
        lemma_plain_concat(all_allow_port_rules(ports.drop_last()), ops);
    }
}

/// The rules that guard the protected ports are plain.
pub proof fn lemma_ban_plain(ports: Seq<u16>, n: Seq<char>, tm: Seq<char>, valid: bool, deny: Seq<char>)
    ensures
        all_plain(all_ban_port_rules(ports, n, tm, valid, deny)),
    decreases ports.len(),
{
    if ports.len() > 0 {
        lemma_ban_plain(ports.drop_last(), n, tm, valid, deny);
        let p = ports.last();
        let d = decimal(p as nat);
        reveal_strlit("-p tcp --dport ");
        reveal_strlit("-p udp --dport ");
        let ops = ban_port_rules(p, n, tm, valid, deny);
        let a = seq![ops[0], ops[1]];
        let b = if valid { seq![ops[2], ops[3]] } else { Seq::<TableOpView>::empty() };
        let c = if valid { seq![ops[4], ops[5]] } else { seq![ops[2], ops[3]] };
        assert(ops =~= a + b + c);
        assert forall|i: int| 0 <= i < ops.len() implies adds_plain_rule(#[trigger] ops[i]) by {
            match ops[i] {
                TableOpView::AppendUnique { chain, rule } => {
                    assert(rule.subrange(0, 15) == "-p tcp --dport "@ || rule.subrange(0, 15) == "-p udp --dport "@);
                    assert(rule[1] == rule.subrange(0, 15)[1]);
                    lemma_plain_rule(rule);
                },
                _ => {},
            }
        }
        lemma_plain_concat(all_ban_port_rules(ports.drop_last(), n, tm, valid, deny), ops);
    }
}

/// The rules of a state, after the chains are made, are plain, where refused packets are
/// dropped or rejected.
pub proof fn lemma_init_plain(st: FilterState, local: Seq<IpAddress>)
    requires
        st.deny_action == "DROP"@ || st.deny_action == "REJECT"@,
    ensures
        all_plain(local_rules(local)
            + seq![TableOpView::AppendUnique { chain: PROTECT_CHAIN@, rule: "-p icmp -j ACCEPT"@ }]
            + all_whitelist_rules(st.whitelisted_ips) + all_blacklist_rules(st.blacklisted_ips, st.deny_action)
            + all_allow_port_rules(st.whitelisted_ports) + protection_rules(st)),
{
    let icmp = TableOpView::AppendUnique { chain: PROTECT_CHAIN@, rule: "-p icmp -j ACCEPT"@ };
    reveal_strlit("-p icmp -j ACCEPT");
    lemma_plain_rule("-p icmp -j ACCEPT"@);
    lemma_plain_one(icmp);
    lemma_local_plain(local);
    lemma_whitelist_plain(st.whitelisted_ips);
    lemma_blacklist_plain(st.blacklisted_ips, st.deny_action);
    lemma_allow_plain(st.whitelisted_ports);
    if st.blacklisted_ports.len() > 0 {
        let trig = crate::filer_service::service::trigger_parts(st.rate_trigger);
        lemma_ban_plain(st.blacklisted_ports, trig.0, trig.1, trig.2, st.deny_action);
    } else {
        lemma_deny_plain(st.deny_action);
        lemma_plain_one(TableOpView::AppendUnique { chain: PROTECT_CHAIN@, rule: "-j "@ + st.deny_action });
    }
    let l = local_rules(local);
    lemma_plain_concat(l, seq![icmp]);
    lemma_plain_concat(l + seq![icmp], all_whitelist_rules(st.whitelisted_ips));
    lemma_plain_concat(l + seq![icmp] + all_whitelist_rules(st.whitelisted_ips), all_blacklist_rules(st.blacklisted_ips, st.deny_action));
    lemma_plain_concat(l + seq![icmp] + all_whitelist_rules(st.whitelisted_ips) + all_blacklist_rules(st.blacklisted_ips, st.deny_action),
        all_allow_port_rules(st.whitelisted_ports));
    lemma_plain_concat(l + seq![icmp] + all_whitelist_rules(st.whitelisted_ips) + all_blacklist_rules(st.blacklisted_ips, st.deny_action)
        + all_allow_port_rules(st.whitelisted_ports), protection_rules(st));
}

/// What a chain held stays in it when a rule is put into it.
pub proof fn lemma_rules_kept(s: Seq<Seq<char>>, p: int, a: Seq<char>, x: Seq<char>)
    requires
        0 <= p <= s.len(),
        s.contains(x),
    ensures
        s.insert(p, a).contains(x),
        s.push(a).contains(x),
{
    s.insert_ensures(p, a);
    let i = choose|i: int| 0 <= i < s.len() && s[i] == x;
    if i < p {
        assert(s.insert(p, a)[i] == x);
    } else {
        assert(s.insert(p, a)[i + 1] == x);
    }
    assert(s.push(a)[i] == x);
}

/// A rule put first into one of the service's chains, or appended to it, by a list of plain
/// changes made on set-up chains, is in that chain afterwards.
pub proof fn lemma_added_rule_stays(u: FilterTable, t: FilterTable, ops: Seq<TableOpView>, i: int, c: Seq<char>, r: Seq<char>)
    requires
        set_up_from(u, t),
        all_plain(ops),
        0 <= i < ops.len(),
        ops[i] == (TableOpView::AppendUnique { chain: c, rule: r })
            || ops[i] == (TableOpView::InsertUnique { chain: c, rule: r, position: 1 }),
    ensures
        apply_ops(u, ops).contains_key(c),
        apply_ops(u, ops)[c].contains(r),
    decreases ops.len(),
{
    let n = ops.len();
    let init = ops.drop_last();
    assert forall|j: int| 0 <= j < init.len() implies adds_plain_rule(#[trigger] init[j]) by {
        assert(init[j] == ops[j]);
    }
    lemma_plain_all(u, t, init);
    let v = apply_ops(u, init);
    let op = ops.last();
    assert(adds_plain_rule(ops[n - 1]));
    assert(service_chain(op_chain(op)));
    assert(v.contains_key(op_chain(op)));
    assert(adds_plain_rule(ops[i]));
    assert(service_chain(c));
    if i == n - 1 {
        if op is AppendUnique {
            if !v[c].contains(r) {
                assert(v[c].push(r)[v[c].len() as int] == r);
            }
        } else {
            if !v[c].contains(r) {
                assert(v[c].insert(0, r)[0] == r);
            }
        }
    } else {
        assert(init[i] == ops[i]);
        lemma_added_rule_stays(u, t, init, i, c, r);
        if op_chain(op) != c {
            lemma_op_local(v, op, c);
        } else {
            match op {
                TableOpView::AppendUnique { chain, rule } => {
                    lemma_rules_kept(v[c], 0, rule, r);
                },
                TableOpView::InsertUnique { chain, rule, position } => {
                    if 1 <= position <= v[c].len() + 1 {
                        lemma_rules_kept(v[c], position - 1, rule, r);
                    }
                },
                _ => {},
            }
        }
    }
}

} // verus!
