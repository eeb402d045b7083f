//! Firewall model: tables, chains and rules, rule validation, conflict
//! analysis and the iptables arguments that apply a rule.
use vstd::prelude::*;
use crate::error::NovaError;
use crate::ids::{new_uuid_text, uuid_v4_text};
use crate::gpu_passthrough::{clone_opt, opt_view};
use crate::text::{
    cat, cat_dec, chars_of, dec, dec_string, is_digit, lines, lines_exec, str_eq, views, words, words_exec,
    starts_with, str_starts_with,
};

verus! {

#[derive(Debug, Clone, Copy, PartialEq, Eq, Structural)]
pub enum FirewallBackend {
    Iptables,
    Nftables,
    Firewalld,
    Ufw,
}

#[derive(Debug, Clone)]
pub struct FirewallRule {
    pub id: String,
    pub chain: String,
    pub table: String,
    pub target: RuleTarget,
    pub protocol: Option<Protocol>,
    pub source: Option<NetworkAddress>,
    pub destination: Option<NetworkAddress>,
    pub port_range: Option<PortRange>,
    pub interface: Option<String>,
    pub state: Option<ConnectionState>,
    pub comment: Option<String>,
    pub enabled: bool,
    pub priority: u32,
}

#[derive(Debug, Clone)]
pub enum RuleTarget {
    Accept,
    Drop,
    Reject,
    Log,
    Return,
    Jump(String),
    Goto(String),
    Masquerade,
    Snat(String),
    Dnat(String),
    Redirect(u16),
}

#[derive(Debug, Clone)]
pub enum Protocol {
    Tcp,
    Udp,
    Icmp,
    All,
    Custom(String),
}

#[derive(Debug, Clone)]
pub struct NetworkAddress {
    pub address: String,
    pub cidr: Option<u8>,
    pub negated: bool,
}

#[derive(Debug, Clone, Copy)]
pub struct PortRange {
    pub start: u16,
    pub end: Option<u16>,
    pub negated: bool,
}

#[derive(Debug, Clone, Copy, PartialEq, Eq, Structural)]
pub enum ConnectionState {
    New,
    Established,
    Related,
    Invalid,
    Untracked,
}

#[derive(Debug, Clone)]
pub struct FirewallChain {
    pub name: String,
    pub table: String,
    pub policy: ChainPolicy,
    pub rules: Vec<FirewallRule>,
    pub packets: u64,
    pub bytes: u64,
}

#[derive(Debug, Clone, Copy, PartialEq, Eq, Structural)]
pub enum ChainPolicy {
    Accept,
    Drop,
    Return,
}

/// A table and its chains (chain names are distinct).
#[derive(Debug, Clone)]
pub struct FirewallTable {
    pub name: String,
    pub chains: Vec<FirewallChain>,
}

#[derive(Debug, Clone)]
pub struct TrafficFlow {
    pub id: String,
    pub source_ip: String,
    pub dest_ip: String,
    pub source_port: u16,
    pub dest_port: u16,
    pub protocol: Protocol,
    pub packets_per_second: u64,
    pub bytes_per_second: u64,
    /// Which rules this traffic matched
    pub rule_path: Vec<String>,
    pub verdict: RuleTarget,
    pub interface_in: Option<String>,
    pub interface_out: Option<String>,
}

#[derive(Debug, Clone)]
pub struct NetworkInterface {
    pub name: String,
    pub ip_addresses: Vec<String>,
    pub mac_address: String,
    pub mtu: u16,
    pub state: InterfaceState,
    pub rx_bytes: u64,
    pub tx_bytes: u64,
    pub rx_packets: u64,
    pub tx_packets: u64,
}

#[derive(Debug, Clone, Copy, PartialEq, Eq, Structural)]
pub enum InterfaceState {
    Up,
    Down,
    Unknown,
}

#[derive(Debug, Clone)]
pub struct RuleConflict {
    pub rule1_id: String,
    pub rule2_id: String,
    pub conflict_type: ConflictType,
    pub description: String,
    pub severity: ConflictSeverity,
}

#[derive(Debug, Clone, Copy, PartialEq, Eq, Structural)]
pub enum ConflictType {
    /// Rule never matches due to earlier rule
    Shadowing,
    /// Rule duplicates existing functionality
    Redundant,
    /// Rules have opposing effects
    Contradictory,
    /// Rule ordering causes performance issues
    Performance,
}

#[derive(Debug, Clone, Copy, PartialEq, Eq, Structural)]
pub enum ConflictSeverity {
    Low,
    Medium,
    High,
    Critical,
}

#[derive(Debug, Clone, Copy, PartialEq, Eq, Structural)]
pub enum NodeType {
    Router,
    Switch,
    Bridge,
    Firewall,
    Host,
    Container,
    VM,
    Internet,
}

#[derive(Debug, Clone, Copy, PartialEq, Eq, Structural)]
pub enum NodeStatus {
    Active,
    Inactive,
    Warning,
    Error,
}

#[derive(Debug, Clone, Copy, PartialEq, Eq, Structural)]
pub enum ConnectionType {
    Physical,
    Virtual,
    Tunnel,
    Bridge,
}

#[derive(Debug, Clone, Copy, PartialEq, Eq, Structural)]
pub enum ConnectionStatus {
    Up,
    Down,
    Degraded,
}

// ---------------------------------------------------------------------------
// Equality of rule parts, as the rules compare them
// ---------------------------------------------------------------------------

pub open spec fn protocol_eq(a: Protocol, b: Protocol) -> bool {
    match (a, b) {
        (Protocol::Tcp, Protocol::Tcp) => true,
        (Protocol::Udp, Protocol::Udp) => true,
        (Protocol::Icmp, Protocol::Icmp) => true,
        (Protocol::All, Protocol::All) => true,
        (Protocol::Custom(x), Protocol::Custom(y)) => x@ == y@,
        _ => false,
    }
}

pub open spec fn opt_protocol_eq(a: Option<Protocol>, b: Option<Protocol>) -> bool {
    match (a, b) {
        (None, None) => true,
        (Some(x), Some(y)) => protocol_eq(x, y),
        _ => false,
    }
}

pub open spec fn address_eq(a: NetworkAddress, b: NetworkAddress) -> bool {
    a.address@ == b.address@ && a.cidr == b.cidr && a.negated == b.negated
}

pub open spec fn opt_address_eq(a: Option<NetworkAddress>, b: Option<NetworkAddress>) -> bool {
    match (a, b) {
        (None, None) => true,
        (Some(x), Some(y)) => address_eq(x, y),
        _ => false,
    }
}

pub open spec fn target_eq(a: RuleTarget, b: RuleTarget) -> bool {
    match (a, b) {
        (RuleTarget::Accept, RuleTarget::Accept) => true,
        (RuleTarget::Drop, RuleTarget::Drop) => true,
        (RuleTarget::Reject, RuleTarget::Reject) => true,
        (RuleTarget::Log, RuleTarget::Log) => true,
        (RuleTarget::Return, RuleTarget::Return) => true,
        (RuleTarget::Jump(x), RuleTarget::Jump(y)) => x@ == y@,
        (RuleTarget::Goto(x), RuleTarget::Goto(y)) => x@ == y@,
        (RuleTarget::Masquerade, RuleTarget::Masquerade) => true,
        (RuleTarget::Snat(x), RuleTarget::Snat(y)) => x@ == y@,
        (RuleTarget::Dnat(x), RuleTarget::Dnat(y)) => x@ == y@,
        (RuleTarget::Redirect(x), RuleTarget::Redirect(y)) => x == y,
        _ => false,
    }
}

/// Two rules have the same protocol, source, destination and target.
pub open spec fn rules_equivalent(a: FirewallRule, b: FirewallRule) -> bool {
    opt_protocol_eq(a.protocol, b.protocol) && opt_address_eq(a.source, b.source)
        && opt_address_eq(a.destination, b.destination) && target_eq(a.target, b.target)
}

fn protocol_eq_exec(a: &Option<Protocol>, b: &Option<Protocol>) -> (r: bool)
    ensures
        r == opt_protocol_eq(*a, *b),
{
    match (a, b) {
        (None, None) => true,
        (Some(x), Some(y)) => match (x, y) {
            (Protocol::Tcp, Protocol::Tcp) => true,
            (Protocol::Udp, Protocol::Udp) => true,
            (Protocol::Icmp, Protocol::Icmp) => true,
            (Protocol::All, Protocol::All) => true,
            (Protocol::Custom(p), Protocol::Custom(q)) => str_eq(p.as_str(), q.as_str()),
            _ => false,
        },
        _ => false,
    }
}

fn address_eq_exec(a: &Option<NetworkAddress>, b: &Option<NetworkAddress>) -> (r: bool)
    ensures
        r == opt_address_eq(*a, *b),
{
    match (a, b) {
        (None, None) => true,
        (Some(x), Some(y)) => str_eq(x.address.as_str(), y.address.as_str()) && x.cidr == y.cidr
            && x.negated == y.negated,
        _ => false,
    }
}

fn target_eq_exec(a: &RuleTarget, b: &RuleTarget) -> (r: bool)
    ensures
        r == target_eq(*a, *b),
{
    match (a, b) {
        (RuleTarget::Accept, RuleTarget::Accept) => true,
        (RuleTarget::Drop, RuleTarget::Drop) => true,
        (RuleTarget::Reject, RuleTarget::Reject) => true,
        (RuleTarget::Log, RuleTarget::Log) => true,
        (RuleTarget::Return, RuleTarget::Return) => true,
        (RuleTarget::Jump(x), RuleTarget::Jump(y)) => str_eq(x.as_str(), y.as_str()),
        (RuleTarget::Goto(x), RuleTarget::Goto(y)) => str_eq(x.as_str(), y.as_str()),
        (RuleTarget::Masquerade, RuleTarget::Masquerade) => true,
        (RuleTarget::Snat(x), RuleTarget::Snat(y)) => str_eq(x.as_str(), y.as_str()),
        (RuleTarget::Dnat(x), RuleTarget::Dnat(y)) => str_eq(x.as_str(), y.as_str()),
        (RuleTarget::Redirect(x), RuleTarget::Redirect(y)) => *x == *y,
        _ => false,
    }
}

fn rules_equivalent_exec(a: &FirewallRule, b: &FirewallRule) -> (r: bool)
    ensures
        r == rules_equivalent(*a, *b),
{
    protocol_eq_exec(&a.protocol, &b.protocol) && address_eq_exec(&a.source, &b.source)
        && address_eq_exec(&a.destination, &b.destination) && target_eq_exec(&a.target, &b.target)
}

/// Rule equivalence is reflexive and symmetric.
pub proof fn law_rules_equivalent_reflexive_symmetric(a: FirewallRule, b: FirewallRule)
    ensures
        rules_equivalent(a, a),
        rules_equivalent(a, b) == rules_equivalent(b, a),
{
}


// ---------------------------------------------------------------------------
// Conflict analysis
// ---------------------------------------------------------------------------

/// Positions `(i, j)`, `j` from `from` on, of rules equivalent to rule `i`.
pub open spec fn pairs_after(rules: Seq<FirewallRule>, i: int, from: int) -> Seq<(int, int)>
    decreases rules.len() - from,
{
    if from >= rules.len() || from < 0 {
        Seq::empty()
    } else {
        (if rules_equivalent(rules[i], rules[from]) {
            seq![(i, from)]
        } else {
            Seq::empty()
        }) + pairs_after(rules, i, from + 1)
    }
}

/// All positions `(i, j)`, `i < j`, `i` from `from` on, of equivalent rules,
/// ordered by `i` then `j`.
pub open spec fn pairs_from(rules: Seq<FirewallRule>, from: int) -> Seq<(int, int)>
    decreases rules.len() - from,
{
    if from >= rules.len() || from < 0 {
        Seq::empty()
    } else {
        pairs_after(rules, from, from + 1) + pairs_from(rules, from + 1)
    }
}

/// Every position `(i, j)` listed by `pairs_after` has `j` at or after `from`,
/// with rule `j` equivalent to rule `i`; every such `j` is listed.
proof fn lemma_pairs_after(rules: Seq<FirewallRule>, i: int, from: int)
    requires
        0 <= from,
    ensures
        forall|k: int| 0 <= k < pairs_after(rules, i, from).len() ==> {
            let p = #[trigger] pairs_after(rules, i, from)[k];
            p.0 == i && from <= p.1 < rules.len() && rules_equivalent(rules[i], rules[p.1])
        },
        forall|j: int| from <= j < rules.len() && rules_equivalent(rules[i], #[trigger] rules[j])
            ==> pairs_after(rules, i, from).contains((i, j)),
    decreases rules.len() - from,
{
    if from < rules.len() {
        lemma_pairs_after(rules, i, from + 1);
        let head: Seq<(int, int)> = if rules_equivalent(rules[i], rules[from]) {
            seq![(i, from)]
        } else {
            Seq::empty()
        };
        let rest = pairs_after(rules, i, from + 1);
        assert(pairs_after(rules, i, from) == head + rest);
        assert forall|j: int| from <= j < rules.len() && rules_equivalent(rules[i], #[trigger] rules[j])
            implies pairs_after(rules, i, from).contains((i, j)) by {
            if j == from {
                assert((head + rest)[0] == (i, j));
            } else {
                let k = choose|k: int| 0 <= k < rest.len() && rest[k] == (i, j);
                assert((head + rest)[head.len() + k] == (i, j));
            }
        }
    }
}

/// Every position `(i, j)` listed by `pairs_from` has `from <= i < j`, with
/// rules `i` and `j` equivalent; every such pair is listed.
proof fn lemma_pairs_from(rules: Seq<FirewallRule>, from: int)
    requires
        0 <= from,
    ensures
        forall|k: int| 0 <= k < pairs_from(rules, from).len() ==> {
            let p = #[trigger] pairs_from(rules, from)[k];
            from <= p.0 < p.1 < rules.len() && rules_equivalent(rules[p.0], rules[p.1])
        },
        forall|i: int, j: int| from <= i < j < rules.len() && rules_equivalent(
            #[trigger] rules[i],
            #[trigger] rules[j],
        ) ==> pairs_from(rules, from).contains((i, j)),
    decreases rules.len() - from,
{
    if from < rules.len() {
        lemma_pairs_from(rules, from + 1);
        lemma_pairs_after(rules, from, from + 1);
        let a = pairs_after(rules, from, from + 1);
        let b = pairs_from(rules, from + 1);
        assert(pairs_from(rules, from) == a + b);
        assert forall|k: int| 0 <= k < pairs_from(rules, from).len() implies {
            let p = #[trigger] pairs_from(rules, from)[k];
            from <= p.0 < p.1 < rules.len() && rules_equivalent(rules[p.0], rules[p.1])
        } by {
            if k < a.len() {
                assert((a + b)[k] == a[k]);
            } else {
                assert((a + b)[k] == b[k - a.len()]);
            }
        }
        assert forall|i: int, j: int| from <= i < j < rules.len() && rules_equivalent(
            #[trigger] rules[i],
            #[trigger] rules[j],
        ) implies pairs_from(rules, from).contains((i, j)) by {
            if i == from {
                assert(a.contains((i, j)));
                let k = choose|k: int| 0 <= k < a.len() && a[k] == (i, j);
                assert((a + b)[k] == (i, j));
            } else {
                assert(b.contains((i, j)));
                let k = choose|k: int| 0 <= k < b.len() && b[k] == (i, j);
                assert((a + b)[a.len() + k] == (i, j));
            }
        }
    }
}

/// Rules `a` and `b` match the same packets with the same target: equal
/// target, protocol, source and destination.
pub open spec fn same_match_and_target(a: FirewallRule, b: FirewallRule) -> bool {
    &&& target_eq(a.target, b.target)
    &&& opt_protocol_eq(a.protocol, b.protocol)
    &&& opt_address_eq(a.source, b.source)
    &&& opt_address_eq(a.destination, b.destination)
}

/// The redundancies reported for a chain are exactly its pairs of an earlier
/// and a later rule with equal target, protocol, source and destination: a
/// reported pair never has two different targets (an accepting and a dropping
/// rule are never called equivalent), and no such pair goes unreported.
pub proof fn law_chain_redundancies(rules: Seq<FirewallRule>, cs: Seq<RuleConflict>)
    requires
        chain_conflicts_ok(rules, cs),
    ensures
        forall|k: int| #![trigger cs[k]] 0 <= k < cs.len() ==> exists|i: int, j: int|
            #![trigger rules[i], rules[j]]
            0 <= i < j < rules.len() && is_redundancy(cs[k], rules[i], rules[j])
                && same_match_and_target(rules[i], rules[j]),
        forall|i: int, j: int| 0 <= i < j < rules.len() && same_match_and_target(
            #[trigger] rules[i],
            #[trigger] rules[j],
        ) ==> exists|k: int| 0 <= k < cs.len() && is_redundancy(#[trigger] cs[k], rules[i], rules[j]),
{
    lemma_pairs_from(rules, 0);
    let p = pairs_from(rules, 0);
    assert forall|k: int| #![trigger cs[k]] 0 <= k < cs.len() implies exists|i: int, j: int|
        #![trigger rules[i], rules[j]]
        0 <= i < j < rules.len() && is_redundancy(cs[k], rules[i], rules[j])
            && same_match_and_target(rules[i], rules[j]) by {
        let q = p[k];
        assert(is_redundancy(cs[k], rules[q.0], rules[q.1]));
    }
    assert forall|i: int, j: int| 0 <= i < j < rules.len() && same_match_and_target(
        #[trigger] rules[i],
        #[trigger] rules[j],
    ) implies exists|k: int| 0 <= k < cs.len() && is_redundancy(#[trigger] cs[k], rules[i], rules[j]) by {
        assert(rules_equivalent(rules[i], rules[j]));
        assert(p.contains((i, j)));
        let k = choose|k: int| 0 <= k < p.len() && p[k] == (i, j);
        assert(is_redundancy(cs[k], rules[i], rules[j]));
    }
}

/// `x` reports as redundant an earlier and a later rule of one of `chains`,
/// rules with equal target, protocol, source and destination.
pub open spec fn redundancy_in(chains: Seq<FirewallChain>, x: RuleConflict) -> bool {
    exists|c: int, i: int, j: int|
        #![trigger chains[c].rules@[i], chains[c].rules@[j]]
        0 <= c < chains.len() && 0 <= i < j < chains[c].rules@.len()
            && is_redundancy(x, chains[c].rules@[i], chains[c].rules@[j])
            && same_match_and_target(chains[c].rules@[i], chains[c].rules@[j])
}

proof fn lemma_redundancy_in_front(chains: Seq<FirewallChain>, x: RuleConflict)
    requires
        chains.len() > 0,
        redundancy_in(chains.drop_last(), x),
    ensures
        redundancy_in(chains, x),
{
    let init = chains.drop_last();
    let (c, i, j) = choose|c: int, i: int, j: int|
        #![trigger init[c].rules@[i], init[c].rules@[j]]
        0 <= c < init.len() && 0 <= i < j < init[c].rules@.len()
            && is_redundancy(x, init[c].rules@[i], init[c].rules@[j])
            && same_match_and_target(init[c].rules@[i], init[c].rules@[j]);
    assert(init[c] == chains[c]);
    assert(chains[c].rules@[i] == init[c].rules@[i] && chains[c].rules@[j] == init[c].rules@[j]);
}

proof fn lemma_redundancy_in_last(chains: Seq<FirewallChain>, x: RuleConflict, i: int, j: int)
    requires
        chains.len() > 0,
        0 <= i < j < chains.last().rules@.len(),
        is_redundancy(x, chains.last().rules@[i], chains.last().rules@[j]),
        same_match_and_target(chains.last().rules@[i], chains.last().rules@[j]),
    ensures
        redundancy_in(chains, x),
{
    let c = chains.len() - 1;
    assert(chains[c].rules@[i] == chains.last().rules@[i]);
    assert(chains[c].rules@[j] == chains.last().rules@[j]);
}

proof fn lemma_redundancy_in_chain(chains: Seq<FirewallChain>, cs: Seq<RuleConflict>, m: int)
    requires
        chains.len() > 0,
        chain_conflicts_ok(chains.last().rules@, cs),
        0 <= m < cs.len(),
    ensures
        redundancy_in(chains, cs[m]),
{
    let rules = chains.last().rules@;
    law_chain_redundancies(rules, cs);
    let (i, j) = choose|i: int, j: int|
        #![trigger rules[i], rules[j]]
        0 <= i < j < rules.len() && is_redundancy(cs[m], rules[i], rules[j])
            && same_match_and_target(rules[i], rules[j]);
    lemma_redundancy_in_last(chains, cs[m], i, j);
}

/// Over all chains, every reported conflict names an earlier and a later rule
/// of one chain with equal target, protocol, source and destination.
pub proof fn law_redundancies_match(chains: Seq<FirewallChain>, cs: Seq<RuleConflict>)
    requires
        conflicts_ok(chains, cs),
    ensures
        forall|k: int| 0 <= k < cs.len() ==> redundancy_in(chains, #[trigger] cs[k]),
    decreases chains.len(),
{
    if chains.len() > 0 {
        let rules = chains.last().rules@;
        let n = pairs_from(rules, 0).len();
        let front = cs.take(cs.len() - n);
        let back = cs.skip(cs.len() - n);
        law_redundancies_match(chains.drop_last(), front);
        assert forall|k: int| 0 <= k < cs.len() implies redundancy_in(chains, #[trigger] cs[k]) by {
            if k < cs.len() - n {
                assert(front[k] == cs[k]);
                lemma_redundancy_in_front(chains, cs[k]);
            } else {
                let m = k - (cs.len() - n);
                assert(back[m] == cs[k]);
                lemma_redundancy_in_chain(chains, back, m);
            }
        }
    }
}

/// `c` reports rules `a` and `b` as redundant.
pub open spec fn is_redundancy(c: RuleConflict, a: FirewallRule, b: FirewallRule) -> bool {
    &&& c.rule1_id@ == a.id@
    &&& c.rule2_id@ == b.id@
    &&& c.conflict_type == ConflictType::Redundant
    &&& c.description@ == "Rules are functionally equivalent"@
    &&& c.severity == ConflictSeverity::Medium
}

/// `cs` reports, in order, the redundant pairs of a chain's rules.
pub open spec fn chain_conflicts_ok(rules: Seq<FirewallRule>, cs: Seq<RuleConflict>) -> bool {
    let p = pairs_from(rules, 0);
    cs.len() == p.len() && forall|k: int|
        0 <= k < p.len() ==> is_redundancy(#[trigger] cs[k], rules[p[k].0], rules[p[k].1])
}

/// The chains of all tables, tables in order and each table's chains in order.
pub open spec fn all_chains(ts: Seq<FirewallTable>) -> Seq<FirewallChain>
    decreases ts.len(),
{
    if ts.len() == 0 {
        Seq::empty()
    } else {
        all_chains(ts.drop_last()) + ts.last().chains@
    }
}

/// `cs` holds, chain after chain, the redundant pairs of each chain.
pub open spec fn conflicts_ok(chains: Seq<FirewallChain>, cs: Seq<RuleConflict>) -> bool
    decreases chains.len(),
{
    if chains.len() == 0 {
        cs.len() == 0
    } else {
        let n = pairs_from(chains.last().rules@, 0).len();
        n <= cs.len() && conflicts_ok(chains.drop_last(), cs.take(cs.len() - n))
            && chain_conflicts_ok(chains.last().rules@, cs.skip(cs.len() - n))
    }
}

fn redundancy(a: &FirewallRule, b: &FirewallRule) -> (c: RuleConflict)
    ensures
        is_redundancy(c, *a, *b),
{
    RuleConflict {
        rule1_id: a.id.clone(),
        rule2_id: b.id.clone(),
        conflict_type: ConflictType::Redundant,
        description: "Rules are functionally equivalent".to_owned(),
        severity: ConflictSeverity::Medium,
    }
}

/// The conflict, if any, between an earlier and a later rule of a chain:
/// shadowing never arises as no two rules are known to overlap; equivalent
/// rules are redundant.
fn detect_conflict(rule1: &FirewallRule, rule2: &FirewallRule) -> (r: Option<RuleConflict>)
    ensures
        rules_equivalent(*rule1, *rule2) ==> (r matches Some(c) && is_redundancy(c, *rule1, *rule2)),
        !rules_equivalent(*rule1, *rule2) ==> r is None,
{
    if rules_equivalent_exec(rule1, rule2) {
        Some(redundancy(rule1, rule2))
    } else {
        None
    }
}

fn chain_conflicts(rules: &Vec<FirewallRule>) -> (cs: Vec<RuleConflict>)
    ensures
        chain_conflicts_ok(rules@, cs@),
{
    let ghost rs = rules@;
    let mut cs: Vec<RuleConflict> = Vec::new();
    let ghost mut done: Seq<(int, int)> = Seq::empty();
    let mut i: usize = 0;
    while i < rules.len()
        invariant
            rs == rules@,
            i <= rules.len(),
            done + pairs_from(rs, i as int) == pairs_from(rs, 0),
            cs@.len() == done.len(),
            forall|k: int|
                0 <= k < done.len() ==> is_redundancy(#[trigger] cs@[k], rs[done[k].0], rs[done[k].1]),
        decreases rules.len() - i,
    {
        let mut j: usize = i + 1;
        let ghost done_i = done;
        assert(pairs_from(rs, i as int) == pairs_after(rs, i as int, i + 1) + pairs_from(rs, i + 1));
        while j < rules.len()
            invariant
                rs == rules@,
                i < rules.len(),
                i + 1 <= j <= rules.len(),
                done + pairs_after(rs, i as int, j as int) == done_i + pairs_after(rs, i as int, i + 1),
                cs@.len() == done.len(),
                forall|k: int|
                    0 <= k < done.len() ==> is_redundancy(#[trigger] cs@[k], rs[done[k].0], rs[done[k].1]),
            decreases rules.len() - j,
        {
            let ghost d0 = done;
            let ghost c0 = cs@;
            if let Some(c) = detect_conflict(&rules[i], &rules[j]) {
                cs.push(c);
                proof {
                    done = done.push((i as int, j as int));
                    assert forall|k: int| 0 <= k < done.len() implies is_redundancy(
                        #[trigger] cs@[k],
                        rs[done[k].0],
                        rs[done[k].1],
                    ) by {
                        if k < d0.len() {
                            assert(cs@[k] == c0[k]);
                        }
                    }
                }
                assert(d0 + pairs_after(rs, i as int, j as int) =~= done + pairs_after(rs, i as int, j + 1));
            } else {
                assert(d0 + pairs_after(rs, i as int, j as int) =~= done + pairs_after(rs, i as int, j + 1));
            }
            j += 1;
        }
        assert(done_i + pairs_from(rs, i as int) =~= done + pairs_from(rs, i + 1));
        i += 1;
    }
    assert(done =~= pairs_from(rs, 0));
    cs
}

// ---------------------------------------------------------------------------
// Manager
// ---------------------------------------------------------------------------

pub struct FirewallManager {
    backend: FirewallBackend,
    tables: Vec<FirewallTable>,
    active_flows: Vec<TrafficFlow>,
    interfaces: Vec<NetworkInterface>,
    rule_conflicts: Vec<RuleConflict>,
}

/// No two chains share a name.
pub open spec fn chains_distinct(cs: Seq<FirewallChain>) -> bool {
    forall|i: int, j: int| 0 <= i < j < cs.len() ==> #[trigger] cs[i].name@ != #[trigger] cs[j].name@
}

/// No two tables share a name, and each table's chains are distinct.
pub open spec fn tables_wf(ts: Seq<FirewallTable>) -> bool {
    &&& forall|i: int, j: int| 0 <= i < j < ts.len() ==> #[trigger] ts[i].name@ != #[trigger] ts[j].name@
    &&& forall|i: int| 0 <= i < ts.len() ==> chains_distinct(#[trigger] ts[i].chains@)
}

/// The backend found on the host, in order of preference: firewalld,
/// nftables, iptables, ufw.
pub open spec fn backend_of(
    firewalld: bool,
    nft: bool,
    iptables: bool,
    ufw: bool,
) -> Option<FirewallBackend> {
    if firewalld {
        Some(FirewallBackend::Firewalld)
    } else if nft {
        Some(FirewallBackend::Nftables)
    } else if iptables {
        Some(FirewallBackend::Iptables)
    } else if ufw {
        Some(FirewallBackend::Ufw)
    } else {
        None
    }
}

/// The backend, from whether `firewall-cmd`, `nft`, `iptables` and `ufw`
/// exist; none of them is `SystemCommandFailed`.
pub fn detect_backend(firewalld: bool, nft: bool, iptables: bool, ufw: bool) -> (r: Result<
    FirewallBackend,
    NovaError,
>)
    ensures
        match backend_of(firewalld, nft, iptables, ufw) {
            Some(b) => r == Ok::<FirewallBackend, NovaError>(b),
            None => r == Err::<FirewallBackend, NovaError>(NovaError::SystemCommandFailed),
        },
{
    if firewalld {
        Ok(FirewallBackend::Firewalld)
    } else if nft {
        Ok(FirewallBackend::Nftables)
    } else if iptables {
        Ok(FirewallBackend::Iptables)
    } else if ufw {
        Ok(FirewallBackend::Ufw)
    } else {
        Err(NovaError::SystemCommandFailed)
    }
}

impl FirewallManager {
    pub closed spec fn tables_view(self) -> Seq<FirewallTable> {
        self.tables@
    }

    pub closed spec fn conflicts_view(self) -> Seq<RuleConflict> {
        self.rule_conflicts@
    }

    pub closed spec fn flows_view(self) -> Seq<TrafficFlow> {
        self.active_flows@
    }

    pub closed spec fn backend_view(self) -> FirewallBackend {
        self.backend
    }

    #[verifier::type_invariant]
    spec fn inv(self) -> bool {
        tables_wf(self.tables@)
    }

    /// A manager for the backend found on the host (see `detect_backend`),
    /// with no tables, flows or conflicts yet.
    pub fn new(firewalld: bool, nft: bool, iptables: bool, ufw: bool) -> (r: Result<Self, NovaError>)
        ensures
            match backend_of(firewalld, nft, iptables, ufw) {
                Some(b) => r matches Ok(m) && m.backend_view() == b && m.tables_view().len() == 0
                    && m.conflicts_view().len() == 0 && m.flows_view().len() == 0,
                None => r matches Err(e) && e == NovaError::SystemCommandFailed,
            },
    {
        let backend = detect_backend(firewalld, nft, iptables, ufw)?;
        Ok(
            FirewallManager {
                backend,
                tables: Vec::new(),
                active_flows: Vec::new(),
                interfaces: Vec::new(),
                rule_conflicts: Vec::new(),
            },
        )
    }

    /// The tables; their names are distinct, and so are the chain names of
    /// each table.
    pub fn get_tables(&self) -> (r: &Vec<FirewallTable>)
        ensures
            r@ == self.tables_view(),
            tables_wf(r@),
    {
        proof {
            use_type_invariant(self);
        }
        &self.tables
    }

    pub fn get_active_flows(&self) -> (r: &[TrafficFlow])
        ensures
            r@ == self.flows_view(),
    {
        self.active_flows.as_slice()
    }

    pub fn get_rule_conflicts(&self) -> (r: &[RuleConflict])
        ensures
            r@ == self.conflicts_view(),
    {
        self.rule_conflicts.as_slice()
    }

    pub fn get_backend(&self) -> (r: &FirewallBackend)
        ensures
            *r == self.backend_view(),
    {
        &self.backend
    }

    /// Recomputes the conflicts: for every chain of every table, each pair of
    /// equivalent rules (earlier, later) is reported as redundant.
    pub fn analyze_rule_conflicts(&mut self) -> (r: Result<(), NovaError>)
        ensures
            r is Ok,
            conflicts_ok(all_chains(final(self).tables_view()), final(self).conflicts_view()),
            final(self).tables_view() == old(self).tables_view(),
            final(self).backend_view() == old(self).backend_view(),
            final(self).flows_view() == old(self).flows_view(),
    {
        let out = conflicts_of(&self.tables);
        proof {
            use_type_invariant(&*self);
        }
        self.rule_conflicts = out;
        Ok(())
    }
}

/// The redundant pairs of every chain of every table, chain after chain.
fn conflicts_of(tables: &Vec<FirewallTable>) -> (out: Vec<RuleConflict>)
    ensures
        conflicts_ok(all_chains(tables@), out@),
{
    let mut out: Vec<RuleConflict> = Vec::new();
    let mut t: usize = 0;
    while t < tables.len()
        invariant
            t <= tables.len(),
            conflicts_ok(all_chains(tables@.take(t as int)), out@),
        decreases tables.len() - t,
    {
        let table = &tables[t];
        let ghost before_chains = all_chains(tables@.take(t as int));
        assert(tables@.take(t + 1).drop_last() =~= tables@.take(t as int));
        let mut c: usize = 0;
        assert(before_chains + table.chains@.take(0) =~= before_chains);
        while c < table.chains.len()
            invariant
                t < tables.len(),
                table == &tables[t as int],
                c <= table.chains.len(),
                conflicts_ok(before_chains + table.chains@.take(c as int), out@),
            decreases table.chains.len() - c,
        {
            let ghost o0 = out@;
            let found = chain_conflicts(&table.chains[c].rules);
            let mut k: usize = 0;
            while k < found.len()
                invariant
                    k <= found.len(),
                    out@ == o0 + found@.take(k as int),
                decreases found.len() - k,
            {
                out.push(found[k].clone_conflict());
                assert(out@ =~= o0 + found@.take(k + 1));
                k += 1;
            }
            let ghost chs = before_chains + table.chains@.take(c + 1);
            assert(found@.take(found.len() as int) =~= found@);
            assert(chs.drop_last() =~= before_chains + table.chains@.take(c as int));
            assert(out@.take(out@.len() - found@.len()) =~= o0);
            assert(out@.skip(out@.len() - found@.len()) =~= found@);
            c += 1;
        }
        assert(table.chains@.take(table.chains.len() as int) =~= table.chains@);
        t += 1;
    }
    assert(tables@.take(tables.len() as int) =~= tables@);
    out
}


// ---------------------------------------------------------------------------
// Adding and removing rules
// ---------------------------------------------------------------------------

/// A rule names both its chain and its table.
pub open spec fn rule_valid(rule: FirewallRule) -> bool {
    rule.chain@.len() > 0 && rule.table@.len() > 0
}

/// `e` is the error that validation reports for `rule`: an empty chain name
/// first, then an empty table name.
pub open spec fn validation_error(rule: FirewallRule, e: NovaError) -> bool {
    if rule.chain@.len() == 0 {
        e matches NovaError::ConfigError(m) && m@ == "Chain name cannot be empty"@
    } else {
        e matches NovaError::ConfigError(m) && m@ == "Table name cannot be empty"@
    }
}

pub open spec fn protocol_args(p: Option<Protocol>) -> Seq<Seq<char>> {
    match p {
        Some(Protocol::Tcp) => seq!["-p"@, "tcp"@],
        Some(Protocol::Udp) => seq!["-p"@, "udp"@],
        Some(Protocol::Icmp) => seq!["-p"@, "icmp"@],
        Some(Protocol::Custom(x)) => seq!["-p"@, x@],
        _ => Seq::empty(),
    }
}

pub open spec fn address_args(a: Option<NetworkAddress>, flag: Seq<char>) -> Seq<Seq<char>> {
    match a {
        Some(x) => (if x.negated {
            seq!["!"@]
        } else {
            Seq::empty()
        }) + seq![flag, x.address@],
        None => Seq::empty(),
    }
}

pub open spec fn port_args(p: Option<PortRange>) -> Seq<Seq<char>> {
    match p {
        Some(x) => (if x.negated {
            seq!["!"@]
        } else {
            Seq::empty()
        }) + seq!["--dport"@, dec(x.start as nat)],
        None => Seq::empty(),
    }
}

pub open spec fn target_args(t: RuleTarget) -> Seq<Seq<char>> {
    match t {
        RuleTarget::Accept => seq!["-j"@, "ACCEPT"@],
        RuleTarget::Drop => seq!["-j"@, "DROP"@],
        RuleTarget::Reject => seq!["-j"@, "REJECT"@],
        RuleTarget::Log => seq!["-j"@, "LOG"@],
        _ => Seq::empty(),
    }
}

/// The arguments of the `iptables` call that appends `rule` to its chain.
pub open spec fn iptables_args_of(rule: FirewallRule) -> Seq<Seq<char>> {
    seq!["-t"@, rule.table@, "-A"@, rule.chain@] + protocol_args(rule.protocol) + address_args(
        rule.source,
        "-s"@,
    ) + address_args(rule.destination, "-d"@) + port_args(rule.port_range) + target_args(
        rule.target,
    )
}

/// Table `t`, chain `c` of `ts` are the ones `rule` names.
pub open spec fn rule_slot(ts: Seq<FirewallTable>, t: int, c: int, rule: FirewallRule) -> bool {
    &&& 0 <= t < ts.len()
    &&& ts[t].name@ == rule.table@
    &&& 0 <= c < ts[t].chains@.len()
    &&& ts[t].chains@[c].name@ == rule.chain@
}

/// `new` is `old` with the rules of chain `c` of table `t` replaced by `rs`,
/// everything else as it was.
pub open spec fn chain_rules_replaced(
    old: Seq<FirewallTable>,
    new: Seq<FirewallTable>,
    t: int,
    c: int,
    rs: Seq<FirewallRule>,
) -> bool {
    &&& 0 <= t < old.len()
    &&& 0 <= c < old[t].chains@.len()
    &&& new.len() == old.len()
    &&& forall|i: int| 0 <= i < old.len() && i != t ==> #[trigger] new[i] == old[i]
    &&& new[t].name == old[t].name
    &&& new[t].chains@.len() == old[t].chains@.len()
    &&& forall|k: int|
        0 <= k < old[t].chains@.len() && k != c ==> #[trigger] new[t].chains@[k]
            == old[t].chains@[k]
    &&& new[t].chains@[c].name == old[t].chains@[c].name
    &&& new[t].chains@[c].table == old[t].chains@[c].table
    &&& new[t].chains@[c].policy == old[t].chains@[c].policy
    &&& new[t].chains@[c].packets == old[t].chains@[c].packets
    &&& new[t].chains@[c].bytes == old[t].chains@[c].bytes
    &&& new[t].chains@[c].rules@ == rs
}

fn push_str(v: &mut Vec<String>, s: &str)
    ensures
        views(final(v)@) == views(old(v)@).push(s@),
{
    let ghost v0 = views(v@);
    v.push(s.to_owned());
    assert(views(v@) =~= v0.push(s@));
}

fn push_address_args(v: &mut Vec<String>, a: &Option<NetworkAddress>, flag: &str)
    ensures
        views(final(v)@) == views(old(v)@) + address_args(*a, flag@),
{
    let ghost v0 = views(v@);
    match a {
        Some(x) => {
            if x.negated {
                push_str(v, "!");
            }
            push_str(v, flag);
            push_str(v, x.address.as_str());
        },
        None => {},
    }
    assert(views(v@) =~= v0 + address_args(*a, flag@));
}

fn push_port_args(v: &mut Vec<String>, p: &Option<PortRange>)
    ensures
        views(final(v)@) == views(old(v)@) + port_args(*p),
{
    let ghost v0 = views(v@);
    match p {
        Some(pr) => {
            if pr.negated {
                push_str(v, "!");
            }
            push_str(v, "--dport");
            let n = dec_string(pr.start as u64);
            push_str(v, n.as_str());
        },
        None => {},
    }
    assert(views(v@) =~= v0 + port_args(*p));
}

/// The first table named `name`, if any.
fn table_position(ts: &Vec<FirewallTable>, name: &str) -> (r: Option<usize>)
    ensures
        r matches Some(t) ==> t < ts.len() && ts@[t as int].name@ == name@,
        r is None ==> forall|t: int| 0 <= t < ts.len() ==> #[trigger] ts@[t].name@ != name@,
{
    let mut i: usize = 0;
    while i < ts.len()
        invariant
            i <= ts.len(),
            forall|t: int| 0 <= t < i ==> #[trigger] ts@[t].name@ != name@,
        decreases ts.len() - i,
    {
        if str_eq(ts[i].name.as_str(), name) {
            return Some(i);
        }
        i += 1;
    }
    None
}

/// The first chain named `name`, if any.
fn chain_position(cs: &Vec<FirewallChain>, name: &str) -> (r: Option<usize>)
    ensures
        r matches Some(c) ==> c < cs.len() && cs@[c as int].name@ == name@,
        r is None ==> forall|c: int| 0 <= c < cs.len() ==> #[trigger] cs@[c].name@ != name@,
{
    let mut i: usize = 0;
    while i < cs.len()
        invariant
            i <= cs.len(),
            forall|c: int| 0 <= c < i ==> #[trigger] cs@[c].name@ != name@,
        decreases cs.len() - i,
    {
        if str_eq(cs[i].name.as_str(), name) {
            return Some(i);
        }
        i += 1;
    }
    None
}

/// Appends `rule` to chain `c` of table `t`.
fn push_chain_rule(tables: &mut Vec<FirewallTable>, t: usize, c: usize, rule: FirewallRule)
    requires
        t < old(tables).len(),
        c < old(tables)@[t as int].chains@.len(),
    ensures
        chain_rules_replaced(
            old(tables)@,
            final(tables)@,
            t as int,
            c as int,
            old(tables)@[t as int].chains@[c as int].rules@.push(rule),
        ),
{
    let ghost old_ts = tables@;
    let mut table = tables.remove(t);
    let mut chain = table.chains.remove(c);
    chain.rules.push(rule);
    table.chains.insert(c, chain);
    tables.insert(t, table);
    assert(tables@ =~= old_ts.update(t as int, tables@[t as int]));
    assert(tables@[t as int].chains@ =~= old_ts[t as int].chains@.update(
        c as int,
        tables@[t as int].chains@[c as int],
    ));
}

/// Takes rule `p` out of chain `c` of table `t`.
fn remove_chain_rule(tables: &mut Vec<FirewallTable>, t: usize, c: usize, p: usize) -> (r: FirewallRule)
    requires
        t < old(tables).len(),
        c < old(tables)@[t as int].chains@.len(),
        p < old(tables)@[t as int].chains@[c as int].rules@.len(),
    ensures
        r == old(tables)@[t as int].chains@[c as int].rules@[p as int],
        chain_rules_replaced(
            old(tables)@,
            final(tables)@,
            t as int,
            c as int,
            old(tables)@[t as int].chains@[c as int].rules@.remove(p as int),
        ),
{
    let ghost old_ts = tables@;
    let mut table = tables.remove(t);
    let mut chain = table.chains.remove(c);
    let r = chain.rules.remove(p);
    table.chains.insert(c, chain);
    tables.insert(t, table);
    assert(tables@ =~= old_ts.update(t as int, tables@[t as int]));
    assert(tables@[t as int].chains@ =~= old_ts[t as int].chains@.update(
        c as int,
        tables@[t as int].chains@[c as int],
    ));
    r
}

proof fn lemma_replaced_wf(old: Seq<FirewallTable>, new: Seq<FirewallTable>, t: int, c: int, rs: Seq<FirewallRule>)
    requires
        tables_wf(old),
        chain_rules_replaced(old, new, t, c, rs),
    ensures
        tables_wf(new),
{
    assert forall|i: int, j: int| 0 <= i < j < new.len() implies #[trigger] new[i].name@
        != #[trigger] new[j].name@ by {
        assert(old[i].name@ != old[j].name@);
    }
    assert forall|i: int| 0 <= i < new.len() implies chains_distinct(#[trigger] new[i].chains@) by {
        if i == t {
            assert(chains_distinct(old[t].chains@));
            assert forall|a: int, b: int| 0 <= a < b < new[t].chains@.len() implies #[trigger] new[t].chains@[a].name@
                != #[trigger] new[t].chains@[b].name@ by {
                assert(old[t].chains@[a].name@ != old[t].chains@[b].name@);
            }
        } else {
            assert(new[i] == old[i]);
            assert(chains_distinct(old[i].chains@));
        }
    }
}

impl FirewallManager {
    /// Checks that a rule names its chain and its table.
    pub fn validate_rule(&self, rule: &FirewallRule) -> (r: Result<(), NovaError>)
        ensures
            rule_valid(*rule) ==> r is Ok,
            !rule_valid(*rule) ==> (r matches Err(e) && validation_error(*rule, e)),
    {
        if rule.chain.unicode_len() == 0 {
            return Err(NovaError::ConfigError("Chain name cannot be empty".to_owned()));
        }
        if rule.table.unicode_len() == 0 {
            return Err(NovaError::ConfigError("Table name cannot be empty".to_owned()));
        }
        Ok(())
    }

    /// The arguments of the `iptables` call that appends `rule`, when the
    /// backend is iptables; the other backends apply nothing.
    pub fn add_rule_command(&self, rule: &FirewallRule) -> (r: Option<Vec<String>>)
        ensures
            self.backend_view() == FirewallBackend::Iptables ==> (r matches Some(a) && views(a@)
                == iptables_args_of(*rule)),
            self.backend_view() != FirewallBackend::Iptables ==> r is None,
    {
        match self.backend {
            FirewallBackend::Iptables => Some(iptables_args(rule)),
            _ => None,
        }
    }

    /// Adds a rule once the backend has applied it (`applied` is the
    /// backend's outcome): an invalid rule is refused first, a failure of
    /// the backend is returned as it is; otherwise the rule is appended to
    /// the chain it names, if the manager holds that chain, and the
    /// conflicts are computed again.
    pub fn add_rule(&mut self, rule: FirewallRule, applied: Result<(), NovaError>) -> (r: Result<
        (),
        NovaError,
    >)
        ensures
            !rule_valid(rule) ==> (r matches Err(e) && validation_error(rule, e)) && *final(self)
                == *old(self),
            rule_valid(rule) && applied is Err ==> r == applied && *final(self) == *old(self),
            rule_valid(rule) && applied is Ok ==> {
                &&& r is Ok
                &&& (forall|t: int, c: int| !rule_slot(old(self).tables_view(), t, c, rule))
                    ==> final(self).tables_view() == old(self).tables_view()
                &&& (exists|t: int, c: int| rule_slot(old(self).tables_view(), t, c, rule))
                    ==> exists|t: int, c: int|
                    rule_slot(old(self).tables_view(), t, c, rule) && chain_rules_replaced(
                        old(self).tables_view(),
                        final(self).tables_view(),
                        t,
                        c,
                        old(self).tables_view()[t].chains@[c].rules@.push(rule),
                    )
                &&& conflicts_ok(all_chains(final(self).tables_view()), final(self).conflicts_view())
                &&& final(self).backend_view() == old(self).backend_view()
                &&& final(self).flows_view() == old(self).flows_view()
            },
    {
        proof {
            use_type_invariant(&*self);
        }
        self.validate_rule(&rule)?;
        if let Err(e) = applied {
            return Err(e);
        }
        let ghost old_ts = self.tables@;
        match table_position(&self.tables, rule.table.as_str()) {
            Some(t) => {
                match chain_position(&self.tables[t].chains, rule.chain.as_str()) {
                    Some(c) => {
                        let mut tables: Vec<FirewallTable> = Vec::new();
                        std::mem::swap(&mut tables, &mut self.tables);
                        push_chain_rule(&mut tables, t, c, rule);
                        proof {
                            lemma_replaced_wf(
                                old_ts,
                                tables@,
                                t as int,
                                c as int,
                                old_ts[t as int].chains@[c as int].rules@.push(rule),
                            );
                            assert(rule_slot(old_ts, t as int, c as int, rule));
                        }
                        self.tables = tables;
                    },
                    None => {
                        assert forall|t2: int, c2: int| !rule_slot(old_ts, t2, c2, rule) by {
                            if rule_slot(old_ts, t2, c2, rule) {
                                if t2 != t {
                                    if t2 < t {
                                        assert(old_ts[t2].name@ != old_ts[t as int].name@);
                                    } else {
                                        assert(old_ts[t as int].name@ != old_ts[t2].name@);
                                    }
                                }
                            }
                        }
                    },
                }
            },
            None => {},
        }
        self.analyze_rule_conflicts()
    }
}


/// Rule `p` of chain `c` of table `t` exists.
pub open spec fn rule_pos(ts: Seq<FirewallTable>, t: int, c: int, p: int) -> bool {
    &&& 0 <= t < ts.len()
    &&& 0 <= c < ts[t].chains@.len()
    &&& 0 <= p < ts[t].chains@[c].rules@.len()
}

pub open spec fn rule_id_at(ts: Seq<FirewallTable>, t: int, c: int, p: int) -> Seq<char> {
    ts[t].chains@[c].rules@[p].id@
}

/// Position `(t2, c2, p2)` comes before `(t, c, p)`: tables in order, then
/// chains, then rules.
pub open spec fn pos_before(t2: int, c2: int, p2: int, t: int, c: int, p: int) -> bool {
    t2 < t || (t2 == t && (c2 < c || (c2 == c && p2 < p)))
}

/// No rule before position `(t, c, p)` has the id `id`.
pub open spec fn none_before(ts: Seq<FirewallTable>, id: Seq<char>, t: int, c: int, p: int) -> bool {
    forall|t2: int, c2: int, p2: int|
        rule_pos(ts, t2, c2, p2) && pos_before(t2, c2, p2, t, c, p) ==> #[trigger] rule_id_at(
            ts,
            t2,
            c2,
            p2,
        ) != id
}

/// Some rule has the id `id`.
pub open spec fn holds_rule_id(ts: Seq<FirewallTable>, id: Seq<char>) -> bool {
    exists|t: int, c: int, p: int| rule_pos(ts, t, c, p) && #[trigger] rule_id_at(ts, t, c, p) == id
}

/// `(t, c, p)` is the first position of a rule with the id `id`.
pub open spec fn first_rule_with_id(ts: Seq<FirewallTable>, id: Seq<char>, t: int, c: int, p: int) -> bool {
    rule_pos(ts, t, c, p) && rule_id_at(ts, t, c, p) == id && none_before(ts, id, t, c, p)
}

impl FirewallManager {
    /// Removes the first rule (tables, then chains, then rules in order)
    /// with the given id; the backends apply removals without failing. With
    /// no such rule the error is `NetworkNotFound("Rule <id> not found")`.
    pub fn remove_rule(&mut self, rule_id: &str) -> (r: Result<(), NovaError>)
        ensures
            !holds_rule_id(old(self).tables_view(), rule_id@) ==> (r matches Err(
                NovaError::NetworkNotFound(m),
            ) && m@ == "Rule "@ + rule_id@ + " not found"@) && *final(self) == *old(self),
            holds_rule_id(old(self).tables_view(), rule_id@) ==> {
                &&& r is Ok
                &&& exists|t: int, c: int, p: int|
                    first_rule_with_id(old(self).tables_view(), rule_id@, t, c, p)
                        && chain_rules_replaced(
                        old(self).tables_view(),
                        final(self).tables_view(),
                        t,
                        c,
                        old(self).tables_view()[t].chains@[c].rules@.remove(p),
                    )
                &&& final(self).conflicts_view() == old(self).conflicts_view()
                &&& final(self).backend_view() == old(self).backend_view()
                &&& final(self).flows_view() == old(self).flows_view()
            },
    {
        proof {
            use_type_invariant(&*self);
        }
        let ghost ts = self.tables@;
        let ghost id = rule_id@;
        let mut t: usize = 0;
        while t < self.tables.len()
            invariant
                ts == self.tables@,
                *self == *old(self),
                tables_wf(ts),
                id == rule_id@,
                t <= ts.len(),
                none_before(ts, id, t as int, 0, 0),
            decreases ts.len() - t,
        {
            let mut c: usize = 0;
            while c < self.tables[t].chains.len()
                invariant
                    ts == self.tables@,
                    *self == *old(self),
                    tables_wf(ts),
                    id == rule_id@,
                    t < ts.len(),
                    c <= ts[t as int].chains@.len(),
                    none_before(ts, id, t as int, c as int, 0),
                decreases ts[t as int].chains@.len() - c,
            {
                let mut p: usize = 0;
                while p < self.tables[t].chains[c].rules.len()
                    invariant
                        ts == self.tables@,
                        *self == *old(self),
                        tables_wf(ts),
                        id == rule_id@,
                        t < ts.len(),
                        c < ts[t as int].chains@.len(),
                        p <= ts[t as int].chains@[c as int].rules@.len(),
                        none_before(ts, id, t as int, c as int, p as int),
                    decreases ts[t as int].chains@[c as int].rules@.len() - p,
                {
                    if str_eq(self.tables[t].chains[c].rules[p].id.as_str(), rule_id) {
                        let mut tables: Vec<FirewallTable> = Vec::new();
                        std::mem::swap(&mut tables, &mut self.tables);
                        let _removed = remove_chain_rule(&mut tables, t, c, p);
                        proof {
                            lemma_replaced_wf(
                                ts,
                                tables@,
                                t as int,
                                c as int,
                                ts[t as int].chains@[c as int].rules@.remove(p as int),
                            );
                            assert(rule_id_at(ts, t as int, c as int, p as int) == id);
                            assert(first_rule_with_id(ts, id, t as int, c as int, p as int));
                            assert(holds_rule_id(ts, id));
                        }
                        self.tables = tables;
                        return Ok(());
                    }
                    proof {
                        assert forall|t2: int, c2: int, p2: int|
                            rule_pos(ts, t2, c2, p2) && pos_before(
                                t2,
                                c2,
                                p2,
                                t as int,
                                c as int,
                                p + 1,
                            ) implies #[trigger] rule_id_at(ts, t2, c2, p2) != id by {
                            if !pos_before(t2, c2, p2, t as int, c as int, p as int) {
                                assert(t2 == t && c2 == c && p2 == p);
                            }
                        }
                    }
                    p += 1;
                }
                assert forall|t2: int, c2: int, p2: int|
                    rule_pos(ts, t2, c2, p2) && pos_before(
                        t2,
                        c2,
                        p2,
                        t as int,
                        c + 1,
                        0,
                    ) implies #[trigger] rule_id_at(ts, t2, c2, p2) != id by {
                    if !pos_before(t2, c2, p2, t as int, c as int, 0) {
                        assert(pos_before(t2, c2, p2, t as int, c as int, p as int));
                    }
                }
                c += 1;
            }
            assert forall|t2: int, c2: int, p2: int|
                rule_pos(ts, t2, c2, p2) && pos_before(t2, c2, p2, t + 1, 0, 0) implies #[trigger] rule_id_at(
                ts,
                t2,
                c2,
                p2,
            ) != id by {
                if !pos_before(t2, c2, p2, t as int, 0, 0) {
                    assert(pos_before(t2, c2, p2, t as int, c as int, 0));
                }
            }
            t += 1;
        }
        assert(!holds_rule_id(ts, id)) by {
            if holds_rule_id(ts, id) {
                let (t2, c2, p2) = choose|t2: int, c2: int, p2: int|
                    rule_pos(ts, t2, c2, p2) && #[trigger] rule_id_at(ts, t2, c2, p2) == id;
                assert(pos_before(t2, c2, p2, t as int, 0, 0));
            }
        }
        Err(NovaError::NetworkNotFound(cat(cat("Rule ", rule_id).as_str(), " not found")))
    }
}

/// The arguments of the `iptables` call that appends `rule` to its chain.
pub fn iptables_args(rule: &FirewallRule) -> (r: Vec<String>)
    ensures
        views(r@) == iptables_args_of(*rule),
{
    let mut v: Vec<String> = Vec::new();
    push_str(&mut v, "-t");
    push_str(&mut v, rule.table.as_str());
    push_str(&mut v, "-A");
    push_str(&mut v, rule.chain.as_str());
    let ghost head = views(v@);
    match &rule.protocol {
        Some(Protocol::Tcp) => {
            push_str(&mut v, "-p");
            push_str(&mut v, "tcp");
        },
        Some(Protocol::Udp) => {
            push_str(&mut v, "-p");
            push_str(&mut v, "udp");
        },
        Some(Protocol::Icmp) => {
            push_str(&mut v, "-p");
            push_str(&mut v, "icmp");
        },
        Some(Protocol::Custom(p)) => {
            push_str(&mut v, "-p");
            push_str(&mut v, p.as_str());
        },
        _ => {},
    }
    assert(views(v@) =~= head + protocol_args(rule.protocol));
    push_address_args(&mut v, &rule.source, "-s");
    push_address_args(&mut v, &rule.destination, "-d");
    push_port_args(&mut v, &rule.port_range);
    let ghost mid2 = views(v@);
    match &rule.target {
        RuleTarget::Accept => {
            push_str(&mut v, "-j");
            push_str(&mut v, "ACCEPT");
        },
        RuleTarget::Drop => {
            push_str(&mut v, "-j");
            push_str(&mut v, "DROP");
        },
        RuleTarget::Reject => {
            push_str(&mut v, "-j");
            push_str(&mut v, "REJECT");
        },
        RuleTarget::Log => {
            push_str(&mut v, "-j");
            push_str(&mut v, "LOG");
        },
        _ => {},
    }
    assert(views(v@) =~= mid2 + target_args(rule.target));
    assert(views(v@) =~= iptables_args_of(*rule));
    v
}


// ---------------------------------------------------------------------------
// Reading iptables listings
// ---------------------------------------------------------------------------

/// Chains read so far (name and number of rules), the chain being read, and
/// the rules read since the last chain was stored.
pub type ListingState = (Seq<(Seq<char>, nat)>, Option<Seq<char>>, nat);

/// Stores chain `n` with `k` rules: over a chain of that name if there is
/// one, else after the others.
pub open spec fn put_named(cs: Seq<(Seq<char>, nat)>, n: Seq<char>, k: nat) -> Seq<(Seq<char>, nat)> {
    if exists|i: int| 0 <= i < cs.len() && #[trigger] cs[i].0 == n {
        let i = choose|i: int| 0 <= i < cs.len() && #[trigger] cs[i].0 == n;
        cs.update(i, (n, k))
    } else {
        cs.push((n, k))
    }
}

/// One line of `iptables -L -n -v --line-numbers` output: a `Chain ` header
/// stores the chain being read and starts the one it names (its second
/// word, if any); a line that starts with a digit is a rule.
pub open spec fn listing_step(st: ListingState, line: Seq<char>) -> ListingState {
    let (cs, cur, pending) = st;
    if starts_with(line, "Chain "@) {
        let w = words(line);
        let next = if w.len() > 1 {
            Some(w[1])
        } else {
            None
        };
        match cur {
            Some(n) => (put_named(cs, n, pending), next, 0),
            None => (cs, next, pending),
        }
    } else if line.len() > 0 && is_digit(line[0]) {
        (cs, cur, pending + 1)
    } else {
        st
    }
}

pub open spec fn listing_fold(ls: Seq<Seq<char>>) -> ListingState
    decreases ls.len(),
{
    if ls.len() == 0 {
        (Seq::empty(), None, 0)
    } else {
        listing_step(listing_fold(ls.drop_last()), ls.last())
    }
}

/// The chains of a listing, each with the number of rules it lists.
pub open spec fn listing_chains(output: Seq<char>) -> Seq<(Seq<char>, nat)> {
    let (cs, cur, pending) = listing_fold(lines(output));
    match cur {
        Some(n) => put_named(cs, n, pending),
        None => cs,
    }
}

/// A rule as a listing line gives it: a fresh id, the INPUT chain of the
/// table, target ACCEPT, enabled, priority 0 and nothing else set.
pub open spec fn listed_rule(r: FirewallRule, table: Seq<char>) -> bool {
    &&& uuid_v4_text(r.id@)
    &&& r.chain@ == "INPUT"@
    &&& r.table@ == table
    &&& r.target is Accept
    &&& r.protocol is None
    &&& r.source is None
    &&& r.destination is None
    &&& r.port_range is None
    &&& r.interface is None
    &&& r.state is None
    &&& r.comment is None
    &&& r.enabled
    &&& r.priority == 0
}

/// A chain read from a listing: `n` listed rules, policy ACCEPT, no counters.
pub open spec fn listed_chain(ch: FirewallChain, table: Seq<char>, n: (Seq<char>, nat)) -> bool {
    &&& ch.name@ == n.0
    &&& ch.table@ == table
    &&& ch.policy == ChainPolicy::Accept
    &&& ch.packets == 0
    &&& ch.bytes == 0
    &&& ch.rules@.len() == n.1
    &&& forall|k: int| 0 <= k < ch.rules@.len() ==> listed_rule(#[trigger] ch.rules@[k], table)
}

/// `t` is the table that the listing `output` of table `name` describes.
pub open spec fn listed_table(t: FirewallTable, name: Seq<char>, output: Seq<char>) -> bool {
    let ns = listing_chains(output);
    &&& t.name@ == name
    &&& chains_distinct(t.chains@)
    &&& t.chains@.len() == ns.len()
    &&& forall|k: int| 0 <= k < ns.len() ==> listed_chain(#[trigger] t.chains@[k], name, ns[k])
}

pub open spec fn names_distinct(cs: Seq<(Seq<char>, nat)>) -> bool {
    forall|i: int, j: int| 0 <= i < j < cs.len() ==> #[trigger] cs[i].0 != #[trigger] cs[j].0
}

proof fn lemma_put_named(cs: Seq<(Seq<char>, nat)>, n: Seq<char>, k: nat, i: int)
    requires
        names_distinct(cs),
        0 <= i < cs.len(),
        cs[i].0 == n,
    ensures
        put_named(cs, n, k) == cs.update(i, (n, k)),
        names_distinct(put_named(cs, n, k)),
{
    let j = choose|j: int| 0 <= j < cs.len() && #[trigger] cs[j].0 == n;
    if j != i {
        if j < i {
            assert(cs[j].0 != cs[i].0);
        } else {
            assert(cs[i].0 != cs[j].0);
        }
    }
}

proof fn lemma_put_named_new(cs: Seq<(Seq<char>, nat)>, n: Seq<char>, k: nat)
    requires
        names_distinct(cs),
        forall|i: int| 0 <= i < cs.len() ==> #[trigger] cs[i].0 != n,
    ensures
        put_named(cs, n, k) == cs.push((n, k)),
        names_distinct(put_named(cs, n, k)),
{
}

/// The exec chains match the model chains.
spec fn chains_match(chs: Seq<FirewallChain>, ns: Seq<(Seq<char>, nat)>, table: Seq<char>) -> bool {
    &&& chs.len() == ns.len()
    &&& forall|k: int| 0 <= k < ns.len() ==> listed_chain(#[trigger] chs[k], table, ns[k])
}

/// Stores `ch` over the chain of the same name, or after the others.
fn put_chain(chains: &mut Vec<FirewallChain>, ch: FirewallChain, Ghost(ns): Ghost<Seq<(Seq<char>, nat)>>, Ghost(table): Ghost<Seq<char>>, Ghost(k): Ghost<nat>)
    requires
        chains_match(old(chains)@, ns, table),
        names_distinct(ns),
        listed_chain(ch, table, (ch.name@, k)),
    ensures
        chains_match(final(chains)@, put_named(ns, ch.name@, k), table),
        names_distinct(put_named(ns, ch.name@, k)),
{
    let ghost n = ch.name@;
    match chain_position(chains, ch.name.as_str()) {
        Some(i) => {
            proof {
                assert(listed_chain(chains@[i as int], table, ns[i as int]));
                lemma_put_named(ns, n, k, i as int);
            }
            let ghost c0 = chains@;
            chains.remove(i);
            chains.insert(i, ch);
            assert(chains@ =~= c0.update(i as int, ch));
        },
        None => {
            proof {
                assert forall|i: int| 0 <= i < ns.len() implies #[trigger] ns[i].0 != n by {
                    assert(listed_chain(chains@[i], table, ns[i]));
                }
                lemma_put_named_new(ns, n, k);
            }
            chains.push(ch);
        },
    }
}

proof fn lemma_match_distinct(chs: Seq<FirewallChain>, ns: Seq<(Seq<char>, nat)>, table: Seq<char>)
    requires
        chains_match(chs, ns, table),
        names_distinct(ns),
    ensures
        chains_distinct(chs),
{
    assert forall|i: int, j: int| 0 <= i < j < chs.len() implies #[trigger] chs[i].name@
        != #[trigger] chs[j].name@ by {
        assert(listed_chain(chs[i], table, ns[i]));
        assert(listed_chain(chs[j], table, ns[j]));
        assert(ns[i].0 != ns[j].0);
    }
}

fn listed_chain_of(name: String, table: &str, rules: Vec<FirewallRule>) -> (ch: FirewallChain)
    requires
        forall|k: int| 0 <= k < rules@.len() ==> listed_rule(#[trigger] rules@[k], table@),
    ensures
        listed_chain(ch, table@, (name@, rules@.len() as nat)),
        ch.name == name,
{
    FirewallChain {
        name,
        table: table.to_owned(),
        policy: ChainPolicy::Accept,
        rules,
        packets: 0,
        bytes: 0,
    }
}

impl FirewallManager {
    /// The table that an `iptables -t <table> -L -n -v --line-numbers`
    /// listing describes (see `listing_chains`); reading never fails.
    pub fn parse_iptables_output(&self, table_name: &str, output: &str) -> (r: Result<
        FirewallTable,
        NovaError,
    >)
        ensures
            r matches Ok(t) && listed_table(t, table_name@, output@),
    {
        let ls = lines_exec(output);
        let ghost lv = views(ls@);
        let ghost tn = table_name@;
        let mut chains: Vec<FirewallChain> = Vec::new();
        let mut current: Option<String> = None;
        let mut current_rules: Vec<FirewallRule> = Vec::new();
        let mut i: usize = 0;
        while i < ls.len()
            invariant
                lv == views(ls@),
                lv == lines(output@),
                tn == table_name@,
                i <= ls.len(),
                ({
                    let st = listing_fold(lv.take(i as int));
                    &&& chains_match(chains@, st.0, tn)
                    &&& names_distinct(st.0)
                    &&& opt_view(current) == st.1
                    &&& current_rules@.len() == st.2
                    &&& forall|k: int| 0 <= k < current_rules@.len() ==> listed_rule(#[trigger] current_rules@[k], tn)
                }),
            decreases ls.len() - i,
        {
            let line = &ls[i];
            let ghost st = listing_fold(lv.take(i as int));
            assert(lv.take(i + 1).drop_last() =~= lv.take(i as int));
            assert(lv.take(i + 1).last() == line@);
            if str_starts_with(line.as_str(), "Chain ") {
                match current {
                    Some(name) => {
                        let rules = current_rules;
                        current_rules = Vec::new();
                        let ghost k = rules@.len() as nat;
                        let ch = listed_chain_of(name, table_name, rules);
                        put_chain(&mut chains, ch, Ghost(st.0), Ghost(tn), Ghost(k));
                    },
                    None => {},
                }
                let w = words_exec(line.as_str());
                if w.len() > 1 {
                    current = Some(w[1].clone());
                } else {
                    current = None;
                }
            } else {
                let cs = chars_of(line.as_str());
                if cs.len() > 0 && '0' <= cs[0] && cs[0] <= '9' {
                    let rule = self.parse_iptables_rule_line(line.as_str(), table_name)?;
                    let ghost r0 = current_rules@;
                    current_rules.push(rule);
                    assert forall|k: int| 0 <= k < current_rules@.len() implies listed_rule(
                        #[trigger] current_rules@[k],
                        tn,
                    ) by {
                        if k < r0.len() {
                            assert(current_rules@[k] == r0[k]);
                        }
                    }
                }
            }
            i += 1;
        }
        assert(lv.take(ls.len() as int) =~= lv);
        let ghost st = listing_fold(lv);
        match current {
            Some(name) => {
                let rules = current_rules;
                let ghost k = rules@.len() as nat;
                let ch = listed_chain_of(name, table_name, rules);
                put_chain(&mut chains, ch, Ghost(st.0), Ghost(tn), Ghost(k));
            },
            None => {},
        }
        proof {
            lemma_match_distinct(chains@, listing_chains(output@), tn);
        }
        Ok(FirewallTable { name: table_name.to_owned(), chains })
    }

    /// A rule line of a listing: the rule gets a fresh id; reading it never
    /// fails.
    fn parse_iptables_rule_line(&self, line: &str, table: &str) -> (r: Result<FirewallRule, NovaError>)
        ensures
            r matches Ok(rule) && listed_rule(rule, table@),
    {
        let _parts = words_exec(line);
        Ok(
            FirewallRule {
                id: new_uuid_text(),
                chain: "INPUT".to_owned(),
                table: table.to_owned(),
                target: RuleTarget::Accept,
                protocol: None,
                source: None,
                destination: None,
                port_range: None,
                interface: None,
                state: None,
                comment: None,
                enabled: true,
                priority: 0,
            },
        )
    }
}


// ---------------------------------------------------------------------------
// Loading the backend's rules
// ---------------------------------------------------------------------------

/// `new` is `old` with `t` stored over the table of the same name, or after
/// the others when there is none.
pub open spec fn table_stored(old: Seq<FirewallTable>, new: Seq<FirewallTable>, t: FirewallTable) -> bool {
    if exists|i: int| 0 <= i < old.len() && #[trigger] old[i].name@ == t.name@ {
        exists|i: int| 0 <= i < old.len() && #[trigger] old[i].name@ == t.name@ && new == old.update(i, t)
    } else {
        new == old.push(t)
    }
}

/// Some table of `ts` is named `name` and is the one the listing `out` describes.
pub open spec fn holds_listed(ts: Seq<FirewallTable>, name: Seq<char>, out: Seq<char>) -> bool {
    exists|x: int| 0 <= x < ts.len() && #[trigger] ts[x].name@ == name && listed_table(ts[x], name, out)
}

/// Every table of `old` whose name is not in `ns` is still in `new`, at its place.
pub open spec fn kept_except(old: Seq<FirewallTable>, new: Seq<FirewallTable>, ns: Seq<Seq<char>>) -> bool {
    &&& new.len() >= old.len()
    &&& forall|i: int| 0 <= i < old.len() && !ns.contains(old[i].name@) ==> #[trigger] new[i] == old[i]
}

/// The iptables tables that are read, in order.
pub open spec fn iptables_table_names() -> Seq<Seq<char>> {
    seq!["filter"@, "nat"@, "mangle"@]
}

/// How many listings, from the first on, were read (at most three).
pub open spec fn listings_read(ls: Seq<Option<String>>) -> nat {
    if ls.len() > 0 && ls[0] is Some {
        if ls.len() > 1 && ls[1] is Some {
            if ls.len() > 2 && ls[2] is Some {
                3
            } else {
                2
            }
        } else {
            1
        }
    } else {
        0
    }
}

/// The commands that list the backend's rules, in order: one per iptables
/// table, else a single one.
pub open spec fn listing_commands_of(b: FirewallBackend) -> Seq<Seq<Seq<char>>> {
    match b {
        FirewallBackend::Iptables => seq![
            seq!["iptables"@, "-t"@, "filter"@, "-L"@, "-n"@, "-v"@, "--line-numbers"@],
            seq!["iptables"@, "-t"@, "nat"@, "-L"@, "-n"@, "-v"@, "--line-numbers"@],
            seq!["iptables"@, "-t"@, "mangle"@, "-L"@, "-n"@, "-v"@, "--line-numbers"@],
        ],
        FirewallBackend::Nftables => seq![seq!["nft"@, "list"@, "ruleset"@]],
        FirewallBackend::Firewalld => seq![seq!["firewall-cmd"@, "--get-zones"@]],
        FirewallBackend::Ufw => seq![seq!["ufw"@, "status"@, "numbered"@]],
    }
}

proof fn lemma_stored(old: Seq<FirewallTable>, new: Seq<FirewallTable>, t: FirewallTable)
    requires
        table_stored(old, new, t),
    ensures
        kept_except(old, new, seq![t.name@]),
        forall|n: Seq<char>, o: Seq<char>| n != t.name@ && #[trigger] holds_listed(old, n, o) ==> holds_listed(new, n, o),
        exists|x: int| 0 <= x < new.len() && new[x] == t,
        forall|x: int| 0 <= x < new.len() ==> #[trigger] new[x] == t || exists|i: int| 0 <= i < old.len() && new[x] == #[trigger] old[i],
{
    if exists|i: int| 0 <= i < old.len() && #[trigger] old[i].name@ == t.name@ {
        let i = choose|i: int| 0 <= i < old.len() && #[trigger] old[i].name@ == t.name@ && new == old.update(i, t);
        assert(new[i] == t);
        assert forall|j: int| 0 <= j < old.len() && !seq![t.name@].contains(old[j].name@) implies #[trigger] new[j] == old[j] by {
            assert(seq![t.name@][0] == t.name@);
        }
        assert forall|n: Seq<char>, o: Seq<char>| n != t.name@ && #[trigger] holds_listed(old, n, o) implies holds_listed(new, n, o) by {
            let x = choose|x: int| 0 <= x < old.len() && #[trigger] old[x].name@ == n && listed_table(old[x], n, o);
            assert(new[x] == old[x]);
        }
        assert forall|x: int| 0 <= x < new.len() implies #[trigger] new[x] == t || exists|k: int| 0 <= k < old.len() && new[x] == #[trigger] old[k] by {
            if x != i {
                assert(new[x] == old[x]);
            }
        }
    } else {
        assert(new[old.len() as int] == t);
        assert forall|j: int| 0 <= j < old.len() && !seq![t.name@].contains(old[j].name@) implies #[trigger] new[j] == old[j] by {
        }
        assert forall|n: Seq<char>, o: Seq<char>| n != t.name@ && #[trigger] holds_listed(old, n, o) implies holds_listed(new, n, o) by {
            let x = choose|x: int| 0 <= x < old.len() && #[trigger] old[x].name@ == n && listed_table(old[x], n, o);
            assert(new[x] == old[x]);
        }
        assert forall|x: int| 0 <= x < new.len() implies #[trigger] new[x] == t || exists|k: int| 0 <= k < old.len() && new[x] == #[trigger] old[k] by {
            if x < old.len() {
                assert(new[x] == old[x]);
            }
        }
    }
}

/// Stores `t` over the table of the same name, or after the others.
fn put_table(tables: &mut Vec<FirewallTable>, t: FirewallTable)
    requires
        tables_wf(old(tables)@),
        chains_distinct(t.chains@),
    ensures
        table_stored(old(tables)@, final(tables)@, t),
        tables_wf(final(tables)@),
{
    let ghost ts = tables@;
    match table_position(tables, t.name.as_str()) {
        Some(i) => {
            tables.remove(i);
            tables.insert(i, t);
            assert(tables@ =~= ts.update(i as int, t));
            assert forall|a: int, b: int| 0 <= a < b < tables@.len() implies #[trigger] tables@[a].name@
                != #[trigger] tables@[b].name@ by {
                assert(ts[a].name@ != ts[b].name@);
            }
            assert forall|a: int| 0 <= a < tables@.len() implies chains_distinct(#[trigger] tables@[a].chains@) by {
                if a != i {
                    assert(tables@[a] == ts[a]);
                    assert(chains_distinct(ts[a].chains@));
                } else {
                    assert(tables@[a] == t);
                }
            }
        },
        None => {
            tables.push(t);
            assert forall|a: int, b: int| 0 <= a < b < tables@.len() implies #[trigger] tables@[a].name@
                != #[trigger] tables@[b].name@ by {
                if b < ts.len() {
                    assert(ts[a].name@ != ts[b].name@);
                }
            }
            assert forall|a: int| 0 <= a < tables@.len() implies chains_distinct(#[trigger] tables@[a].chains@) by {
                if a < ts.len() {
                    assert(tables@[a] == ts[a]);
                    assert(chains_distinct(ts[a].chains@));
                } else {
                    assert(tables@[a] == t);
                }
            }
        },
    }
}

fn listing_at(ls: &Vec<Option<String>>, k: usize) -> (r: Option<&str>)
    ensures
        k < ls.len() && ls@[k as int] is Some ==> (r matches Some(o) && ls@[k as int] matches Some(s) && o@ == s@),
        !(k < ls.len() && ls@[k as int] is Some) ==> r is None,
{
    if k < ls.len() {
        match &ls[k] {
            Some(s) => Some(s.as_str()),
            None => None,
        }
    } else {
        None
    }
}

/// The zones that `firewall-cmd --get-zones` lists: its words.
pub fn firewalld_zones(output: &str) -> (r: Vec<String>)
    ensures
        views(r@) == words(output@),
{
    words_exec(output)
}

impl FirewallManager {
    /// Reads one iptables table from its listing (`None`: the listing
    /// command failed) and stores it over the table of that name.
    pub fn load_iptables_table(&mut self, table_name: &str, listing: Option<&str>) -> (r: Result<(), NovaError>)
        ensures
            listing is None ==> r == Err::<(), NovaError>(NovaError::SystemCommandFailed) && *final(self)
                == *old(self),
            listing matches Some(out) ==> {
                &&& r is Ok
                &&& exists|t: FirewallTable|
                    listed_table(t, table_name@, out@) && table_stored(
                        old(self).tables_view(),
                        final(self).tables_view(),
                        t,
                    )
                &&& final(self).conflicts_view() == old(self).conflicts_view()
                &&& final(self).backend_view() == old(self).backend_view()
                &&& final(self).flows_view() == old(self).flows_view()
            },
    {
        proof {
            use_type_invariant(&*self);
        }
        match listing {
            None => Err(NovaError::SystemCommandFailed),
            Some(out) => {
                let table = self.parse_iptables_output(table_name, out)?;
                let mut tables: Vec<FirewallTable> = Vec::new();
                std::mem::swap(&mut tables, &mut self.tables);
                put_table(&mut tables, table);
                self.tables = tables;
                Ok(())
            },
        }
    }

    /// The commands whose output the backend's rules are read from.
    pub fn rule_listing_commands(&self) -> (r: Vec<Vec<String>>)
        ensures
            r@.len() == listing_commands_of(self.backend_view()).len(),
            forall|k: int| 0 <= k < r@.len() ==> views(#[trigger] r@[k]@) == listing_commands_of(self.backend_view())[k],
    {
        let mut r: Vec<Vec<String>> = Vec::new();
        match self.backend {
            FirewallBackend::Iptables => {
                r.push(iptables_list_command("filter"));
                r.push(iptables_list_command("nat"));
                r.push(iptables_list_command("mangle"));
            },
            FirewallBackend::Nftables => {
                let mut c: Vec<String> = Vec::new();
                push_str(&mut c, "nft");
                push_str(&mut c, "list");
                push_str(&mut c, "ruleset");
                r.push(c);
            },
            FirewallBackend::Firewalld => {
                let mut c: Vec<String> = Vec::new();
                push_str(&mut c, "firewall-cmd");
                push_str(&mut c, "--get-zones");
                r.push(c);
            },
            FirewallBackend::Ufw => {
                let mut c: Vec<String> = Vec::new();
                push_str(&mut c, "ufw");
                push_str(&mut c, "status");
                push_str(&mut c, "numbered");
                r.push(c);
            },
        }
        proof {
            reveal_strlit("filter");
            reveal_strlit("nat");
            reveal_strlit("mangle");
        }
        assert(views(r@[0]@) =~= listing_commands_of(self.backend_view())[0]);
        r
    }

    /// Loads the backend's rules from the outputs of `rule_listing_commands`,
    /// in order (`None`: that command failed; a missing output counts as a
    /// failure). For iptables the filter, nat and mangle tables are read in
    /// turn, each stored over the table of its name, and the first failure
    /// stops the loading; the other backends only check that their command
    /// succeeded, as their rules are not read into tables.
    pub fn load_current_rules(&mut self, listings: &Vec<Option<String>>) -> (r: Result<(), NovaError>)
        ensures
            final(self).conflicts_view() == old(self).conflicts_view(),
            final(self).backend_view() == old(self).backend_view(),
            final(self).flows_view() == old(self).flows_view(),
            old(self).backend_view() == FirewallBackend::Iptables ==> {
                let n = listings_read(listings@);
                &&& (n == 3 ==> r is Ok)
                &&& (n < 3 ==> r == Err::<(), NovaError>(NovaError::SystemCommandFailed))
                &&& kept_except(old(self).tables_view(), final(self).tables_view(), iptables_table_names().take(n as int))
                &&& forall|k: int| 0 <= k < n ==> (listings@[k] matches Some(o) && holds_listed(
                    final(self).tables_view(),
                    #[trigger] iptables_table_names()[k],
                    o@,
                ))
            },
            old(self).backend_view() != FirewallBackend::Iptables ==> {
                &&& final(self).tables_view() == old(self).tables_view()
                &&& (listings@.len() > 0 && listings@[0] is Some ==> r is Ok)
                &&& (!(listings@.len() > 0 && listings@[0] is Some) ==> r == Err::<(), NovaError>(
                    NovaError::SystemCommandFailed,
                ))
            },
    {
        match self.backend {
            FirewallBackend::Iptables => {
                proof {
                    reveal_strlit("filter");
                    reveal_strlit("nat");
                    reveal_strlit("mangle");
                }
                let ghost t0 = self.tables_view();
                let ghost names = iptables_table_names();
                self.load_iptables_table("filter", listing_at(listings, 0))?;
                let ghost t1 = self.tables_view();
                proof {
                    let t = choose|t: FirewallTable| listed_table(t, "filter"@, listings@[0]->0@) && table_stored(t0, t1, t);
                    lemma_stored(t0, t1, t);
                    assert(names.take(1) =~= seq![t.name@]);
                    assert(holds_listed(t1, names[0], listings@[0]->0@));
                }
                self.load_iptables_table("nat", listing_at(listings, 1))?;
                let ghost t2 = self.tables_view();
                proof {
                    let t = choose|t: FirewallTable| listed_table(t, "nat"@, listings@[1]->0@) && table_stored(t1, t2, t);
                    lemma_stored(t1, t2, t);
                    assert(names[0].len() == 6 && names[1].len() == 3);
                    assert(names[0] != names[1]);
                    assert(holds_listed(t2, names[0], listings@[0]->0@));
                    assert(holds_listed(t2, names[1], listings@[1]->0@));
                    assert forall|i: int| 0 <= i < t0.len() && !names.take(2).contains(t0[i].name@) implies #[trigger] t2[i] == t0[i] by {
                        assert(!names.take(1).contains(t0[i].name@)) by {
                            if names.take(1).contains(t0[i].name@) {
                                assert(names.take(2)[0] == names.take(1)[0]);
                            }
                        }
                        assert(!seq![t.name@].contains(t1[i].name@)) by {
                            if seq![t.name@].contains(t1[i].name@) {
                                assert(names.take(2)[1] == t.name@);
                            }
                        }
                    }
                }
                self.load_iptables_table("mangle", listing_at(listings, 2))?;
                let ghost t3 = self.tables_view();
                proof {
                    let t = choose|t: FirewallTable| listed_table(t, "mangle"@, listings@[2]->0@) && table_stored(t2, t3, t);
                    lemma_stored(t2, t3, t);
                    assert(names[0][0] == 'f' && names[2][0] == 'm');
                    assert(names[1].len() == 3 && names[2].len() == 6);
                    assert(names[0] != names[2]);
                    assert(names[1] != names[2]);
                    assert(holds_listed(t3, names[0], listings@[0]->0@));
                    assert(holds_listed(t3, names[1], listings@[1]->0@));
                    assert(holds_listed(t3, names[2], listings@[2]->0@));
                    assert forall|i: int| 0 <= i < t0.len() && !names.take(3).contains(t0[i].name@) implies #[trigger] t3[i] == t0[i] by {
                        assert(!names.take(2).contains(t0[i].name@)) by {
                            if names.take(2).contains(t0[i].name@) {
                                let j = choose|j: int| 0 <= j < 2 && names.take(2)[j] == t0[i].name@;
                                assert(names.take(3)[j] == names.take(2)[j]);
                            }
                        }
                        assert(!seq![t.name@].contains(t2[i].name@)) by {
                            if seq![t.name@].contains(t2[i].name@) {
                                assert(names.take(3)[2] == t.name@);
                            }
                        }
                    }
                }
                Ok(())
            },
            _ => {
                match listing_at(listings, 0) {
                    Some(_) => Ok(()),
                    None => Err(NovaError::SystemCommandFailed),
                }
            },
        }
    }
}

fn iptables_list_command(table: &str) -> (r: Vec<String>)
    ensures
        views(r@) == seq!["iptables"@, "-t"@, table@, "-L"@, "-n"@, "-v"@, "--line-numbers"@],
{
    let mut c: Vec<String> = Vec::new();
    push_str(&mut c, "iptables");
    push_str(&mut c, "-t");
    push_str(&mut c, table);
    push_str(&mut c, "-L");
    push_str(&mut c, "-n");
    push_str(&mut c, "-v");
    push_str(&mut c, "--line-numbers");
    assert(views(c@) =~= seq!["iptables"@, "-t"@, table@, "-L"@, "-n"@, "-v"@, "--line-numbers"@]);
    c
}


// ---------------------------------------------------------------------------
// Optimisation hints
// ---------------------------------------------------------------------------

/// The hint for a chain of more than twenty rules.
pub open spec fn long_chain_note(table: Seq<char>, chain: Seq<char>, n: nat) -> Seq<char> {
    "Chain "@ + table + "."@ + chain + " has "@ + dec(n) + " rules - consider optimization"@
}

/// The hints for the chains of one table, in order.
pub open spec fn chain_notes(table: Seq<char>, cs: Seq<FirewallChain>) -> Seq<Seq<char>>
    decreases cs.len(),
{
    if cs.len() == 0 {
        Seq::empty()
    } else {
        chain_notes(table, cs.drop_last()) + if cs.last().rules@.len() > 20 {
            seq![long_chain_note(table, cs.last().name@, cs.last().rules@.len())]
        } else {
            Seq::empty()
        }
    }
}

/// The hints for all tables, in order.
pub open spec fn performance_notes(ts: Seq<FirewallTable>) -> Seq<Seq<char>>
    decreases ts.len(),
{
    if ts.len() == 0 {
        Seq::empty()
    } else {
        performance_notes(ts.drop_last()) + chain_notes(ts.last().name@, ts.last().chains@)
    }
}

fn long_chain_note_exec(table: &str, chain: &str, n: usize) -> (r: String)
    ensures
        r@ == long_chain_note(table@, chain@, n as nat),
{
    let mut r = cat("Chain ", table);
    r.append(".");
    r.append(chain);
    r.append(" has ");
    let d = dec_string(n as u64);
    r.append(d.as_str());
    r.append(" rules - consider optimization");
    r
}

impl FirewallManager {
    /// One hint for each chain of more than twenty rules, tables and chains in order.
    pub fn analyze_rule_performance(&self) -> (r: Vec<String>)
        ensures
            views(r@) == performance_notes(self.tables_view()),
    {
        let mut out: Vec<String> = Vec::new();
        let mut t: usize = 0;
        while t < self.tables.len()
            invariant
                t <= self.tables.len(),
                views(out@) == performance_notes(self.tables@.take(t as int)),
            decreases self.tables.len() - t,
        {
            let table = &self.tables[t];
            assert(self.tables@.take(t + 1).drop_last() =~= self.tables@.take(t as int));
            let ghost before = views(out@);
            let mut c: usize = 0;
            assert(table.chains@.take(0) =~= Seq::<FirewallChain>::empty());
            while c < table.chains.len()
                invariant
                    t < self.tables.len(),
                    table == &self.tables[t as int],
                    c <= table.chains.len(),
                    views(out@) == before + chain_notes(table.name@, table.chains@.take(c as int)),
                decreases table.chains.len() - c,
            {
                let chain = &table.chains[c];
                assert(table.chains@.take(c + 1).drop_last() =~= table.chains@.take(c as int));
                let ghost o0 = views(out@);
                if chain.rules.len() > 20 {
                    let note = long_chain_note_exec(table.name.as_str(), chain.name.as_str(), chain.rules.len());
                    out.push(note);
                    assert(views(out@) =~= o0 + seq![note@]);
                } else {
                    assert(views(out@) =~= o0 + Seq::<Seq<char>>::empty());
                }
                assert(views(out@) =~= before + chain_notes(table.name@, table.chains@.take(c + 1)));
                c += 1;
            }
            assert(table.chains@.take(table.chains.len() as int) =~= table.chains@);
            t += 1;
        }
        assert(self.tables@.take(self.tables.len() as int) =~= self.tables@);
        out
    }

    /// Rules that could be merged: none are found.
    fn suggest_rule_consolidation(&self) -> (r: Vec<String>)
        ensures
            r@.len() == 0,
    {
        Vec::new()
    }

    /// Rules that never match: none are found, as traffic is not yet traced.
    fn detect_unused_rules(&self) -> (r: Result<Vec<String>, NovaError>)
        ensures
            r matches Ok(v) && v@.len() == 0,
    {
        Ok(Vec::new())
    }

    /// Optimisation hints: those for long chains (see
    /// `analyze_rule_performance`); no consolidation or unused-rule hints
    /// are produced.
    pub fn optimize_rules(&mut self) -> (r: Result<Vec<String>, NovaError>)
        ensures
            r matches Ok(v) && views(v@) == performance_notes(old(self).tables_view()),
            *final(self) == *old(self),
    {
        let mut suggestions = self.analyze_rule_performance();
        let mut more = self.suggest_rule_consolidation();
        suggestions.append(&mut more);
        let mut unused = self.detect_unused_rules()?;
        suggestions.append(&mut unused);
        assert(views(suggestions@) =~= performance_notes(self.tables_view()));
        Ok(suggestions)
    }

    /// The manager for the host's backend, or an iptables one when no
    /// backend is found.
    pub fn default_for_host(firewalld: bool, nft: bool, iptables: bool, ufw: bool) -> (m: Self)
        ensures
            m.backend_view() == match backend_of(firewalld, nft, iptables, ufw) {
                Some(b) => b,
                None => FirewallBackend::Iptables,
            },
            m.tables_view().len() == 0,
            m.conflicts_view().len() == 0,
            m.flows_view().len() == 0,
    {
        match Self::new(firewalld, nft, iptables, ufw) {
            Ok(m) => m,
            Err(_) => FirewallManager {
                backend: FirewallBackend::Iptables,
                tables: Vec::new(),
                active_flows: Vec::new(),
                interfaces: Vec::new(),
                rule_conflicts: Vec::new(),
            },
        }
    }
}


// ---------------------------------------------------------------------------
// Laws
// ---------------------------------------------------------------------------

/// Two table lists hold the same tables, chains and rules.
pub open spec fn same_tables(a: Seq<FirewallTable>, b: Seq<FirewallTable>) -> bool {
    &&& a.len() == b.len()
    &&& forall|i: int| 0 <= i < a.len() ==> #[trigger] a[i].name == b[i].name && a[i].chains@.len() == b[i].chains@.len()
    &&& forall|i: int, k: int|
        0 <= i < a.len() && 0 <= k < a[i].chains@.len() ==> {
            let x = #[trigger] a[i].chains@[k];
            let y = b[i].chains@[k];
            x.name == y.name && x.table == y.table && x.policy == y.policy && x.packets == y.packets
                && x.bytes == y.bytes && x.rules@ == y.rules@
        }
}

/// Adding a rule to a chain the manager holds, then removing the rule by its
/// id, gives back the tables as they were, provided no rule had that id
/// before: the removal finds the added rule and no other.
pub proof fn law_add_then_remove_restores(
    old: Seq<FirewallTable>,
    mid: Seq<FirewallTable>,
    new: Seq<FirewallTable>,
    rule: FirewallRule,
    t: int,
    c: int,
    t2: int,
    c2: int,
    p2: int,
)
    requires
        rule_slot(old, t, c, rule),
        chain_rules_replaced(old, mid, t, c, old[t].chains@[c].rules@.push(rule)),
        !holds_rule_id(old, rule.id@),
        first_rule_with_id(mid, rule.id@, t2, c2, p2),
        chain_rules_replaced(mid, new, t2, c2, mid[t2].chains@[c2].rules@.remove(p2)),
    ensures
        same_tables(old, new),
{
    let rs = old[t].chains@[c].rules@;
    let n = rs.len() as int;
    assert(mid[t].chains@[c].rules@[n] == rule);
    assert(rule_pos(mid, t, c, n) && rule_id_at(mid, t, c, n) == rule.id@);
    // The found rule is the added one: every other rule of `mid` is a rule of `old`.
    if !(t2 == t && c2 == c && p2 == n) {
        if t2 != t {
            assert(mid[t2] == old[t2]);
            assert(rule_id_at(old, t2, c2, p2) == rule.id@);
        } else if c2 != c {
            assert(mid[t].chains@[c2] == old[t].chains@[c2]);
            assert(rule_id_at(old, t2, c2, p2) == rule.id@);
        } else {
            assert(p2 < n);
            assert(mid[t].chains@[c].rules@[p2] == rs[p2]);
            assert(rule_id_at(old, t2, c2, p2) == rule.id@);
        }
        assert(holds_rule_id(old, rule.id@));
    }
    assert(rs.push(rule).remove(n) =~= rs);
    assert forall|i: int| 0 <= i < old.len() implies #[trigger] old[i].name == new[i].name
        && old[i].chains@.len() == new[i].chains@.len() by {
        if i != t {
            assert(new[i] == mid[i]);
        }
    }
    assert forall|i: int, k: int| 0 <= i < old.len() && 0 <= k < old[i].chains@.len() implies {
        let x = #[trigger] old[i].chains@[k];
        let y = new[i].chains@[k];
        x.name == y.name && x.table == y.table && x.policy == y.policy && x.packets == y.packets
            && x.bytes == y.bytes && x.rules@ == y.rules@
    } by {
        if i != t {
            assert(new[i] == mid[i]);
        } else if k != c {
            assert(new[t].chains@[k] == mid[t].chains@[k]);
        }
    }
}

impl RuleConflict {
    /// A field-by-field copy.
    pub fn clone_conflict(&self) -> (r: RuleConflict)
        ensures
            r == *self,
    {
        RuleConflict {
            rule1_id: self.rule1_id.clone(),
            rule2_id: self.rule2_id.clone(),
            conflict_type: self.conflict_type,
            description: self.description.clone(),
            severity: self.severity,
        }
    }
}
} // verus!
