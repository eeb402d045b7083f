use nova::firewall::{
    detect_backend, firewalld_zones, iptables_args, ConflictSeverity, ConflictType,
    FirewallBackend, FirewallManager, FirewallRule, NetworkAddress, PortRange, Protocol,
    RuleTarget,
};
use nova::NovaError;

const LISTING: &str = "Chain INPUT (policy ACCEPT 0 packets, 0 bytes)
num   pkts bytes target     prot opt in     out     source               destination
1        0     0 ACCEPT     all  --  lo     *       0.0.0.0/0            0.0.0.0/0
2        0     0 ACCEPT     tcp  --  *      *       0.0.0.0/0            0.0.0.0/0

Chain FORWARD (policy DROP 0 packets, 0 bytes)
num   pkts bytes target     prot opt in     out     source               destination

Chain OUTPUT (policy ACCEPT 0 packets, 0 bytes)
num   pkts bytes target     prot opt in     out     source               destination
1        0     0 ACCEPT     all  --  *      *       0.0.0.0/0            0.0.0.0/0
";

fn rule(id: &str, chain: &str, table: &str) -> FirewallRule {
    FirewallRule {
        id: id.to_string(),
        chain: chain.to_string(),
        table: table.to_string(),
        target: RuleTarget::Drop,
        protocol: Some(Protocol::Tcp),
        source: None,
        destination: None,
        port_range: Some(PortRange { start: 22, end: None, negated: false }),
        interface: None,
        state: None,
        comment: None,
        enabled: true,
        priority: 0,
    }
}

fn is_uuid_text(s: &str) -> bool {
    s.len() == 36
        && s.char_indices().all(|(i, c)| {
            if i == 8 || i == 13 || i == 18 || i == 23 {
                c == '-'
            } else {
                c.is_ascii_hexdigit() && !c.is_ascii_uppercase()
            }
        })
        && s.as_bytes()[14] == b'4'
}

fn iptables_manager() -> FirewallManager {
    FirewallManager::new(false, false, true, false).unwrap()
}

#[test]
fn backend_preference_order() {
    assert_eq!(detect_backend(true, true, true, true), Ok(FirewallBackend::Firewalld));
    assert_eq!(detect_backend(false, true, true, true), Ok(FirewallBackend::Nftables));
    assert_eq!(detect_backend(false, false, true, true), Ok(FirewallBackend::Iptables));
    assert_eq!(detect_backend(false, false, false, true), Ok(FirewallBackend::Ufw));
    assert_eq!(detect_backend(false, false, false, false), Err(NovaError::SystemCommandFailed));
}

#[test]
fn manager_without_backend_fails_and_default_falls_back() {
    assert!(matches!(
        FirewallManager::new(false, false, false, false),
        Err(NovaError::SystemCommandFailed)
    ));
    let m = FirewallManager::default_for_host(false, false, false, false);
    assert_eq!(*m.get_backend(), FirewallBackend::Iptables);
    assert!(m.get_tables().is_empty());
}

#[test]
fn validation_names_the_missing_part() {
    let m = iptables_manager();
    assert_eq!(
        m.validate_rule(&rule("r", "", "filter")),
        Err(NovaError::ConfigError("Chain name cannot be empty".to_string()))
    );
    assert_eq!(
        m.validate_rule(&rule("r", "INPUT", "")),
        Err(NovaError::ConfigError("Table name cannot be empty".to_string()))
    );
    assert_eq!(m.validate_rule(&rule("r", "INPUT", "filter")), Ok(()));
}

#[test]
fn iptables_arguments_of_a_rule() {
    let mut r = rule("r", "INPUT", "filter");
    r.target = RuleTarget::Accept;
    r.source = Some(NetworkAddress { address: "10.0.0.0/8".to_string(), cidr: None, negated: true });
    let args = iptables_args(&r);
    assert_eq!(
        args,
        vec![
            "-t", "filter", "-A", "INPUT", "-p", "tcp", "!", "-s", "10.0.0.0/8", "--dport", "22",
            "-j", "ACCEPT"
        ]
    );
    let mut other = rule("r", "FORWARD", "nat");
    other.protocol = Some(Protocol::All);
    other.port_range = None;
    other.target = RuleTarget::Masquerade;
    other.destination = Some(NetworkAddress { address: "1.2.3.4".to_string(), cidr: Some(32), negated: false });
    assert_eq!(iptables_args(&other), vec!["-t", "nat", "-A", "FORWARD", "-d", "1.2.3.4"]);
}

#[test]
fn only_iptables_applies_a_command() {
    let m = iptables_manager();
    assert!(m.add_rule_command(&rule("r", "INPUT", "filter")).is_some());
    let n = FirewallManager::new(false, true, false, false).unwrap();
    assert!(n.add_rule_command(&rule("r", "INPUT", "filter")).is_none());
}

#[test]
fn listing_is_read_into_chains() {
    let m = iptables_manager();
    let table = m.parse_iptables_output("filter", LISTING).unwrap();
    assert_eq!(table.name, "filter");
    let names: Vec<&str> = table.chains.iter().map(|c| c.name.as_str()).collect();
    assert_eq!(names, vec!["INPUT", "FORWARD", "OUTPUT"]);
    let counts: Vec<usize> = table.chains.iter().map(|c| c.rules.len()).collect();
    assert_eq!(counts, vec![2, 0, 1]);
    for chain in &table.chains {
        assert_eq!(chain.table, "filter");
        for r in &chain.rules {
            assert_eq!(r.chain, "INPUT");
            assert_eq!(r.table, "filter");
            assert!(matches!(r.target, RuleTarget::Accept));
            assert!(is_uuid_text(&r.id));
        }
    }
    let ids: Vec<&str> = table.chains[0].rules.iter().map(|r| r.id.as_str()).collect();
    assert_ne!(ids[0], ids[1]);
}

#[test]
fn rules_before_a_chain_and_repeated_chains() {
    let m = iptables_manager();
    let text = "1 stray rule\nChain A (policy)\n2 rule\nChain A again\n3 rule\n4 rule\n";
    let table = m.parse_iptables_output("mangle", text).unwrap();
    assert_eq!(table.chains.len(), 1);
    assert_eq!(table.chains[0].name, "A");
    assert_eq!(table.chains[0].rules.len(), 2);
}

#[test]
fn load_add_analyze_and_remove() {
    let mut m = iptables_manager();
    assert_eq!(m.load_iptables_table("filter", None), Err(NovaError::SystemCommandFailed));
    assert_eq!(m.load_iptables_table("filter", Some(LISTING)), Ok(()));
    assert_eq!(m.get_tables().len(), 1);
    let r = rule("added", "INPUT", "filter");
    assert_eq!(m.add_rule(r.clone(), Ok(())), Ok(()));
    assert_eq!(m.get_tables()[0].chains[0].rules.len(), 3);
    let conflicts = m.get_rule_conflicts();
    assert_eq!(conflicts.len(), 1);
    assert_eq!(conflicts[0].conflict_type, ConflictType::Redundant);
    assert_eq!(conflicts[0].severity, ConflictSeverity::Medium);
    assert_eq!(conflicts[0].description, "Rules are functionally equivalent");
    assert_eq!(conflicts[0].rule1_id, m.get_tables()[0].chains[0].rules[0].id);
    assert_eq!(
        m.remove_rule("nothing"),
        Err(NovaError::NetworkNotFound("Rule nothing not found".to_string()))
    );
    assert_eq!(m.remove_rule("added"), Ok(()));
    assert_eq!(m.get_tables()[0].chains[0].rules.len(), 2);
}

#[test]
fn add_rule_reports_backend_failure_and_invalid_rules() {
    let mut m = iptables_manager();
    m.load_iptables_table("filter", Some(LISTING)).unwrap();
    assert_eq!(
        m.add_rule(rule("x", "INPUT", "filter"), Err(NovaError::SystemCommandFailed)),
        Err(NovaError::SystemCommandFailed)
    );
    assert_eq!(
        m.add_rule(rule("x", "", "filter"), Ok(())),
        Err(NovaError::ConfigError("Chain name cannot be empty".to_string()))
    );
    assert_eq!(m.get_tables()[0].chains[0].rules.len(), 2);
    assert_eq!(m.add_rule(rule("x", "NOPE", "filter"), Ok(())), Ok(()));
    assert_eq!(m.get_tables()[0].chains.iter().map(|c| c.rules.len()).sum::<usize>(), 3);
}

#[test]
fn load_current_rules_reads_three_tables() {
    let mut m = iptables_manager();
    let commands = m.rule_listing_commands();
    assert_eq!(commands.len(), 3);
    assert_eq!(commands[1], vec!["iptables", "-t", "nat", "-L", "-n", "-v", "--line-numbers"]);
    let outputs = vec![Some(LISTING.to_string()), Some(String::new()), None];
    assert_eq!(m.load_current_rules(&outputs), Err(NovaError::SystemCommandFailed));
    let names: Vec<&str> = m.get_tables().iter().map(|t| t.name.as_str()).collect();
    assert_eq!(names, vec!["filter", "nat"]);
    let all = vec![Some(LISTING.to_string()), Some(String::new()), Some(LISTING.to_string())];
    assert_eq!(m.load_current_rules(&all), Ok(()));
    assert_eq!(m.get_tables().len(), 3);
}

#[test]
fn other_backends_only_check_their_command() {
    let mut m = FirewallManager::new(true, false, false, false).unwrap();
    assert_eq!(m.rule_listing_commands(), vec![vec!["firewall-cmd", "--get-zones"]]);
    assert_eq!(m.load_current_rules(&vec![Some("public".to_string())]), Ok(()));
    assert_eq!(m.load_current_rules(&vec![None]), Err(NovaError::SystemCommandFailed));
    assert!(m.get_tables().is_empty());
    assert_eq!(firewalld_zones(" block  dmz\npublic\n"), vec!["block", "dmz", "public"]);
}

#[test]
fn long_chains_get_a_hint() {
    let mut m = iptables_manager();
    let mut text = String::from("Chain INPUT (policy ACCEPT)\n");
    for i in 0..21 {
        text.push_str(&format!("{} 0 0 ACCEPT all\n", i + 1));
    }
    text.push_str("Chain OUTPUT (policy ACCEPT)\n1 0 0 ACCEPT all\n");
    m.load_iptables_table("filter", Some(&text)).unwrap();
    assert_eq!(
        m.analyze_rule_performance(),
        vec!["Chain filter.INPUT has 21 rules - consider optimization".to_string()]
    );
    assert_eq!(
        m.optimize_rules(),
        Ok(vec!["Chain filter.INPUT has 21 rules - consider optimization".to_string()])
    );
}

#[test]
fn added_then_removed_rule_leaves_tables_as_they_were() {
    let mut m = iptables_manager();
    m.load_iptables_table("filter", Some(LISTING)).unwrap();
    let before: Vec<Vec<String>> = m.get_tables()[0]
        .chains
        .iter()
        .map(|c| c.rules.iter().map(|r| r.id.clone()).collect())
        .collect();
    m.add_rule(rule("temp", "OUTPUT", "filter"), Ok(())).unwrap();
    m.remove_rule("temp").unwrap();
    let after: Vec<Vec<String>> = m.get_tables()[0]
        .chains
        .iter()
        .map(|c| c.rules.iter().map(|r| r.id.clone()).collect())
        .collect();
    assert_eq!(before, after);
}
