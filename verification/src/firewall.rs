//! The leak-prevention manager: the fixed, ordered command set that redirects
//! DNS to the tunnel and blocks DNS egress elsewhere, its inverse, and a
//! model of the packet-filter state the rules live in.  Every command here is
//! best-effort for the caller: a failure is logged, never raised, because
//! leak prevention is defense in depth, not a precondition for tunnel use.
use vstd::multiset::Multiset;
use vstd::prelude::*;
use vstd::string::*;

use crate::text::{eq_str, views_of};

verus! {

#[derive(Debug, Clone, Copy, PartialEq, Eq, Structural)]
pub enum IpVersion {
    V4,
    V6,
}

#[derive(Debug, Clone, Copy, PartialEq, Eq, Structural)]
pub enum DnsProto {
    Udp,
    Tcp,
}

/// One packet-filter rule: reject DNS (port 53) egress over `proto`, for one
/// IP version, on every interface except `iface`.
#[derive(Debug, Clone, PartialEq)]
pub struct FwRule {
    pub version: IpVersion,
    pub proto: DnsProto,
    pub iface: String,
}

/// The mathematical value of a rule.
pub struct FwRuleV {
    pub version: IpVersion,
    pub proto: DnsProto,
    pub iface: Seq<char>,
}

impl View for FwRule {
    type V = FwRuleV;

    open spec fn view(&self) -> FwRuleV {
        FwRuleV { version: self.version, proto: self.proto, iface: self.iface@ }
    }
}

pub open spec fn rule_v(version: IpVersion, proto: DnsProto, iface: Seq<char>) -> FwRuleV {
    FwRuleV { version, proto, iface }
}

/// The four block rules scoped to one interface, in insertion order.
pub open spec fn leak_rules(iface: Seq<char>) -> Seq<FwRuleV> {
    seq![
        rule_v(IpVersion::V4, DnsProto::Udp, iface),
        rule_v(IpVersion::V4, DnsProto::Tcp, iface),
        rule_v(IpVersion::V6, DnsProto::Udp, iface),
        rule_v(IpVersion::V6, DnsProto::Tcp, iface),
    ]
}

/// The packet-filter state after `apply(iface)`: all four rules inserted.
pub open spec fn apply_model(s: Multiset<FwRuleV>, iface: Seq<char>) -> Multiset<FwRuleV> {
    s.insert(leak_rules(iface)[0]).insert(leak_rules(iface)[1]).insert(leak_rules(iface)[2]).insert(
        leak_rules(iface)[3],
    )
}

/// The packet-filter state after `remove(iface)`: one instance of each of
/// the four rules deleted (deleting an absent rule is a silent no-op).
pub open spec fn remove_model(s: Multiset<FwRuleV>, iface: Seq<char>) -> Multiset<FwRuleV> {
    s.remove(leak_rules(iface)[0]).remove(leak_rules(iface)[1]).remove(leak_rules(iface)[2]).remove(
        leak_rules(iface)[3],
    )
}

/// Law: `apply` followed by `remove` for the same interface restores the
/// packet-filter rule state exactly — no rule leaks, whatever rules were
/// present before.
pub proof fn lemma_apply_remove_restores(s: Multiset<FwRuleV>, iface: Seq<char>)
    ensures
        remove_model(apply_model(s, iface), iface) == s,
{
    broadcast use vstd::multiset::group_multiset_axioms;

    assert(remove_model(apply_model(s, iface), iface) =~= s);
}

/// One external command: a program name and its arguments, in order.
#[derive(Debug, Clone, PartialEq)]
pub struct Cmd {
    pub program: String,
    pub args: Vec<String>,
}

/// The views of a command sequence.
pub open spec fn cmd_views(v: Seq<Cmd>) -> Seq<CmdV> {
    v.map_values(|c: Cmd| c@)
}

/// The mathematical value of a command.
pub struct CmdV {
    pub program: Seq<char>,
    pub args: Seq<Seq<char>>,
}

impl View for Cmd {
    type V = CmdV;

    open spec fn view(&self) -> CmdV {
        CmdV { program: self.program@, args: views_of(self.args@) }
    }
}

/// The packet-filter command that inserts (or deletes) one block rule.
pub open spec fn iptables_cmd_v(r: FwRuleV, insert: bool) -> CmdV {
    CmdV {
        program: if r.version is V4 {
            "iptables"@
        } else {
            "ip6tables"@
        },
        args: seq![
            if insert {
                "-I"@
            } else {
                "-D"@
            },
            "OUTPUT"@,
            "!"@,
            "-o"@,
            r.iface,
            "-p"@,
            if r.proto is Udp {
                "udp"@
            } else {
                "tcp"@
            },
            "--dport"@,
            "53"@,
            "-j"@,
            "REJECT"@,
        ],
    }
}

fn iptables_cmd(version: IpVersion, proto: DnsProto, iface: &str, insert: bool) -> (r: Cmd)
    ensures
        r@ == iptables_cmd_v(rule_v(version, proto, iface@), insert),
{
    let program = if version == IpVersion::V4 {
        "iptables"
    } else {
        "ip6tables"
    };
    let flag = if insert {
        "-I"
    } else {
        "-D"
    };
    let proto_s = if proto == DnsProto::Udp {
        "udp"
    } else {
        "tcp"
    };
    let args: Vec<String> = vec![
        flag.to_owned(),
        String::from_str("OUTPUT"),
        String::from_str("!"),
        String::from_str("-o"),
        iface.to_owned(),
        String::from_str("-p"),
        proto_s.to_owned(),
        String::from_str("--dport"),
        String::from_str("53"),
        String::from_str("-j"),
        String::from_str("REJECT"),
    ];
    let r = Cmd { program: program.to_owned(), args };
    proof {
        assert(r@.args =~= iptables_cmd_v(rule_v(version, proto, iface@), insert).args);
    }
    r
}

/// The resolver command that points DNS for `iface` at the fixed tunnel DNS
/// server.
pub open spec fn dns_cmd_v(iface: Seq<char>) -> CmdV {
    CmdV { program: "resolvectl"@, args: seq!["dns"@, iface, "10.64.0.1"@] }
}

/// The resolver command that makes `iface` the default DNS route for all
/// domains.
pub open spec fn domain_cmd_v(iface: Seq<char>) -> CmdV {
    CmdV { program: "resolvectl"@, args: seq!["domain"@, iface, "~."@] }
}

/// The resolver command that flushes the DNS cache.
pub open spec fn flush_cmd_v() -> CmdV {
    CmdV { program: "resolvectl"@, args: seq!["flush-caches"@] }
}

/// Flushing the DNS cache, as a command the caller can run.
pub fn flush_cmd() -> (r: Cmd)
    ensures
        r@ == flush_cmd_v(),
{
    let args: Vec<String> = vec![String::from_str("flush-caches")];
    let r = Cmd { program: String::from_str("resolvectl"), args };
    proof {
        assert(r@.args =~= flush_cmd_v().args);
    }
    r
}

/// The ordered command sequence of `apply(iface)`: DNS server for the
/// interface, default DNS route, cache flush, then the four block rules.
pub open spec fn apply_cmds_v(iface: Seq<char>) -> Seq<CmdV> {
    seq![
        dns_cmd_v(iface),
        domain_cmd_v(iface),
        flush_cmd_v(),
        iptables_cmd_v(leak_rules(iface)[0], true),
        iptables_cmd_v(leak_rules(iface)[1], true),
        iptables_cmd_v(leak_rules(iface)[2], true),
        iptables_cmd_v(leak_rules(iface)[3], true),
    ]
}

/// The ordered command sequence of `remove(iface)`: the exact inverse delete
/// of each block rule, then a cache flush.
pub open spec fn remove_cmds_v(iface: Seq<char>) -> Seq<CmdV> {
    seq![
        iptables_cmd_v(leak_rules(iface)[0], false),
        iptables_cmd_v(leak_rules(iface)[1], false),
        iptables_cmd_v(leak_rules(iface)[2], false),
        iptables_cmd_v(leak_rules(iface)[3], false),
        flush_cmd_v(),
    ]
}

/// The ordered, best-effort commands that turn leak prevention on for one
/// interface.  Each is run in order; an individual failure is swallowed.
pub fn apply(interface: &str) -> (r: Vec<Cmd>)
    ensures
        cmd_views(r@) == apply_cmds_v(interface@),
{
    let dns_args: Vec<String> = vec![
        String::from_str("dns"),
        interface.to_owned(),
        String::from_str("10.64.0.1"),
    ];
    let dns = Cmd { program: String::from_str("resolvectl"), args: dns_args };
    let domain_args: Vec<String> = vec![
        String::from_str("domain"),
        interface.to_owned(),
        String::from_str("~."),
    ];
    let domain = Cmd { program: String::from_str("resolvectl"), args: domain_args };
    proof {
        assert(dns@.args =~= dns_cmd_v(interface@).args);
        assert(domain@.args =~= domain_cmd_v(interface@).args);
    }
    let r: Vec<Cmd> = vec![
        dns,
        domain,
        flush_cmd(),
        iptables_cmd(IpVersion::V4, DnsProto::Udp, interface, true),
        iptables_cmd(IpVersion::V4, DnsProto::Tcp, interface, true),
        iptables_cmd(IpVersion::V6, DnsProto::Udp, interface, true),
        iptables_cmd(IpVersion::V6, DnsProto::Tcp, interface, true),
    ];
    proof {
        assert(cmd_views(r@) =~= apply_cmds_v(interface@));
    }
    r
}

/// The ordered, best-effort commands that turn leak prevention back off,
/// idempotently: deleting already absent rules is a silent no-op.
pub fn remove(interface: &str) -> (r: Vec<Cmd>)
    ensures
        cmd_views(r@) == remove_cmds_v(interface@),
{
    let r: Vec<Cmd> = vec![
        iptables_cmd(IpVersion::V4, DnsProto::Udp, interface, false),
        iptables_cmd(IpVersion::V4, DnsProto::Tcp, interface, false),
        iptables_cmd(IpVersion::V6, DnsProto::Udp, interface, false),
        iptables_cmd(IpVersion::V6, DnsProto::Tcp, interface, false),
        flush_cmd(),
    ];
    proof {
        assert(cmd_views(r@) =~= remove_cmds_v(interface@));
    }
    r
}

/// A simulated packet filter: the live block rules, oldest first.  It stands
/// in for the real packet filter when the manager's effect on rule state is
/// exercised without touching the host.
pub struct FilterState {
    pub rules: Vec<FwRule>,
}

/// The views of a rule sequence.
pub open spec fn rule_views(v: Seq<FwRule>) -> Seq<FwRuleV> {
    v.map_values(|r: FwRule| r@)
}

impl FilterState {
    /// The rules as a multiset: the packet filter's order does not matter
    /// for leak prevention, only which rules are present.
    pub open spec fn model(&self) -> Multiset<FwRuleV> {
        rule_views(self.rules@).to_multiset()
    }

    pub fn new() -> (r: FilterState)
        ensures
            r.model() == Multiset::<FwRuleV>::empty(),
    {
        broadcast use vstd::multiset::group_multiset_axioms;

        let r = FilterState { rules: Vec::new() };
        proof {
            let vs = rule_views(r.rules@);
            assert(vs =~= Seq::<FwRuleV>::empty());
            vs.to_multiset_ensures();
            assert(vs.to_multiset() =~= Multiset::<FwRuleV>::empty());
        }
        r
    }

    /// One rule insertion, as the packet filter performs it.
    pub fn insert_rule(&mut self, version: IpVersion, proto: DnsProto, iface: &str)
        ensures
            final(self).model() == old(self).model().insert(rule_v(version, proto, iface@)),
    {
        let rule = FwRule { version, proto, iface: iface.to_owned() };
        proof {
            assert(rule_views(self.rules@.push(rule)) =~= rule_views(self.rules@).push(rule@));
            vstd::seq_lib::to_multiset_build(rule_views(self.rules@), rule@);
        }
        self.rules.push(rule);
    }

    /// One rule deletion: removes the first matching rule, and silently does
    /// nothing when no rule matches.
    pub fn delete_rule(&mut self, version: IpVersion, proto: DnsProto, iface: &str)
        ensures
            final(self).model() == old(self).model().remove(rule_v(version, proto, iface@)),
    {
        broadcast use vstd::multiset::group_multiset_axioms;

        let mut j: usize = 0;
        while j < self.rules.len()
            invariant
                j <= self.rules@.len(),
                self == old(self),
                forall|k: int| 0 <= k < j ==> (#[trigger] self.rules@[k])@ != rule_v(
                    version,
                    proto,
                    iface@,
                ),
            decreases self.rules@.len() - j,
        {
            let hit = self.rules[j].version == version && self.rules[j].proto == proto && eq_str(
                self.rules[j].iface.as_str(),
                iface,
            );
            if hit {
                proof {
                    let vs = rule_views(self.rules@);
                    assert(vs[j as int] == self.rules@[j as int]@);
                    assert(self.rules@[j as int]@ == rule_v(version, proto, iface@));
                    vs.to_multiset_ensures();
                    assert(rule_views(self.rules@.remove(j as int)) =~= vs.remove(j as int));
                }
                self.rules.remove(j);
                return ;
            }
            j = j + 1;
        }
        proof {
            let vs = rule_views(self.rules@);
            let target = rule_v(version, proto, iface@);
            vs.to_multiset_ensures();
            assert(!vs.contains(target)) by {
                assert(forall|k: int| 0 <= k < vs.len() ==> vs[k] == (#[trigger] self.rules@[k])@);
            }
            assert(vs.to_multiset().count(target) == 0);
            assert(vs.to_multiset().remove(target) =~= vs.to_multiset());
        }
    }

    /// The manager's `apply`, as its four insertions act on rule state.
    pub fn apply_rules(&mut self, iface: &str)
        ensures
            final(self).model() == apply_model(old(self).model(), iface@),
    {
        self.insert_rule(IpVersion::V4, DnsProto::Udp, iface);
        self.insert_rule(IpVersion::V4, DnsProto::Tcp, iface);
        self.insert_rule(IpVersion::V6, DnsProto::Udp, iface);
        self.insert_rule(IpVersion::V6, DnsProto::Tcp, iface);
    }

    /// The manager's `remove`, as its four deletions act on rule state.
    pub fn remove_rules(&mut self, iface: &str)
        ensures
            final(self).model() == remove_model(old(self).model(), iface@),
    {
        self.delete_rule(IpVersion::V4, DnsProto::Udp, iface);
        self.delete_rule(IpVersion::V4, DnsProto::Tcp, iface);
        self.delete_rule(IpVersion::V6, DnsProto::Udp, iface);
        self.delete_rule(IpVersion::V6, DnsProto::Tcp, iface);
    }

    /// How many rules are live.
    pub fn len(&self) -> (r: usize)
        ensures
            r == self.model().len(),
    {
        proof {
            rule_views(self.rules@).to_multiset_ensures();
        }
        self.rules.len()
    }
}

} // verus!
