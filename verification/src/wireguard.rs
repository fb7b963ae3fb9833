//! The connection lifecycle controller: status derivation from the live
//! tunnel subsystem, classification of tunnel-up failures, and the small-step
//! connect and disconnect machines that sequence tunnel, firewall and
//! resolver work.  The caller runs each returned action against the host and
//! hands the outcome back; the machines decide everything else.
use vstd::prelude::*;
use vstd::set::Set;
use vstd::string::*;

use crate::text::{
    contains_seq, contains_str, match_at, split_lines, split_lines_spec, starts_with_str,
    trim_spec, trim_str, views_of,
};

verus! {

/// Connection status, derived on demand by querying the live tunnel
/// subsystem and never cached across restarts.  Its view is the code of the
/// active tunnel interface, if one is active.
#[derive(Debug, Clone, PartialEq)]
pub enum ConnectionStatus {
    Connected(String),
    Disconnected,
}

impl View for ConnectionStatus {
    type V = Option<Seq<char>>;

    open spec fn view(&self) -> Option<Seq<char>> {
        match self {
            ConnectionStatus::Connected(c) => Some(c@),
            ConnectionStatus::Disconnected => None,
        }
    }
}

impl ConnectionStatus {
    /// True exactly when the status names an active tunnel interface.
    pub fn is_connected(&self) -> (r: bool)
        ensures
            r == (self@ is Some),
    {
        match self {
            ConnectionStatus::Connected(_) => true,
            ConnectionStatus::Disconnected => false,
        }
    }
}

/// The tunnel interface a status line names: the line must carry the
/// interface marker, and the named interface must be non-empty and carry the
/// profile-code marker.
pub open spec fn iface_of_line(line: Seq<char>) -> Option<Seq<char>> {
    if match_at(line, "interface:"@, 0) {
        let n = trim_spec(line.skip(10));
        if n.len() > 0 && contains_seq(n, "-wg-"@) {
            Option::Some(n)
        } else {
            Option::None
        }
    } else {
        Option::None
    }
}

/// The first recognized interface among the given lines.
pub open spec fn first_iface(ls: Seq<Seq<char>>) -> Option<Seq<char>>
    decreases ls.len(),
{
    if ls.len() == 0 {
        Option::None
    } else if iface_of_line(ls[0]) is Some {
        iface_of_line(ls[0])
    } else {
        first_iface(ls.drop_first())
    }
}

/// The status the tunnel subsystem's report derives to.
pub open spec fn status_spec(out: Seq<char>) -> Option<Seq<char>> {
    first_iface(split_lines_spec(out))
}

/// Derives the connection status from the tunnel subsystem's report: the
/// first reported interface that matches the profile naming convention, or
/// `Disconnected` when there is none or the query itself failed.  A pure
/// query: safe to call at any rate.
pub fn get_status(show_output: &str, command_ok: bool) -> (r: ConnectionStatus)
    ensures
        command_ok ==> r@ == status_spec(show_output@),
        !command_ok ==> r@ is None,
{
    if !command_ok {
        return ConnectionStatus::Disconnected;
    }
    let lines = split_lines(show_output);
    let ghost lvs = split_lines_spec(show_output@);
    let mut i: usize = 0;
    proof {
        assert(lvs.skip(0) =~= lvs);
    }
    while i < lines.len()
        invariant
            command_ok,
            i <= lines@.len(),
            lvs == split_lines_spec(show_output@),
            views_of(lines@) == lvs,
            first_iface(lvs) == first_iface(lvs.skip(i as int)),
        decreases lines@.len() - i,
    {
        let ghost lv = lvs[i as int];
        proof {
            assert(lines@[i as int]@ == lv);
            assert(lvs.skip(i as int)[0] == lv);
            assert(lvs.skip(i as int).drop_first() =~= lvs.skip(i as int + 1));
        }
        let line = lines[i].as_str();
        if starts_with_str(line, "interface:") {
            proof {
                reveal_strlit("interface:");
            }
            let rest = line.substring_char(10, line.unicode_len());
            let name = trim_str(rest);
            proof {
                assert(rest@ =~= lv.skip(10));
            }
            if name.unicode_len() > 0 && contains_str(name, "-wg-") {
                proof {
                    assert(iface_of_line(lv) == Some(name@));
                }
                return ConnectionStatus::Connected(name.to_owned());
            }
        }
        proof {
            assert(iface_of_line(lv) is None);
        }
        i = i + 1;
    }
    proof {
        assert(lvs.skip(i as int).len() == 0);
    }
    ConnectionStatus::Disconnected
}

/// The known tunnel-up failure classes, in the priority order the
/// controller tests them.
#[derive(Debug, Clone, Copy, PartialEq, Eq, Structural)]
pub enum UpFailure {
    SignatureMismatch,
    ModuleNotLoaded,
    InterfaceExists,
    Other,
}

/// Classifies combined tunnel-up output, in priority order: the transient
/// resolver signature mismatch first, then the missing kernel module, then
/// an already existing interface, else unclassified.
pub open spec fn classify_spec(out: Seq<char>) -> UpFailure {
    if contains_seq(out, "signature mismatch"@) {
        UpFailure::SignatureMismatch
    } else if contains_seq(out, "RTNETLINK answers: Operation not supported"@) {
        UpFailure::ModuleNotLoaded
    } else if contains_seq(out, "already exists"@) {
        UpFailure::InterfaceExists
    } else {
        UpFailure::Other
    }
}

pub fn classify_up_failure(output: &str) -> (r: UpFailure)
    ensures
        r == classify_spec(output@),
{
    if contains_str(output, "signature mismatch") {
        UpFailure::SignatureMismatch
    } else if contains_str(output, "RTNETLINK answers: Operation not supported") {
        UpFailure::ModuleNotLoaded
    } else if contains_str(output, "already exists") {
        UpFailure::InterfaceExists
    } else {
        UpFailure::Other
    }
}

/// How a connect or disconnect fails.  Classified failures carry a specific
/// meaning; unclassified ones carry the raw combined output verbatim.
#[derive(Debug, PartialEq)]
pub enum ConnectError {
    /// No profile file exists for the requested code.
    MissingProfile,
    /// Tearing down the previously active tunnel failed; its output.
    DisconnectFailed(String),
    /// The kernel module is not loaded.
    ModuleNotLoaded,
    /// The interface already exists; disconnect first.
    InterfaceExists,
    /// The single bounded retry after a resolver refresh failed; the retry's
    /// own output.
    RetryFailed(String),
    /// Unclassified tunnel-up failure; the raw combined output.
    TunnelUpFailed(String),
    /// Tunnel-down failure during disconnect; the raw output.
    TunnelDownFailed(String),
}

/// The mathematical value of an error.
pub enum ConnectErrorV {
    MissingProfileV,
    DisconnectFailedV(Seq<char>),
    ModuleNotLoadedV,
    InterfaceExistsV,
    RetryFailedV(Seq<char>),
    TunnelUpFailedV(Seq<char>),
    TunnelDownFailedV(Seq<char>),
}

impl View for ConnectError {
    type V = ConnectErrorV;

    open spec fn view(&self) -> ConnectErrorV {
        match self {
            ConnectError::MissingProfile => ConnectErrorV::MissingProfileV,
            ConnectError::DisconnectFailed(o) => ConnectErrorV::DisconnectFailedV(o@),
            ConnectError::ModuleNotLoaded => ConnectErrorV::ModuleNotLoadedV,
            ConnectError::InterfaceExists => ConnectErrorV::InterfaceExistsV,
            ConnectError::RetryFailed(o) => ConnectErrorV::RetryFailedV(o@),
            ConnectError::TunnelUpFailed(o) => ConnectErrorV::TunnelUpFailedV(o@),
            ConnectError::TunnelDownFailed(o) => ConnectErrorV::TunnelDownFailedV(o@),
        }
    }
}

/// One unit of outside work the caller must perform.  Tunnel up and down are
/// correctness-critical: their outcomes are surfaced.  The rest are
/// best-effort hardening: the caller runs them and passes whatever happened
/// back; the machines never fail on them.
#[derive(Debug, PartialEq)]
pub enum TunnelAction {
    TunnelUp(String),
    TunnelDown(String),
    ResolverRefresh,
    FirewallApply(String),
    FirewallRemove(String),
    FlushDns,
}

/// The mathematical value of an action.
pub enum TunnelActionV {
    TunnelUpV(Seq<char>),
    TunnelDownV(Seq<char>),
    ResolverRefreshV,
    FirewallApplyV(Seq<char>),
    FirewallRemoveV(Seq<char>),
    FlushDnsV,
}

impl View for TunnelAction {
    type V = TunnelActionV;

    open spec fn view(&self) -> TunnelActionV {
        match self {
            TunnelAction::TunnelUp(c) => TunnelActionV::TunnelUpV(c@),
            TunnelAction::TunnelDown(c) => TunnelActionV::TunnelDownV(c@),
            TunnelAction::ResolverRefresh => TunnelActionV::ResolverRefreshV,
            TunnelAction::FirewallApply(c) => TunnelActionV::FirewallApplyV(c@),
            TunnelAction::FirewallRemove(c) => TunnelActionV::FirewallRemoveV(c@),
            TunnelAction::FlushDns => TunnelActionV::FlushDnsV,
        }
    }
}

/// What a machine asks for next: run an action, report success, or report a
/// failure.
#[derive(Debug, PartialEq)]
pub enum FlowStep {
    Run(TunnelAction),
    Done,
    Fail(ConnectError),
}

/// The mathematical value of a step.
pub enum FlowStepV {
    RunV(TunnelActionV),
    DoneV,
    FailV(ConnectErrorV),
}

impl View for FlowStep {
    type V = FlowStepV;

    open spec fn view(&self) -> FlowStepV {
        match self {
            FlowStep::Run(a) => FlowStepV::RunV(a@),
            FlowStep::Done => FlowStepV::DoneV,
            FlowStep::Fail(e) => FlowStepV::FailV(e@),
        }
    }
}

/// Where a connect stands.  Before any tunnel-up the previously active
/// interface, if any, is fully torn down: rules removed, tunnel down, cache
/// flushed — never connect on top of an existing tunnel.
#[derive(Debug)]
pub enum ConnectPhase {
    RemovingOldRules(String),
    TearingDownOld(String),
    FlushingOld,
    BringingUp { retried: bool },
    Refreshing,
    ApplyingRules,
    Finished,
}

/// The mathematical value of a phase.
pub enum ConnectPhaseV {
    RemovingOldRulesV(Seq<char>),
    TearingDownOldV(Seq<char>),
    FlushingOldV,
    BringingUpV { retried: bool },
    RefreshingV,
    ApplyingRulesV,
    FinishedV,
}

impl View for ConnectPhase {
    type V = ConnectPhaseV;

    open spec fn view(&self) -> ConnectPhaseV {
        match self {
            ConnectPhase::RemovingOldRules(c) => ConnectPhaseV::RemovingOldRulesV(c@),
            ConnectPhase::TearingDownOld(c) => ConnectPhaseV::TearingDownOldV(c@),
            ConnectPhase::FlushingOld => ConnectPhaseV::FlushingOldV,
            ConnectPhase::BringingUp { retried } => ConnectPhaseV::BringingUpV {
                retried: *retried,
            },
            ConnectPhase::Refreshing => ConnectPhaseV::RefreshingV,
            ConnectPhase::ApplyingRules => ConnectPhaseV::ApplyingRulesV,
            ConnectPhase::Finished => ConnectPhaseV::FinishedV,
        }
    }
}

/// The connect machine.
pub struct ConnectFlow {
    pub code: String,
    pub profile_exists: bool,
    pub phase: ConnectPhase,
}

/// The mathematical value of a connect machine.
pub struct ConnectFlowV {
    pub code: Seq<char>,
    pub profile_exists: bool,
    pub phase: ConnectPhaseV,
}

impl View for ConnectFlow {
    type V = ConnectFlowV;

    open spec fn view(&self) -> ConnectFlowV {
        ConnectFlowV { code: self.code@, profile_exists: self.profile_exists, phase: self.phase@ }
    }
}

/// Where a connect starts, given the derived status and whether the profile
/// exists: tear down a live tunnel first; otherwise require the profile and
/// bring the tunnel up.
pub open spec fn connect_init(code: Seq<char>, status: Option<Seq<char>>, profile_exists: bool) -> (
    ConnectFlowV,
    FlowStepV,
) {
    match status {
        Option::Some(old_code) => (
            ConnectFlowV {
                code,
                profile_exists,
                phase: ConnectPhaseV::RemovingOldRulesV(old_code),
            },
            FlowStepV::RunV(TunnelActionV::FirewallRemoveV(old_code)),
        ),
        Option::None => {
            if profile_exists {
                (
                    ConnectFlowV {
                        code,
                        profile_exists,
                        phase: ConnectPhaseV::BringingUpV { retried: false },
                    },
                    FlowStepV::RunV(TunnelActionV::TunnelUpV(code)),
                )
            } else {
                (
                    ConnectFlowV { code, profile_exists, phase: ConnectPhaseV::FinishedV },
                    FlowStepV::FailV(ConnectErrorV::MissingProfileV),
                )
            }
        },
    }
}

/// One step of the connect machine, given the outcome of the action it last
/// asked for.  Best-effort actions never fail the flow; tunnel outcomes
/// decide it, with exactly one resolver-refresh retry after a signature
/// mismatch on the first attempt.
pub open spec fn connect_step(v: ConnectFlowV, success: bool, output: Seq<char>) -> (
    ConnectFlowV,
    FlowStepV,
) {
    match v.phase {
        ConnectPhaseV::RemovingOldRulesV(old_code) => (
            ConnectFlowV { phase: ConnectPhaseV::TearingDownOldV(old_code), ..v },
            FlowStepV::RunV(TunnelActionV::TunnelDownV(old_code)),
        ),
        ConnectPhaseV::TearingDownOldV(old_code) => {
            if success {
                (
                    ConnectFlowV { phase: ConnectPhaseV::FlushingOldV, ..v },
                    FlowStepV::RunV(TunnelActionV::FlushDnsV),
                )
            } else {
                (
                    ConnectFlowV { phase: ConnectPhaseV::FinishedV, ..v },
                    FlowStepV::FailV(ConnectErrorV::DisconnectFailedV(output)),
                )
            }
        },
        ConnectPhaseV::FlushingOldV => {
            if v.profile_exists {
                (
                    ConnectFlowV { phase: ConnectPhaseV::BringingUpV { retried: false }, ..v },
                    FlowStepV::RunV(TunnelActionV::TunnelUpV(v.code)),
                )
            } else {
                (
                    ConnectFlowV { phase: ConnectPhaseV::FinishedV, ..v },
                    FlowStepV::FailV(ConnectErrorV::MissingProfileV),
                )
            }
        },
        ConnectPhaseV::BringingUpV { retried } => {
            if success {
                (
                    ConnectFlowV { phase: ConnectPhaseV::ApplyingRulesV, ..v },
                    FlowStepV::RunV(TunnelActionV::FirewallApplyV(v.code)),
                )
            } else if retried {
                (
                    ConnectFlowV { phase: ConnectPhaseV::FinishedV, ..v },
                    FlowStepV::FailV(ConnectErrorV::RetryFailedV(output)),
                )
            } else if classify_spec(output) is SignatureMismatch {
                (
                    ConnectFlowV { phase: ConnectPhaseV::RefreshingV, ..v },
                    FlowStepV::RunV(TunnelActionV::ResolverRefreshV),
                )
            } else if classify_spec(output) is ModuleNotLoaded {
                (
                    ConnectFlowV { phase: ConnectPhaseV::FinishedV, ..v },
                    FlowStepV::FailV(ConnectErrorV::ModuleNotLoadedV),
                )
            } else if classify_spec(output) is InterfaceExists {
                (
                    ConnectFlowV { phase: ConnectPhaseV::FinishedV, ..v },
                    FlowStepV::FailV(ConnectErrorV::InterfaceExistsV),
                )
            } else {
                (
                    ConnectFlowV { phase: ConnectPhaseV::FinishedV, ..v },
                    FlowStepV::FailV(ConnectErrorV::TunnelUpFailedV(output)),
                )
            }
        },
        ConnectPhaseV::RefreshingV => (
            ConnectFlowV { phase: ConnectPhaseV::BringingUpV { retried: true }, ..v },
            FlowStepV::RunV(TunnelActionV::TunnelUpV(v.code)),
        ),
        ConnectPhaseV::ApplyingRulesV => (
            ConnectFlowV { phase: ConnectPhaseV::FinishedV, ..v },
            FlowStepV::DoneV,
        ),
        ConnectPhaseV::FinishedV => (v, FlowStepV::DoneV),
    }
}

impl ConnectFlow {
    /// Starts a connect toward `code`.
    pub fn new(code: &str, status: &ConnectionStatus, profile_exists: bool) -> (r: (
        ConnectFlow,
        FlowStep,
    ))
        ensures
            (r.0@, r.1@) == connect_init(code@, status@, profile_exists),
    {
        match status {
            ConnectionStatus::Connected(old_code) => (
                ConnectFlow {
                    code: code.to_owned(),
                    profile_exists,
                    phase: ConnectPhase::RemovingOldRules(old_code.clone()),
                },
                FlowStep::Run(TunnelAction::FirewallRemove(old_code.clone())),
            ),
            ConnectionStatus::Disconnected => {
                if profile_exists {
                    (
                        ConnectFlow {
                            code: code.to_owned(),
                            profile_exists,
                            phase: ConnectPhase::BringingUp { retried: false },
                        },
                        FlowStep::Run(TunnelAction::TunnelUp(code.to_owned())),
                    )
                } else {
                    (
                        ConnectFlow {
                            code: code.to_owned(),
                            profile_exists,
                            phase: ConnectPhase::Finished,
                        },
                        FlowStep::Fail(ConnectError::MissingProfile),
                    )
                }
            },
        }
    }

    pub fn is_finished(&self) -> (r: bool)
        ensures
            r == (self@.phase is FinishedV),
    {
        match self.phase {
            ConnectPhase::Finished => true,
            _ => false,
        }
    }

    /// Advances the machine with the outcome of the action it last asked
    /// for.
    pub fn on_result(&mut self, success: bool, output: &str) -> (step: FlowStep)
        requires
            !(old(self)@.phase is FinishedV),
        ensures
            (final(self)@, step@) == connect_step(old(self)@, success, output@),
    {
        match &self.phase {
            ConnectPhase::RemovingOldRules(old_code) => {
                let oc = old_code.clone();
                self.phase = ConnectPhase::TearingDownOld(oc.clone());
                FlowStep::Run(TunnelAction::TunnelDown(oc))
            },
            ConnectPhase::TearingDownOld(_) => {
                if success {
                    self.phase = ConnectPhase::FlushingOld;
                    FlowStep::Run(TunnelAction::FlushDns)
                } else {
                    self.phase = ConnectPhase::Finished;
                    FlowStep::Fail(ConnectError::DisconnectFailed(output.to_owned()))
                }
            },
            ConnectPhase::FlushingOld => {
                if self.profile_exists {
                    self.phase = ConnectPhase::BringingUp { retried: false };
                    FlowStep::Run(TunnelAction::TunnelUp(self.code.clone()))
                } else {
                    self.phase = ConnectPhase::Finished;
                    FlowStep::Fail(ConnectError::MissingProfile)
                }
            },
            ConnectPhase::BringingUp { retried } => {
                let retried = *retried;
                if success {
                    self.phase = ConnectPhase::ApplyingRules;
                    FlowStep::Run(TunnelAction::FirewallApply(self.code.clone()))
                } else if retried {
                    self.phase = ConnectPhase::Finished;
                    FlowStep::Fail(ConnectError::RetryFailed(output.to_owned()))
                } else {
                    match classify_up_failure(output) {
                        UpFailure::SignatureMismatch => {
                            self.phase = ConnectPhase::Refreshing;
                            FlowStep::Run(TunnelAction::ResolverRefresh)
                        },
                        UpFailure::ModuleNotLoaded => {
                            self.phase = ConnectPhase::Finished;
                            FlowStep::Fail(ConnectError::ModuleNotLoaded)
                        },
                        UpFailure::InterfaceExists => {
                            self.phase = ConnectPhase::Finished;
                            FlowStep::Fail(ConnectError::InterfaceExists)
                        },
                        UpFailure::Other => {
                            self.phase = ConnectPhase::Finished;
                            FlowStep::Fail(ConnectError::TunnelUpFailed(output.to_owned()))
                        },
                    }
                }
            },
            ConnectPhase::Refreshing => {
                self.phase = ConnectPhase::BringingUp { retried: true };
                FlowStep::Run(TunnelAction::TunnelUp(self.code.clone()))
            },
            ConnectPhase::ApplyingRules => {
                self.phase = ConnectPhase::Finished;
                FlowStep::Done
            },
            ConnectPhase::Finished => FlowStep::Done,
        }
    }
}

/// How one performed action changes the set of active tunnel interfaces: a
/// successful tunnel-up adds its interface, a successful tunnel-down removes
/// it, and everything else — resolver, firewall and cache work, or a failed
/// up or down — leaves the set alone.
pub open spec fn tunnel_effect(active: Set<Seq<char>>, a: TunnelActionV, success: bool) -> Set<
    Seq<char>,
> {
    match a {
        TunnelActionV::TunnelUpV(c) => if success {
            active.insert(c)
        } else {
            active
        },
        TunnelActionV::TunnelDownV(c) => if success {
            active.remove(c)
        } else {
            active
        },
        _ => active,
    }
}

/// The action a phase has pending: the one the machine asked for when it
/// entered the phase.  A finished machine has none pending; a cache flush
/// stands in as a harmless placeholder there.
pub open spec fn phase_action(v: ConnectFlowV) -> TunnelActionV {
    match v.phase {
        ConnectPhaseV::RemovingOldRulesV(c) => TunnelActionV::FirewallRemoveV(c),
        ConnectPhaseV::TearingDownOldV(c) => TunnelActionV::TunnelDownV(c),
        ConnectPhaseV::FlushingOldV => TunnelActionV::FlushDnsV,
        ConnectPhaseV::BringingUpV { retried } => TunnelActionV::TunnelUpV(v.code),
        ConnectPhaseV::RefreshingV => TunnelActionV::ResolverRefreshV,
        ConnectPhaseV::ApplyingRulesV => TunnelActionV::FirewallApplyV(v.code),
        ConnectPhaseV::FinishedV => TunnelActionV::FlushDnsV,
    }
}

/// The coupling between a connect machine and the set of active tunnel
/// interfaces: before any tunnel-up the set is empty, and in every phase it
/// holds at most one interface.
pub open spec fn connect_inv(v: ConnectFlowV, active: Set<Seq<char>>) -> bool {
    &&& active.finite()
    &&& match v.phase {
        ConnectPhaseV::RemovingOldRulesV(c) => active == Set::<Seq<char>>::empty().insert(c),
        ConnectPhaseV::TearingDownOldV(c) => active == Set::<Seq<char>>::empty().insert(c),
        ConnectPhaseV::FlushingOldV => active == Set::<Seq<char>>::empty(),
        ConnectPhaseV::BringingUpV { retried } => active == Set::<Seq<char>>::empty(),
        ConnectPhaseV::RefreshingV => active == Set::<Seq<char>>::empty(),
        ConnectPhaseV::ApplyingRulesV => active == Set::<Seq<char>>::empty().insert(v.code),
        ConnectPhaseV::FinishedV => active.len() <= 1,
    }
}

/// Law (mutual exclusion, establishment): when the derived status truly
/// reflects the active set — `Connected(c)` exactly when `c` alone is up,
/// `Disconnected` exactly when nothing is — starting a connect establishes
/// the coupling.
pub proof fn lemma_connect_init_inv(
    code: Seq<char>,
    status: Option<Seq<char>>,
    profile_exists: bool,
    active: Set<Seq<char>>,
)
    requires
        active.finite(),
        match status {
            Option::Some(c) => active == Set::<Seq<char>>::empty().insert(c),
            Option::None => active == Set::<Seq<char>>::empty(),
        },
    ensures
        connect_inv(connect_init(code, status, profile_exists).0, active),
{
    broadcast use vstd::set::group_set_axioms;

}

/// Law (mutual exclusion, preservation): each step of the connect machine,
/// with its pending action performed under the model semantics, preserves
/// the coupling.  In particular the machine only ever asks for a tunnel-up
/// while no tunnel is active: it never stacks a second tunnel.
pub proof fn lemma_connect_step_inv(
    v: ConnectFlowV,
    active: Set<Seq<char>>,
    success: bool,
    output: Seq<char>,
)
    requires
        connect_inv(v, active),
        !(v.phase is FinishedV),
    ensures
        connect_inv(connect_step(v, success, output).0, tunnel_effect(active, phase_action(v), success)),
{
    broadcast use vstd::set::group_set_axioms;

    let next = tunnel_effect(active, phase_action(v), success);
    match v.phase {
        ConnectPhaseV::TearingDownOldV(c) => {
            if success {
                assert(next =~= Set::<Seq<char>>::empty());
            }
        },
        ConnectPhaseV::BringingUpV { retried } => {
            if success {
                assert(next =~= Set::<Seq<char>>::empty().insert(v.code));
            }
        },
        _ => {},
    }
}

/// Law (mutual exclusion): under the coupling at most one tunnel interface
/// is active, whatever sequence of connects and disconnects ran — the derived
/// status can never report two interfaces up.
pub proof fn lemma_single_tunnel(v: ConnectFlowV, active: Set<Seq<char>>)
    requires
        connect_inv(v, active),
    ensures
        active.len() <= 1,
{
    broadcast use vstd::set::group_set_axioms;

    match v.phase {
        ConnectPhaseV::RemovingOldRulesV(c) => {
            assert(active.len() == 1);
        },
        ConnectPhaseV::TearingDownOldV(c) => {
            assert(active.len() == 1);
        },
        ConnectPhaseV::ApplyingRulesV => {
            assert(active.len() == 1);
        },
        _ => {},
    }
}

/// The machine a (partial) run ends in, given the outcomes in order.
pub open spec fn run_flow(v: ConnectFlowV, results: Seq<(bool, Seq<char>)>) -> ConnectFlowV
    decreases results.len(),
{
    if results.len() == 0 || v.phase is FinishedV {
        v
    } else {
        run_flow(connect_step(v, results[0].0, results[0].1).0, results.drop_first())
    }
}

/// The set of active interfaces such a run ends with, under the model
/// semantics.
pub open spec fn run_active(
    v: ConnectFlowV,
    active: Set<Seq<char>>,
    results: Seq<(bool, Seq<char>)>,
) -> Set<Seq<char>>
    decreases results.len(),
{
    if results.len() == 0 || v.phase is FinishedV {
        active
    } else {
        run_active(
            connect_step(v, results[0].0, results[0].1).0,
            tunnel_effect(active, phase_action(v), results[0].0),
            results.drop_first(),
        )
    }
}

/// Law (mutual exclusion, whole runs): the coupling survives any run, so at
/// its end — and, since every prefix is itself a run, at every point along
/// it — at most one tunnel interface is active.
pub proof fn lemma_connect_run_single(
    v: ConnectFlowV,
    active: Set<Seq<char>>,
    results: Seq<(bool, Seq<char>)>,
)
    requires
        connect_inv(v, active),
    ensures
        connect_inv(run_flow(v, results), run_active(v, active, results)),
        run_active(v, active, results).len() <= 1,
    decreases results.len(),
{
    if results.len() == 0 || v.phase is FinishedV {
        lemma_single_tunnel(v, active);
    } else {
        lemma_connect_step_inv(v, active, results[0].0, results[0].1);
        lemma_connect_run_single(
            connect_step(v, results[0].0, results[0].1).0,
            tunnel_effect(active, phase_action(v), results[0].0),
            results.drop_first(),
        );
    }
}

/// Tunnel-up attempts one step emits.
pub open spec fn emits_up(s: FlowStepV) -> nat {
    match s {
        FlowStepV::RunV(TunnelActionV::TunnelUpV(_)) => 1,
        _ => 0,
    }
}

/// Resolver refreshes one step emits.
pub open spec fn emits_refresh(s: FlowStepV) -> nat {
    match s {
        FlowStepV::RunV(TunnelActionV::ResolverRefreshV) => 1,
        _ => 0,
    }
}

/// How many tunnel-up attempts the machine can still emit from a phase.
pub open spec fn ups_budget(p: ConnectPhaseV) -> nat {
    match p {
        ConnectPhaseV::RemovingOldRulesV(_) => 2,
        ConnectPhaseV::TearingDownOldV(_) => 2,
        ConnectPhaseV::FlushingOldV => 2,
        ConnectPhaseV::BringingUpV { retried } => if retried {
            0
        } else {
            1
        },
        ConnectPhaseV::RefreshingV => 1,
        ConnectPhaseV::ApplyingRulesV => 0,
        ConnectPhaseV::FinishedV => 0,
    }
}

/// How many resolver refreshes the machine can still emit from a phase.
pub open spec fn refresh_budget(p: ConnectPhaseV) -> nat {
    match p {
        ConnectPhaseV::RemovingOldRulesV(_) => 1,
        ConnectPhaseV::TearingDownOldV(_) => 1,
        ConnectPhaseV::FlushingOldV => 1,
        ConnectPhaseV::BringingUpV { retried } => if retried {
            0
        } else {
            1
        },
        ConnectPhaseV::RefreshingV => 0,
        ConnectPhaseV::ApplyingRulesV => 0,
        ConnectPhaseV::FinishedV => 0,
    }
}

proof fn lemma_step_budget(v: ConnectFlowV, success: bool, output: Seq<char>)
    requires
        !(v.phase is FinishedV),
    ensures
        emits_up(connect_step(v, success, output).1) + ups_budget(
            connect_step(v, success, output).0.phase,
        ) <= ups_budget(v.phase),
        emits_refresh(connect_step(v, success, output).1) + refresh_budget(
            connect_step(v, success, output).0.phase,
        ) <= refresh_budget(v.phase),
{
}

/// The tunnel-up attempts a (partial) run of the machine emits, given the
/// outcomes the driver hands back in order.
pub open spec fn run_ups(v: ConnectFlowV, results: Seq<(bool, Seq<char>)>) -> nat
    decreases results.len(),
{
    if results.len() == 0 || v.phase is FinishedV {
        0
    } else {
        let r = connect_step(v, results[0].0, results[0].1);
        emits_up(r.1) + run_ups(r.0, results.drop_first())
    }
}

/// The resolver refreshes such a run emits.
pub open spec fn run_refreshes(v: ConnectFlowV, results: Seq<(bool, Seq<char>)>) -> nat
    decreases results.len(),
{
    if results.len() == 0 || v.phase is FinishedV {
        0
    } else {
        let r = connect_step(v, results[0].0, results[0].1);
        emits_refresh(r.1) + run_refreshes(r.0, results.drop_first())
    }
}

proof fn lemma_run_budget(v: ConnectFlowV, results: Seq<(bool, Seq<char>)>)
    ensures
        run_ups(v, results) <= ups_budget(v.phase),
        run_refreshes(v, results) <= refresh_budget(v.phase),
    decreases results.len(),
{
    if results.len() > 0 && !(v.phase is FinishedV) {
        lemma_step_budget(v, results[0].0, results[0].1);
        lemma_run_budget(connect_step(v, results[0].0, results[0].1).0, results.drop_first());
    }
}

/// Law (retry bound): however the outcomes fall, one connect issues at most
/// two tunnel-up attempts — the initial one and at most one retry — and at
/// most one corrective resolver refresh.
pub proof fn lemma_connect_retry_bound(
    code: Seq<char>,
    status: Option<Seq<char>>,
    profile_exists: bool,
    results: Seq<(bool, Seq<char>)>,
)
    ensures
        ({
            let (v0, step0) = connect_init(code, status, profile_exists);
            emits_up(step0) + run_ups(v0, results) <= 2 && emits_refresh(step0) + run_refreshes(
                v0,
                results,
            ) <= 1
        }),
{
    let (v0, step0) = connect_init(code, status, profile_exists);
    lemma_run_budget(v0, results);
}

/// Law (retry boundary): after a first tunnel-up failure whose output
/// carries the resolver signature mismatch, the machine asks for exactly one
/// corrective refresh, then exactly one retry, and the retry's outcome is
/// final: success goes on to apply the firewall rules, failure reports the
/// retry's own output.
pub proof fn lemma_retry_boundary(
    v: ConnectFlowV,
    out1: Seq<char>,
    s2: bool,
    o2: Seq<char>,
    s3: bool,
    out3: Seq<char>,
)
    requires
        v.phase == (ConnectPhaseV::BringingUpV { retried: false }),
        classify_spec(out1) is SignatureMismatch,
    ensures
        ({
            let (v1, step1) = connect_step(v, false, out1);
            let (v2, step2) = connect_step(v1, s2, o2);
            let (v3, step3) = connect_step(v2, s3, out3);
            &&& step1 == FlowStepV::RunV(TunnelActionV::ResolverRefreshV)
            &&& v1.phase is RefreshingV
            &&& step2 == FlowStepV::RunV(TunnelActionV::TunnelUpV(v.code))
            &&& v2.phase == (ConnectPhaseV::BringingUpV { retried: true })
            &&& (s3 ==> step3 == FlowStepV::RunV(TunnelActionV::FirewallApplyV(v.code)))
            &&& (!s3 ==> step3 == FlowStepV::FailV(ConnectErrorV::RetryFailedV(out3)) && v3.phase
                is FinishedV)
        }),
{
}

/// Where a disconnect stands: rules off first (so the host is never briefly
/// unprotected while the interface still exists), then tunnel down, then a
/// cache flush.
#[derive(Debug, Clone, Copy, PartialEq, Eq, Structural)]
pub enum DiscPhase {
    RemovingRules,
    TearingDown,
    Flushing,
    Finished,
}

/// The disconnect machine.
pub struct DisconnectFlow {
    pub code: String,
    pub phase: DiscPhase,
}

/// The mathematical value of a disconnect machine.
pub struct DisconnectFlowV {
    pub code: Seq<char>,
    pub phase: DiscPhase,
}

impl View for DisconnectFlow {
    type V = DisconnectFlowV;

    open spec fn view(&self) -> DisconnectFlowV {
        DisconnectFlowV { code: self.code@, phase: self.phase }
    }
}

/// Where a disconnect starts: removing the leak-prevention rules.
pub open spec fn disconnect_init(code: Seq<char>) -> (DisconnectFlowV, FlowStepV) {
    (
        DisconnectFlowV { code, phase: DiscPhase::RemovingRules },
        FlowStepV::RunV(TunnelActionV::FirewallRemoveV(code)),
    )
}

/// One step of the disconnect machine: rule removal and the final flush are
/// best-effort, the tunnel-down outcome is surfaced verbatim.
pub open spec fn disconnect_step(v: DisconnectFlowV, success: bool, output: Seq<char>) -> (
    DisconnectFlowV,
    FlowStepV,
) {
    match v.phase {
        DiscPhase::RemovingRules => (
            DisconnectFlowV { phase: DiscPhase::TearingDown, ..v },
            FlowStepV::RunV(TunnelActionV::TunnelDownV(v.code)),
        ),
        DiscPhase::TearingDown => {
            if success {
                (
                    DisconnectFlowV { phase: DiscPhase::Flushing, ..v },
                    FlowStepV::RunV(TunnelActionV::FlushDnsV),
                )
            } else {
                (
                    DisconnectFlowV { phase: DiscPhase::Finished, ..v },
                    FlowStepV::FailV(ConnectErrorV::TunnelDownFailedV(output)),
                )
            }
        },
        DiscPhase::Flushing => (
            DisconnectFlowV { phase: DiscPhase::Finished, ..v },
            FlowStepV::DoneV,
        ),
        DiscPhase::Finished => (v, FlowStepV::DoneV),
    }
}

/// The action a disconnect phase has pending.
pub open spec fn disc_phase_action(v: DisconnectFlowV) -> TunnelActionV {
    match v.phase {
        DiscPhase::RemovingRules => TunnelActionV::FirewallRemoveV(v.code),
        DiscPhase::TearingDown => TunnelActionV::TunnelDownV(v.code),
        DiscPhase::Flushing => TunnelActionV::FlushDnsV,
        DiscPhase::Finished => TunnelActionV::FlushDnsV,
    }
}

/// The coupling between a disconnect machine and the set of active tunnel
/// interfaces: the tunnel it tears down is the only one up, and nothing is
/// up once the teardown succeeded.
pub open spec fn disconnect_inv(v: DisconnectFlowV, active: Set<Seq<char>>) -> bool {
    &&& active.finite()
    &&& match v.phase {
        DiscPhase::RemovingRules => active == Set::<Seq<char>>::empty().insert(v.code),
        DiscPhase::TearingDown => active == Set::<Seq<char>>::empty().insert(v.code),
        DiscPhase::Flushing => active == Set::<Seq<char>>::empty(),
        DiscPhase::Finished => active.len() <= 1,
    }
}

/// Law (mutual exclusion, establishment): a disconnect started on the one
/// active tunnel establishes the coupling.
pub proof fn lemma_disconnect_init_inv(code: Seq<char>, active: Set<Seq<char>>)
    requires
        active.finite(),
        active == Set::<Seq<char>>::empty().insert(code),
    ensures
        disconnect_inv(disconnect_init(code).0, active),
{
}

/// Law (mutual exclusion, preservation): each disconnect step, with its
/// pending action performed under the model semantics, preserves the
/// coupling — so a disconnect never leaves a second interface behind.
pub proof fn lemma_disconnect_step_inv(
    v: DisconnectFlowV,
    active: Set<Seq<char>>,
    success: bool,
    output: Seq<char>,
)
    requires
        disconnect_inv(v, active),
        v.phase != DiscPhase::Finished,
    ensures
        disconnect_inv(
            disconnect_step(v, success, output).0,
            tunnel_effect(active, disc_phase_action(v), success),
        ),
{
    broadcast use vstd::set::group_set_axioms;

    let next = tunnel_effect(active, disc_phase_action(v), success);
    match v.phase {
        DiscPhase::TearingDown => {
            if success {
                assert(next =~= Set::<Seq<char>>::empty());
            }
        },
        _ => {},
    }
}

impl DisconnectFlow {
    /// Starts a disconnect of `code`.
    pub fn new(code: &str) -> (r: (DisconnectFlow, FlowStep))
        ensures
            (r.0@, r.1@) == disconnect_init(code@),
    {
        (
            DisconnectFlow { code: code.to_owned(), phase: DiscPhase::RemovingRules },
            FlowStep::Run(TunnelAction::FirewallRemove(code.to_owned())),
        )
    }

    pub fn is_finished(&self) -> (r: bool)
        ensures
            r == (self@.phase is Finished),
    {
        self.phase == DiscPhase::Finished
    }

    /// Advances the machine with the outcome of the action it last asked
    /// for.
    pub fn on_result(&mut self, success: bool, output: &str) -> (step: FlowStep)
        requires
            old(self)@.phase != DiscPhase::Finished,
        ensures
            (final(self)@, step@) == disconnect_step(old(self)@, success, output@),
    {
        match self.phase {
            DiscPhase::RemovingRules => {
                self.phase = DiscPhase::TearingDown;
                FlowStep::Run(TunnelAction::TunnelDown(self.code.clone()))
            },
            DiscPhase::TearingDown => {
                if success {
                    self.phase = DiscPhase::Flushing;
                    FlowStep::Run(TunnelAction::FlushDns)
                } else {
                    self.phase = DiscPhase::Finished;
                    FlowStep::Fail(ConnectError::TunnelDownFailed(output.to_owned()))
                }
            },
            DiscPhase::Flushing => {
                self.phase = DiscPhase::Finished;
                FlowStep::Done
            },
            DiscPhase::Finished => FlowStep::Done,
        }
    }
}

} // verus!
