//! The autostart registry: at most one profile is enabled to activate at
//! boot.  Enabling a profile first disables any other enabled one
//! (best-effort), then enables the requested one (surfaced).  The
//! boot-service commands themselves are run by the caller; this module
//! derives the enabled profile from the service listing and sequences the
//! disable-then-enable transaction.
use vstd::prelude::*;
use vstd::set::Set;
use vstd::string::*;

use crate::text::{
    after_field, contains_seq, contains_str, eq_str, field_of, match_at, matches_at, split_lines,
    split_lines_spec, split_first_field, starts_with_str, views_of,
};

verus! {

/// The boot-service unit name for one profile code.
pub open spec fn unit_name_spec(code: Seq<char>) -> Seq<char> {
    "wg-quick@"@ + code
}

/// Renders the boot-service unit name the registry drives for `code`.
pub fn unit_name(code: &str) -> (r: String)
    ensures
        r@ == unit_name_spec(code@),
{
    String::from_str("wg-quick@").concat(code)
}

/// The profile code one listing line reports as enabled, if any: the second
/// field must read `enabled`, and the first must be a unit of the profile
/// naming convention; the code is what stands between the unit prefix and
/// the service suffix and must carry the profile-code marker.
pub open spec fn enabled_code_of_line(line: Seq<char>) -> Option<Seq<char>> {
    let f0 = field_of(line);
    let f1 = field_of(after_field(line));
    if f1 == "enabled"@ && match_at(f0, "wg-quick@"@, 0) {
        let service = f0.skip(9);
        if service.len() >= 8 && match_at(service, ".service"@, service.len() - 8) {
            let code = service.take(service.len() - 8);
            if contains_seq(code, "-wg-"@) {
                Option::Some(code)
            } else {
                Option::None
            }
        } else {
            Option::None
        }
    } else {
        Option::None
    }
}

/// The first enabled profile among the listing's lines.
pub open spec fn first_enabled(ls: Seq<Seq<char>>) -> Option<Seq<char>>
    decreases ls.len(),
{
    if ls.len() == 0 {
        Option::None
    } else if enabled_code_of_line(ls[0]) is Some {
        enabled_code_of_line(ls[0])
    } else {
        first_enabled(ls.drop_first())
    }
}

/// Derives the enabled profile, if any, from the boot-service unit listing:
/// the first unit of the profile naming convention whose reported state is
/// `enabled`.
pub fn get_enabled_server(listing: &str) -> (r: Option<String>)
    ensures
        match r {
            Some(c) => first_enabled(split_lines_spec(listing@)) == Some(c@),
            None => first_enabled(split_lines_spec(listing@)) is None,
        },
{
    let lines = split_lines(listing);
    let ghost lvs = split_lines_spec(listing@);
    let mut i: usize = 0;
    proof {
        assert(lvs.skip(0) =~= lvs);
    }
    while i < lines.len()
        invariant
            i <= lines@.len(),
            lvs == split_lines_spec(listing@),
            views_of(lines@) == lvs,
            first_enabled(lvs) == first_enabled(lvs.skip(i as int)),
        decreases lines@.len() - i,
    {
        let ghost lv = lvs[i as int];
        proof {
            assert(lines@[i as int]@ == lv);
            assert(lvs.skip(i as int)[0] == lv);
            assert(lvs.skip(i as int).drop_first() =~= lvs.skip(i as int + 1));
            reveal_strlit("wg-quick@");
            reveal_strlit(".service");
        }
        let line = lines[i].as_str();
        let (f0, rest) = split_first_field(line);
        let (f1, _tail) = split_first_field(rest);
        if eq_str(f1, "enabled") && starts_with_str(f0, "wg-quick@") {
            let f0n = f0.unicode_len();
            let service = f0.substring_char(9, f0n);
            proof {
                assert(service@ =~= field_of(lv).skip(9));
            }
            let sn = service.unicode_len();
            if sn >= 8 && matches_at(service, ".service", sn - 8) {
                let code = service.substring_char(0, sn - 8);
                proof {
                    assert(code@ =~= field_of(lv).skip(9).take(field_of(lv).skip(9).len() - 8));
                }
                if contains_str(code, "-wg-") {
                    proof {
                        assert(enabled_code_of_line(lv) == Some(code@));
                    }
                    return Some(code.to_owned());
                }
            }
        }
        proof {
            assert(enabled_code_of_line(lv) is None);
        }
        i = i + 1;
    }
    proof {
        assert(lvs.skip(i as int).len() == 0);
    }
    None
}

/// Where an enable transaction stands.
#[derive(Debug)]
pub enum AsPhase {
    DisablingOld(String),
    Enabling,
    Finished,
}

/// The mathematical value of a phase.
pub enum AsPhaseV {
    DisablingOldV(Seq<char>),
    EnablingV,
    FinishedV,
}

impl View for AsPhase {
    type V = AsPhaseV;

    open spec fn view(&self) -> AsPhaseV {
        match self {
            AsPhase::DisablingOld(c) => AsPhaseV::DisablingOldV(c@),
            AsPhase::Enabling => AsPhaseV::EnablingV,
            AsPhase::Finished => AsPhaseV::FinishedV,
        }
    }
}

/// What the enable machine asks for next: disable a unit, enable a unit,
/// or stop with the transaction's outcome.
#[derive(Debug, PartialEq)]
pub enum AsStep {
    RunDisable(String),
    RunEnable(String),
    Succeeded,
    Failed(String),
}

/// The mathematical value of a step.
pub enum AsStepV {
    RunDisableV(Seq<char>),
    RunEnableV(Seq<char>),
    SucceededV,
    FailedV(Seq<char>),
}

impl View for AsStep {
    type V = AsStepV;

    open spec fn view(&self) -> AsStepV {
        match self {
            AsStep::RunDisable(c) => AsStepV::RunDisableV(c@),
            AsStep::RunEnable(c) => AsStepV::RunEnableV(c@),
            AsStep::Succeeded => AsStepV::SucceededV,
            AsStep::Failed(o) => AsStepV::FailedV(o@),
        }
    }
}

/// The enable machine.
pub struct AutostartFlow {
    pub code: String,
    pub phase: AsPhase,
}

/// The mathematical value of the machine.
pub struct AutostartFlowV {
    pub code: Seq<char>,
    pub phase: AsPhaseV,
}

impl View for AutostartFlow {
    type V = AutostartFlowV;

    open spec fn view(&self) -> AutostartFlowV {
        AutostartFlowV { code: self.code@, phase: self.phase@ }
    }
}

/// Where an enable starts: if a different profile is currently enabled it is
/// disabled first; otherwise the requested profile is enabled directly.
pub open spec fn enable_init(code: Seq<char>, current: Option<Seq<char>>) -> (
    AutostartFlowV,
    AsStepV,
) {
    if current is Some && current.unwrap() != code {
        (
            AutostartFlowV { code, phase: AsPhaseV::DisablingOldV(current.unwrap()) },
            AsStepV::RunDisableV(current.unwrap()),
        )
    } else {
        (AutostartFlowV { code, phase: AsPhaseV::EnablingV }, AsStepV::RunEnableV(code))
    }
}

/// One step of the enable machine: the disable of the previously enabled
/// profile is best-effort and its failure swallowed; the enable of the
/// requested profile is surfaced.
pub open spec fn enable_step(v: AutostartFlowV, success: bool, output: Seq<char>) -> (
    AutostartFlowV,
    AsStepV,
) {
    match v.phase {
        AsPhaseV::DisablingOldV(_) => (
            AutostartFlowV { phase: AsPhaseV::EnablingV, ..v },
            AsStepV::RunEnableV(v.code),
        ),
        AsPhaseV::EnablingV => {
            if success {
                (AutostartFlowV { phase: AsPhaseV::FinishedV, ..v }, AsStepV::SucceededV)
            } else {
                (AutostartFlowV { phase: AsPhaseV::FinishedV, ..v }, AsStepV::FailedV(output))
            }
        },
        AsPhaseV::FinishedV => (v, AsStepV::SucceededV),
    }
}

impl AutostartFlow {
    /// Starts enabling `code` for boot, given the currently enabled profile.
    pub fn new(code: &str, current: &Option<String>) -> (r: (AutostartFlow, AsStep))
        ensures
            (r.0@, r.1@) == enable_init(
                code@,
                match current {
                    Some(c) => Some(c@),
                    None => None,
                },
            ),
    {
        match current {
            Some(c) => {
                if !eq_str(c.as_str(), code) {
                    (
                        AutostartFlow {
                            code: code.to_owned(),
                            phase: AsPhase::DisablingOld(c.clone()),
                        },
                        AsStep::RunDisable(c.clone()),
                    )
                } else {
                    (
                        AutostartFlow { code: code.to_owned(), phase: AsPhase::Enabling },
                        AsStep::RunEnable(code.to_owned()),
                    )
                }
            },
            None => (
                AutostartFlow { code: code.to_owned(), phase: AsPhase::Enabling },
                AsStep::RunEnable(code.to_owned()),
            ),
        }
    }

    pub fn is_finished(&self) -> (r: bool)
        ensures
            r == (self@.phase is FinishedV),
    {
        match self.phase {
            AsPhase::Finished => true,
            _ => false,
        }
    }

    /// Advances the machine with the outcome of the command it last asked
    /// for.
    pub fn on_result(&mut self, success: bool, output: &str) -> (step: AsStep)
        requires
            !(old(self)@.phase is FinishedV),
        ensures
            (final(self)@, step@) == enable_step(old(self)@, success, output@),
    {
        match &self.phase {
            AsPhase::DisablingOld(_) => {
                self.phase = AsPhase::Enabling;
                AsStep::RunEnable(self.code.clone())
            },
            AsPhase::Enabling => {
                self.phase = AsPhase::Finished;
                if success {
                    AsStep::Succeeded
                } else {
                    AsStep::Failed(output.to_owned())
                }
            },
            AsPhase::Finished => AsStep::Succeeded,
        }
    }
}

/// How a registry command, once performed with the given outcome, changes
/// the set of boot-enabled profiles: a successful disable removes its unit,
/// a successful enable adds its unit, anything else leaves the set alone.
pub open spec fn registry_effect(s: Set<Seq<char>>, step: AsStepV, success: bool) -> Set<
    Seq<char>,
> {
    match step {
        AsStepV::RunDisableV(c) => if success {
            s.remove(c)
        } else {
            s
        },
        AsStepV::RunEnableV(c) => if success {
            s.insert(c)
        } else {
            s
        },
        _ => s,
    }
}

/// Law: enabling `b` while `a` was enabled, when both the disable of `a` and
/// the enable of `b` succeed, leaves exactly `b` enabled.
pub proof fn lemma_autostart_singleton(a: Seq<char>, b: Seq<char>, out: Seq<char>)
    requires
        a != b,
    ensures
        ({
            let s0 = Set::<Seq<char>>::empty().insert(a);
            let (v1, step1) = enable_init(b, Some(a));
            let s1 = registry_effect(s0, step1, true);
            let (v2, step2) = enable_step(v1, true, out);
            let s2 = registry_effect(s1, step2, true);
            s2 == Set::<Seq<char>>::empty().insert(b) && step2 == AsStepV::RunEnableV(b)
        }),
{
    let s0 = Set::<Seq<char>>::empty().insert(a);
    let (v1, step1) = enable_init(b, Some(a));
    let s1 = registry_effect(s0, step1, true);
    assert(s1 =~= Set::<Seq<char>>::empty());
    let (v2, step2) = enable_step(v1, true, out);
    let s2 = registry_effect(s1, step2, true);
    assert(s2 =~= Set::<Seq<char>>::empty().insert(b));
}

} // verus!
