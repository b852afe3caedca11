//! The run planner: the decisions of a whole run, taken on plain data.
//!
//! Given the project units, the policy files found for each of them, the
//! working location and the workspace flag, the planner resolves the scope,
//! merges each unit's policy, expands every regulation and translates every
//! execution unit, producing the ordered list of invocations to run — or
//! the first configuration error, in iteration order. Executing the
//! invocations (and every other effect) is the surrounding application's
//! business: it runs them one at a time and stops at the first failure.

use vstd::prelude::*;

use crate::error::Error;
use crate::error::ErrorView;
use crate::expand::all_violation;
use crate::expand::expansion_seq;
use crate::invocation::args_for;
use crate::invocation::build_target_flag;
use crate::merge::clone_customs_file;
use crate::merge::resolve_customs;
use crate::merge::resolved_view;
use crate::policy::CustomsFile;
use crate::policy::CustomsFileView;
use crate::policy::Regulation;
use crate::policy::RegulationCheck;
use crate::policy::RegulationCheckView;
use crate::policy::RegulationView;
use crate::scope::ProjectUnit;
use crate::scope::ProjectUnitView;
use crate::scope::has_matching_unit;
use crate::scope::member_indices;
use crate::scope::unit_matches;
use crate::scope::units_to_inspect;

verus! {

/// The policy files found on disk for one unit: the file of the unit's own
/// directory, if any, and the files of the directories between the
/// workspace root and the unit, in root-to-unit order.
#[derive(Debug)]
pub struct UnitPolicy {
    pub own: Option<CustomsFile>,
    pub ancestors: Vec<CustomsFile>,
}

/// Mathematical model of a [`UnitPolicy`].
pub ghost struct UnitPolicyView {
    pub own: Option<CustomsFileView>,
    pub ancestors: Seq<CustomsFileView>,
}

impl View for UnitPolicy {
    type V = UnitPolicyView;

    open spec fn view(&self) -> UnitPolicyView {
        UnitPolicyView {
            own: match self.own {
                Some(f) => Some(f@),
                None => None,
            },
            ancestors: self.ancestors.deep_view(),
        }
    }
}

impl DeepView for UnitPolicy {
    type V = UnitPolicyView;

    open spec fn deep_view(&self) -> UnitPolicyView {
        self@
    }
}

/// One planned call of the external build tool: its argument vector and
/// the directory to run it in.
#[derive(Debug)]
pub struct Invocation {
    pub unit_root: String,
    pub args: Vec<String>,
}

/// Mathematical model of an [`Invocation`].
pub ghost struct InvocationView {
    pub unit_root: Seq<char>,
    pub args: Seq<Seq<char>>,
}

impl View for Invocation {
    type V = InvocationView;

    open spec fn view(&self) -> InvocationView {
        InvocationView { unit_root: self.unit_root@, args: self.args.deep_view() }
    }
}

impl DeepView for Invocation {
    type V = InvocationView;

    open spec fn deep_view(&self) -> InvocationView {
        self@
    }
}

/// A whole run, planned: the invocations in execution order, and the roots
/// of the units skipped for want of a policy file, to be warned about.
#[derive(Debug)]
pub struct RunPlan {
    pub invocations: Vec<Invocation>,
    pub skipped: Vec<String>,
}

/// Mathematical model of a [`RunPlan`].
pub ghost struct RunPlanView {
    pub invocations: Seq<InvocationView>,
    pub skipped: Seq<Seq<char>>,
}

impl View for RunPlan {
    type V = RunPlanView;

    open spec fn view(&self) -> RunPlanView {
        RunPlanView {
            invocations: self.invocations.deep_view(),
            skipped: self.skipped.deep_view(),
        }
    }
}

/// The resolved policy of one unit, or nothing when the unit's own
/// directory holds no policy file.
pub open spec fn unit_resolved(pol: UnitPolicyView) -> Option<CustomsFileView> {
    match pol.own {
        None => None,
        Some(own) => Some(resolved_view(pol.ancestors.push(own))),
    }
}

/// The invocations of a sequence of execution units under one root, or the
/// first invalid build-target token, in order.
pub open spec fn checks_plan(root: Seq<char>, cs: Seq<RegulationCheckView>) -> Result<
    Seq<InvocationView>,
    ErrorView,
>
    decreases cs.len(),
{
    if cs.len() == 0 {
        Ok(Seq::empty())
    } else if build_target_flag(cs.first().build_target) is None {
        Err(ErrorView::InvalidBuildTarget(cs.first().build_target))
    } else {
        match checks_plan(root, cs.drop_first()) {
            Ok(rest) => Ok(
                seq![InvocationView { unit_root: root, args: args_for(cs.first()) }] + rest,
            ),
            Err(e) => Err(e),
        }
    }
}

/// The invocations of one regulation: the `all`-exclusivity violation, or
/// its expansion's invocations with the first invalid token reported.
pub open spec fn regulation_plan(root: Seq<char>, r: RegulationView) -> Result<
    Seq<InvocationView>,
    ErrorView,
> {
    if all_violation(r) {
        Err(ErrorView::BuildTargetsAllNotAlone)
    } else {
        checks_plan(root, expansion_seq(r))
    }
}

/// The invocations of a whole regulation list, in order, stopping at the
/// first failing regulation.
pub open spec fn regulations_plan(root: Seq<char>, regs: Seq<RegulationView>) -> Result<
    Seq<InvocationView>,
    ErrorView,
>
    decreases regs.len(),
{
    if regs.len() == 0 {
        Ok(Seq::empty())
    } else {
        match regulation_plan(root, regs.first()) {
            Err(e) => Err(e),
            Ok(head) => match regulations_plan(root, regs.drop_first()) {
                Ok(rest) => Ok(head + rest),
                Err(e) => Err(e),
            },
        }
    }
}

/// The view of a planning result whose payload is a vector of invocations.
pub open spec fn invocations_result_view(r: Result<Vec<Invocation>, Error>) -> Result<
    Seq<InvocationView>,
    ErrorView,
> {
    match r {
        Ok(v) => Ok(v.deep_view()),
        Err(e) => Err(e@),
    }
}

/// Translates every execution unit under one root, in order, into its
/// invocation, or reports the first invalid build-target token.
fn plan_checks(root: &String, checks: &Vec<RegulationCheck>) -> (r: Result<Vec<Invocation>, Error>)
    ensures
        invocations_result_view(r) == checks_plan(root@, checks.deep_view()),
{
    let ghost cs = checks.deep_view();
    let mut out: Vec<Invocation> = Vec::new();
    let mut i: usize = 0;
    proof {
        assert(cs.skip(0) =~= cs);
        match checks_plan(root@, cs) {
            Ok(rest) => {
                assert(Seq::<InvocationView>::empty() + rest =~= rest);
            },
            Err(_) => {},
        }
    }
    while i < checks.len()
        invariant
            i <= checks@.len(),
            cs == checks.deep_view(),
            cs.len() == checks@.len(),
            match checks_plan(root@, cs.skip(i as int)) {
                Ok(rest) => checks_plan(root@, cs) == Ok::<Seq<InvocationView>, ErrorView>(out.deep_view() + rest),
                Err(e) => checks_plan(root@, cs) == Err::<Seq<InvocationView>, ErrorView>(e),
            },
        decreases checks@.len() - i,
    {
        proof {
            assert(cs.skip(i as int).first() == cs[i as int]);
            assert(cs.skip(i as int).drop_first() =~= cs.skip(i as int + 1));
        }
        match checks[i].command_args() {
            Err(e) => {
                return Err(e);
            },
            Ok(args) => {
                let ghost prev = out.deep_view();
                out.push(Invocation { unit_root: root.clone(), args });
                proof {
                    let inv = InvocationView { unit_root: root@, args: args_for(cs[i as int]) };
                    assert(out.deep_view() =~= prev.push(inv));
                    match checks_plan(root@, cs.skip(i as int + 1)) {
                        Ok(rest) => {
                            assert(checks_plan(root@, cs.skip(i as int)) == Ok::<
                                Seq<InvocationView>,
                                ErrorView,
                            >(seq![inv] + rest));
                            assert(prev + (seq![inv] + rest) =~= prev.push(inv) + rest);
                        },
                        Err(_) => {},
                    }
                }
            },
        }
        i = i + 1;
    }
    proof {
        assert(cs.skip(cs.len() as int) =~= Seq::<RegulationCheckView>::empty());
        assert(out.deep_view() + Seq::<InvocationView>::empty() =~= out.deep_view());
    }
    Ok(out)
}

/// Plans one regulation: validates the `all` invariant, expands the
/// matrix, and translates every unit.
fn plan_regulation(root: &String, reg: &Regulation) -> (r: Result<Vec<Invocation>, Error>)
    ensures
        invocations_result_view(r) == regulation_plan(root@, reg@),
{
    match reg.expand() {
        Err(e) => Err(e),
        Ok(checks) => plan_checks(root, &checks),
    }
}

/// Plans a whole regulation list under one root, in order.
fn plan_regulations(root: &String, regs: &Vec<Regulation>) -> (r: Result<Vec<Invocation>, Error>)
    ensures
        invocations_result_view(r) == regulations_plan(root@, regs.deep_view()),
{
    let ghost rs = regs.deep_view();
    let mut out: Vec<Invocation> = Vec::new();
    let mut i: usize = 0;
    proof {
        assert(rs.skip(0) =~= rs);
        match regulations_plan(root@, rs) {
            Ok(rest) => {
                assert(Seq::<InvocationView>::empty() + rest =~= rest);
            },
            Err(_) => {},
        }
    }
    while i < regs.len()
        invariant
            i <= regs@.len(),
            rs == regs.deep_view(),
            rs.len() == regs@.len(),
            match regulations_plan(root@, rs.skip(i as int)) {
                Ok(rest) => regulations_plan(root@, rs) == Ok::<Seq<InvocationView>, ErrorView>(out.deep_view() + rest),
                Err(e) => regulations_plan(root@, rs) == Err::<Seq<InvocationView>, ErrorView>(e),
            },
        decreases regs@.len() - i,
    {
        proof {
            assert(rs.skip(i as int).first() == rs[i as int]);
            assert(rs.skip(i as int).drop_first() =~= rs.skip(i as int + 1));
        }
        match plan_regulation(root, &regs[i]) {
            Err(e) => {
                return Err(e);
            },
            Ok(mut head) => {
                let ghost prev = out.deep_view();
                let ghost head_v = head.deep_view();
                out.append(&mut head);
                proof {
                    assert(out.deep_view() =~= prev + head_v);
                    match regulations_plan(root@, rs.skip(i as int + 1)) {
                        Ok(rest) => {
                            assert(prev + (head_v + rest) =~= (prev + head_v) + rest);
                        },
                        Err(_) => {},
                    }
                }
            },
        }
        i = i + 1;
    }
    proof {
        assert(rs.skip(rs.len() as int) =~= Seq::<RegulationView>::empty());
        assert(out.deep_view() + Seq::<InvocationView>::empty() =~= out.deep_view());
    }
    Ok(out)
}

/// Resolves one unit's policy from the files found for it, or reports that
/// the unit's own directory holds none.
fn resolve_unit(pol: &UnitPolicy) -> (r: Option<CustomsFile>)
    ensures
        match r {
            Some(f) => unit_resolved(pol@) == Some(f@),
            None => pol@.own is None && unit_resolved(pol@) is None,
        },
{
    match &pol.own {
        None => None,
        Some(own) => {
            let mut files: Vec<CustomsFile> = Vec::new();
            let mut i: usize = 0;
            while i < pol.ancestors.len()
                invariant
                    i <= pol.ancestors@.len(),
                    files.deep_view() =~= pol.ancestors.deep_view().take(i as int),
                decreases pol.ancestors@.len() - i,
            {
                let ghost prev = files.deep_view();
                files.push(clone_customs_file(&pol.ancestors[i]));
                proof {
                    assert(files.deep_view() =~= prev.push(pol.ancestors@[i as int]@));
                    assert(prev.push(pol.ancestors@[i as int]@) =~= pol.ancestors.deep_view().take(
                        i as int + 1,
                    ));
                }
                i = i + 1;
            }
            let ghost before_own = files.deep_view();
            files.push(clone_customs_file(own));
            proof {
                assert(before_own =~= pol@.ancestors);
                assert(files.deep_view() =~= pol@.ancestors.push(own@));
            }
            Some(resolve_customs(&files))
        },
    }
}

/// The plan of a whole run over the in-scope units, in order: for each
/// unit, its policy resolved and every regulation planned; a unit without
/// a policy file fails a targeted run and is skipped with a warning
/// otherwise; an empty regulation list fails a targeted run; the first
/// configuration error, in iteration order, fails the whole plan.
pub open spec fn scope_plan(
    units: Seq<ProjectUnitView>,
    policies: Seq<UnitPolicyView>,
    scope: Seq<int>,
    targeted: bool,
) -> Result<RunPlanView, ErrorView>
    decreases scope.len(),
{
    if scope.len() == 0 {
        Ok(RunPlanView { invocations: Seq::empty(), skipped: Seq::empty() })
    } else {
        let i = scope.first();
        let root = units[i].root;
        match unit_resolved(policies[i]) {
            None => if targeted {
                Err(ErrorView::CustomsMissing)
            } else {
                match scope_plan(units, policies, scope.drop_first(), targeted) {
                    Ok(rest) => Ok(
                        RunPlanView {
                            invocations: rest.invocations,
                            skipped: seq![root] + rest.skipped,
                        },
                    ),
                    Err(e) => Err(e),
                }
            },
            Some(resolved) => if targeted && resolved.regulation.len() == 0 {
                Err(ErrorView::EmptyRegulations)
            } else {
                match regulations_plan(root, resolved.regulation) {
                    Err(e) => Err(e),
                    Ok(head) => match scope_plan(units, policies, scope.drop_first(), targeted) {
                        Ok(rest) => Ok(
                            RunPlanView {
                                invocations: head + rest.invocations,
                                skipped: rest.skipped,
                            },
                        ),
                        Err(e) => Err(e),
                    },
                }
            },
        }
    }
}

/// The view of a whole planning result.
pub open spec fn plan_result_view(r: Result<RunPlan, Error>) -> Result<RunPlanView, ErrorView> {
    match r {
        Ok(p) => Ok(p@),
        Err(e) => Err(e@),
    }
}

/// Plans the run over an explicit ordered scope of unit indices.
/// `targeted` says whether the run addresses a single unit on purpose, so
/// that a missing or empty policy is an error rather than a skip.
pub fn plan_for_scope(
    units: &Vec<ProjectUnit>,
    policies: &Vec<UnitPolicy>,
    scope: &Vec<usize>,
    targeted: bool,
) -> (r: Result<RunPlan, Error>)
    requires
        policies@.len() == units@.len(),
        forall|k: int| 0 <= k < scope@.len() ==> scope@[k] < units@.len(),
    ensures
        plan_result_view(r) == scope_plan(
            units.deep_view(),
            policies.deep_view(),
            scope@.map_values(|x: usize| x as int),
            targeted,
        ),
{
    let ghost uv = units.deep_view();
    let ghost pv = policies.deep_view();
    let ghost sv = scope@.map_values(|x: usize| x as int);
    let mut invocations: Vec<Invocation> = Vec::new();
    let mut skipped: Vec<String> = Vec::new();
    let mut i: usize = 0;
    proof {
        assert(sv.skip(0) =~= sv);
        match scope_plan(uv, pv, sv, targeted) {
            Ok(rest) => {
                assert(Seq::<InvocationView>::empty() + rest.invocations =~= rest.invocations);
                assert(Seq::<Seq<char>>::empty() + rest.skipped =~= rest.skipped);
            },
            Err(_) => {},
        }
    }
    while i < scope.len()
        invariant
            i <= scope@.len(),
            uv == units.deep_view(),
            pv == policies.deep_view(),
            sv == scope@.map_values(|x: usize| x as int),
            sv.len() == scope@.len(),
            uv.len() == units@.len(),
            pv.len() == units@.len(),
            forall|k: int| 0 <= k < scope@.len() ==> scope@[k] < units@.len(),
            match scope_plan(uv, pv, sv.skip(i as int), targeted) {
                Ok(rest) => scope_plan(uv, pv, sv, targeted) == Ok::<RunPlanView, ErrorView>(
                    RunPlanView {
                        invocations: invocations.deep_view() + rest.invocations,
                        skipped: skipped.deep_view() + rest.skipped,
                    },
                ),
                Err(e) => scope_plan(uv, pv, sv, targeted) == Err::<RunPlanView, ErrorView>(e),
            },
        decreases scope@.len() - i,
    {
        let idx = scope[i];
        proof {
            assert(sv.skip(i as int).first() == sv[i as int]);
            assert(sv[i as int] == idx as int);
            assert(sv.skip(i as int).drop_first() =~= sv.skip(i as int + 1));
        }
        match resolve_unit(&policies[idx]) {
            None => {
                if targeted {
                    return Err(Error::CustomsMissing);
                }
                let ghost prev = skipped.deep_view();
                skipped.push(units[idx].root.clone());
                proof {
                    assert(skipped.deep_view() =~= prev.push(uv[idx as int].root));
                    match scope_plan(uv, pv, sv.skip(i as int + 1), targeted) {
                        Ok(rest) => {
                            assert(prev + (seq![uv[idx as int].root] + rest.skipped)
                                =~= prev.push(uv[idx as int].root) + rest.skipped);
                        },
                        Err(_) => {},
                    }
                }
            },
            Some(resolved) => {
                if targeted && resolved.regulation.len() == 0 {
                    return Err(Error::EmptyRegulations);
                }
                match plan_regulations(&units[idx].root, &resolved.regulation) {
                    Err(e) => {
                        return Err(e);
                    },
                    Ok(mut head) => {
                        let ghost prev = invocations.deep_view();
                        let ghost head_v = head.deep_view();
                        invocations.append(&mut head);
                        proof {
                            assert(invocations.deep_view() =~= prev + head_v);
                            match scope_plan(uv, pv, sv.skip(i as int + 1), targeted) {
                                Ok(rest) => {
                                    assert(prev + (head_v + rest.invocations) =~= (prev + head_v)
                                        + rest.invocations);
                                },
                                Err(_) => {},
                            }
                        }
                    },
                }
            },
        }
        i = i + 1;
    }
    proof {
        assert(sv.skip(sv.len() as int) =~= Seq::<int>::empty());
        assert(invocations.deep_view() + Seq::<InvocationView>::empty()
            =~= invocations.deep_view());
        assert(skipped.deep_view() + Seq::<Seq<char>>::empty() =~= skipped.deep_view());
    }
    Ok(RunPlan { invocations, skipped })
}

/// What the scope of a run may be: every workspace member when the whole
/// workspace is asked for or no unit encloses the working location, and
/// the single most specific matching unit otherwise.
pub open spec fn is_scope_for(
    us: Seq<ProjectUnitView>,
    cwd: Seq<char>,
    workspace: bool,
    scope: Seq<int>,
) -> bool {
    if workspace || !has_matching_unit(us, cwd) {
        scope == member_indices(us)
    } else {
        &&& scope.len() == 1
        &&& 0 <= scope[0] < us.len()
        &&& unit_matches(us[scope[0]], cwd)
        &&& forall|k: int|
            0 <= k < us.len() && unit_matches(us[k], cwd) ==> us[k].root.len()
                <= us[scope[0]].root.len()
    }
}

/// Plans a whole run: resolves the scope from the working location and the
/// workspace flag, then plans every in-scope unit in order. The run is
/// targeted exactly when it addresses one unit and the workspace was not
/// asked for.
pub fn plan_run(
    units: &Vec<ProjectUnit>,
    policies: &Vec<UnitPolicy>,
    cwd: &str,
    workspace: bool,
) -> (r: Result<RunPlan, Error>)
    requires
        policies@.len() == units@.len(),
    ensures
        exists|scope: Seq<int>|
            #[trigger] is_scope_for(units.deep_view(), cwd@, workspace, scope) && plan_result_view(
                r,
            ) == scope_plan(
                units.deep_view(),
                policies.deep_view(),
                scope,
                !workspace && scope.len() == 1,
            ),
{
    let ghost uv = units.deep_view();
    let ghost pv = policies.deep_view();
    let scope = units_to_inspect(units, cwd, workspace);
    let targeted = !workspace && scope.len() == 1;
    let r = plan_for_scope(units, policies, &scope, targeted);
    proof {
        let sv = scope@.map_values(|x: usize| x as int);
        assert(is_scope_for(uv, cwd@, workspace, sv));
        assert(plan_result_view(r) == scope_plan(uv, pv, sv, !workspace && sv.len() == 1));
    }
    r
}

} // verus!
