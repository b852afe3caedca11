//! The scope resolver: which project units an invocation operates on.
//!
//! The current unit is the workspace member whose root directory is the
//! longest positive-length prefix of the working location: a location can
//! be nested under several candidate roots, and the most specific match
//! wins. When no unit matches, or the caller asks for the whole workspace,
//! every workspace member is in scope.

use vstd::prelude::*;

use crate::strutil::is_prefix_of;
use crate::strutil::str_is_prefix;

verus! {

/// One addressable package of the project tree, as the external metadata
/// provider reports it: its identifier, the directory its manifest sits
/// in, and whether it is a member of the enclosing workspace.
#[derive(Debug)]
pub struct ProjectUnit {
    pub id: String,
    pub root: String,
    pub workspace_member: bool,
}

/// Mathematical model of a [`ProjectUnit`].
pub ghost struct ProjectUnitView {
    pub id: Seq<char>,
    pub root: Seq<char>,
    pub workspace_member: bool,
}

impl View for ProjectUnit {
    type V = ProjectUnitView;

    open spec fn view(&self) -> ProjectUnitView {
        ProjectUnitView { id: self.id@, root: self.root@, workspace_member: self.workspace_member }
    }
}

impl DeepView for ProjectUnit {
    type V = ProjectUnitView;

    open spec fn deep_view(&self) -> ProjectUnitView {
        self@
    }
}

/// A candidate for the current unit: a workspace member whose root is a
/// positive-length prefix of the working location.
pub open spec fn unit_matches(u: ProjectUnitView, cwd: Seq<char>) -> bool {
    u.workspace_member && u.root.len() > 0 && is_prefix_of(u.root, cwd)
}

/// Whether any unit is a candidate for the current unit.
pub open spec fn has_matching_unit(us: Seq<ProjectUnitView>, cwd: Seq<char>) -> bool {
    exists|k: int| 0 <= k < us.len() && unit_matches(us[k], cwd)
}

/// The indices of the workspace members, in the provider's order.
pub open spec fn member_indices(us: Seq<ProjectUnitView>) -> Seq<int>
    decreases us.len(),
{
    if us.len() == 0 {
        Seq::empty()
    } else if us.last().workspace_member {
        member_indices(us.drop_last()).push(us.len() - 1)
    } else {
        member_indices(us.drop_last())
    }
}

/// Finds the current unit: the workspace member whose root is the longest
/// positive-length prefix of the working location, or nothing when no
/// member's root encloses the location.
pub fn find_current_unit(units: &Vec<ProjectUnit>, cwd: &str) -> (r: Option<usize>)
    ensures
        match r {
            Some(i) => {
                &&& i < units@.len()
                &&& unit_matches(units.deep_view()[i as int], cwd@)
                &&& forall|k: int|
                    0 <= k < units@.len() && unit_matches(units.deep_view()[k], cwd@)
                        ==> units.deep_view()[k].root.len() <= units.deep_view()[i as int].root.len()
            },
            None => !has_matching_unit(units.deep_view(), cwd@),
        },
{
    let ghost uv = units.deep_view();
    let mut best: Option<usize> = None;
    let mut best_len: usize = 0;
    let mut i: usize = 0;
    while i < units.len()
        invariant
            i <= units@.len(),
            uv == units.deep_view(),
            uv.len() == units@.len(),
            match best {
                Some(bi) => {
                    &&& bi < units@.len()
                    &&& unit_matches(uv[bi as int], cwd@)
                    &&& best_len == uv[bi as int].root.len()
                    &&& forall|k: int|
                        0 <= k < i && unit_matches(uv[k], cwd@) ==> uv[k].root.len() <= best_len
                },
                None => forall|k: int| 0 <= k < i ==> !unit_matches(uv[k], cwd@),
            },
        decreases units@.len() - i,
    {
        if units[i].workspace_member {
            let rl = units[i].root.unicode_len();
            if rl > 0 && str_is_prefix(units[i].root.as_str(), cwd) {
                let take = match best {
                    None => true,
                    Some(_) => rl > best_len,
                };
                if take {
                    best = Some(i);
                    best_len = rl;
                }
            }
        }
        i = i + 1;
    }
    best
}

/// The ordered set of units to process: all workspace members when the
/// whole workspace is asked for or when the working location narrows the
/// intent to no unit; otherwise the single current unit.
pub fn units_to_inspect(units: &Vec<ProjectUnit>, cwd: &str, workspace: bool) -> (r: Vec<usize>)
    ensures
        (workspace || !has_matching_unit(units.deep_view(), cwd@)) ==> r@.map_values(
            |x: usize| x as int,
        ) == member_indices(units.deep_view()),
        (!workspace && has_matching_unit(units.deep_view(), cwd@)) ==> {
            &&& r@.len() == 1
            &&& r@[0] < units@.len()
            &&& unit_matches(units.deep_view()[r@[0] as int], cwd@)
            &&& forall|k: int|
                0 <= k < units@.len() && unit_matches(units.deep_view()[k], cwd@)
                    ==> units.deep_view()[k].root.len() <= units.deep_view()[r@[0] as int].root.len()
        },
        forall|k: int| 0 <= k < r@.len() ==> r@[k] < units@.len(),
{
    let ghost uv = units.deep_view();
    if !workspace {
        if let Some(i) = find_current_unit(units, cwd) {
            let mut r: Vec<usize> = Vec::new();
            r.push(i);
            return r;
        }
    }
    let mut r: Vec<usize> = Vec::new();
    let mut i: usize = 0;
    while i < units.len()
        invariant
            i <= units@.len(),
            uv == units.deep_view(),
            uv.len() == units@.len(),
            r@.map_values(|x: usize| x as int) == member_indices(uv.take(i as int)),
            forall|k: int| 0 <= k < r@.len() ==> r@[k] < i,
        decreases units@.len() - i,
    {
        proof {
            assert(uv.take(i as int + 1).drop_last() =~= uv.take(i as int));
        }
        if units[i].workspace_member {
            let ghost prev = r@.map_values(|x: usize| x as int);
            r.push(i);
            proof {
                assert(r@.map_values(|x: usize| x as int) =~= prev.push(i as int));
            }
        }
        i = i + 1;
    }
    proof {
        assert(uv.take(uv.len() as int) =~= uv);
    }
    r
}

} // verus!
