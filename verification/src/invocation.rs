//! The invocation builder: one execution unit becomes the exact argument
//! vector for the external build tool.

use vstd::prelude::*;

use crate::error::Error;
use crate::error::ErrorView;
use crate::expand::all_designator;
use crate::policy::RegulationCheck;
use crate::policy::RegulationCheckView;
use crate::strutil::is_prefix_of;
use crate::strutil::str_eq;
use crate::strutil::str_is_prefix;

verus! {

/// The job that formats source text: it gets no build-target selector,
/// since it does not operate on compiled targets.
pub open spec fn format_job() -> Seq<char> {
    "fmt"@
}

/// The platform designator that lets the build tool use its default
/// platform: no target flag is emitted for it.
pub open spec fn host_designator() -> Seq<char> {
    "host"@
}

/// The flag a build-target token translates to: group keywords map to a
/// double-dash flag of the same name, `all` maps to `--all-targets`, a
/// `kind:name` form maps to `--kind=name`, and anything else is invalid.
pub open spec fn build_target_flag(t: Seq<char>) -> Option<Seq<char>> {
    if t == "lib"@ {
        Some("--lib"@)
    } else if t == "bins"@ {
        Some("--bins"@)
    } else if t == "examples"@ {
        Some("--examples"@)
    } else if t == "tests"@ {
        Some("--tests"@)
    } else if t == "benches"@ {
        Some("--benches"@)
    } else if t == "all-targets"@ {
        Some("--all-targets"@)
    } else if t == all_designator() {
        Some("--all-targets"@)
    } else if is_prefix_of("bin:"@, t) {
        Some("--bin="@ + t.skip(4))
    } else if is_prefix_of("example:"@, t) {
        Some("--example="@ + t.skip(8))
    } else if is_prefix_of("test:"@, t) {
        Some("--test="@ + t.skip(5))
    } else if is_prefix_of("bench:"@, t) {
        Some("--bench="@ + t.skip(6))
    } else {
        None
    }
}

/// The feature names joined with commas, in order.
pub open spec fn joined_features(fs: Seq<Seq<char>>) -> Seq<char>
    decreases fs.len(),
{
    if fs.len() == 0 {
        Seq::empty()
    } else if fs.len() == 1 {
        fs[0]
    } else {
        joined_features(fs.drop_last()) + ","@ + fs.last()
    }
}

/// The exact argument vector for one execution unit: the job name first;
/// then the platform flag unless the platform is the host; then the
/// build-target flag unless the job is the formatting job; then the joined
/// features if any; then a literal separator and the job's own arguments,
/// verbatim, if any.
pub open spec fn args_for(u: RegulationCheckView) -> Seq<Seq<char>>
    recommends
        build_target_flag(u.build_target) is Some,
{
    let base = seq![u.job.name];
    let with_platform = if u.platform_target == host_designator() {
        base
    } else {
        base.push("--target="@ + u.platform_target)
    };
    let with_build = if u.job.name == format_job() {
        with_platform
    } else {
        with_platform.push(build_target_flag(u.build_target)->Some_0)
    };
    let with_features = if u.features.len() == 0 {
        with_build
    } else {
        with_build.push("--features="@ + joined_features(u.features))
    };
    if u.job.args.len() == 0 {
        with_features
    } else {
        with_features.push("--"@) + u.job.args
    }
}

/// Translates one build-target token into its flag, or reports it invalid.
pub fn translate_build_target(t: &str) -> (r: Result<String, Error>)
    ensures
        match r {
            Ok(s) => build_target_flag(t@) == Some(s@),
            Err(e) => build_target_flag(t@) is None && e@ == ErrorView::InvalidBuildTarget(t@),
        },
{
    if str_eq(t, "lib") {
        return Ok("--lib".to_owned());
    }
    if str_eq(t, "bins") {
        return Ok("--bins".to_owned());
    }
    if str_eq(t, "examples") {
        return Ok("--examples".to_owned());
    }
    if str_eq(t, "tests") {
        return Ok("--tests".to_owned());
    }
    if str_eq(t, "benches") {
        return Ok("--benches".to_owned());
    }
    if str_eq(t, "all-targets") {
        return Ok("--all-targets".to_owned());
    }
    if str_eq(t, "all") {
        return Ok("--all-targets".to_owned());
    }
    let tlen = t.unicode_len();
    if str_is_prefix("bin:", t) {
        proof {
            reveal_strlit("bin:");
        }
        let name = t.substring_char(4, tlen);
        let s = String::from_str("--bin=").concat(name);
        proof {
            assert(t@.skip(4) =~= t@.subrange(4, t@.len() as int));
        }
        return Ok(s);
    }
    if str_is_prefix("example:", t) {
        proof {
            reveal_strlit("example:");
        }
        let name = t.substring_char(8, tlen);
        let s = String::from_str("--example=").concat(name);
        proof {
            assert(t@.skip(8) =~= t@.subrange(8, t@.len() as int));
        }
        return Ok(s);
    }
    if str_is_prefix("test:", t) {
        proof {
            reveal_strlit("test:");
        }
        let name = t.substring_char(5, tlen);
        let s = String::from_str("--test=").concat(name);
        proof {
            assert(t@.skip(5) =~= t@.subrange(5, t@.len() as int));
        }
        return Ok(s);
    }
    if str_is_prefix("bench:", t) {
        proof {
            reveal_strlit("bench:");
        }
        let name = t.substring_char(6, tlen);
        let s = String::from_str("--bench=").concat(name);
        proof {
            assert(t@.skip(6) =~= t@.subrange(6, t@.len() as int));
        }
        return Ok(s);
    }
    Err(Error::InvalidBuildTarget(t.to_owned()))
}

/// Joins feature names with commas, in order.
pub fn join_features(features: &Vec<String>) -> (r: String)
    ensures
        r@ == joined_features(features.deep_view()),
{
    let ghost fs = features.deep_view();
    let mut r = String::new();
    let mut i: usize = 0;
    while i < features.len()
        invariant
            i <= features@.len(),
            fs == features.deep_view(),
            fs.len() == features@.len(),
            r@ == joined_features(fs.take(i as int)),
        decreases features@.len() - i,
    {
        if i > 0 {
            r.append(",");
        }
        r.append(features[i].as_str());
        proof {
            assert(fs.take(i as int + 1).drop_last() =~= fs.take(i as int));
            assert(fs.take(i as int + 1).last() == fs[i as int]);
            if i == 0 {
                assert(r@ =~= fs[0]);
                assert(joined_features(fs.take(1)) == fs.take(1)[0]);
            }
        }
        i = i + 1;
    }
    proof {
        assert(fs.take(fs.len() as int) =~= fs);
    }
    r
}

impl RegulationCheck {
    /// The exact argument vector for this execution unit, or the invalid
    /// build-target token if translation fails. The token is validated
    /// even when the formatting job would omit its flag.
    pub fn command_args(&self) -> (r: Result<Vec<String>, Error>)
        ensures
            r is Ok <==> build_target_flag(self@.build_target) is Some,
            r matches Ok(v) ==> v.deep_view() == args_for(self@),
            r matches Err(e) ==> e@ == ErrorView::InvalidBuildTarget(self@.build_target),
    {
        let ghost u = self@;
        let flag = match translate_build_target(self.build_target.as_str()) {
            Ok(f) => f,
            Err(e) => {
                return Err(e);
            },
        };
        let mut v: Vec<String> = Vec::new();
        v.push(self.job.name.clone());
        proof {
            assert(v.deep_view() =~= seq![u.job.name]);
        }
        if !str_eq(self.platform_target.as_str(), "host") {
            let ghost prev = v.deep_view();
            let t = String::from_str("--target=").concat(self.platform_target.as_str());
            v.push(t);
            proof {
                assert(v.deep_view() =~= prev.push("--target="@ + u.platform_target));
            }
        }
        if !str_eq(self.job.name.as_str(), "fmt") {
            let ghost prev = v.deep_view();
            v.push(flag);
            proof {
                assert(v.deep_view() =~= prev.push(build_target_flag(u.build_target)->Some_0));
            }
        }
        if self.features.len() > 0 {
            let ghost prev = v.deep_view();
            let f = String::from_str("--features=").concat(join_features(&self.features).as_str());
            v.push(f);
            proof {
                assert(v.deep_view() =~= prev.push("--features="@ + joined_features(u.features)));
            }
        }
        if self.job.args.len() > 0 {
            let ghost prev = v.deep_view();
            v.push(String::from_str("--"));
            proof {
                assert(v.deep_view() =~= prev.push("--"@));
            }
            let ghost before_args = v.deep_view();
            let mut i: usize = 0;
            while i < self.job.args.len()
                invariant
                    i <= self.job.args@.len(),
                    u == self@,
                    v.deep_view() =~= before_args + u.job.args.take(i as int),
                decreases self.job.args@.len() - i,
            {
                let ghost prev2 = v.deep_view();
                v.push(self.job.args[i].clone());
                proof {
                    assert(v.deep_view() =~= prev2.push(u.job.args[i as int]));
                    assert(prev2.push(u.job.args[i as int]) =~= before_args + u.job.args.take(
                        i as int + 1,
                    ));
                }
                i = i + 1;
            }
            proof {
                assert(u.job.args.take(u.job.args.len() as int) =~= u.job.args);
                assert(v.deep_view() =~= args_for(u));
            }
        }
        proof {
            assert(v.deep_view() =~= args_for(u));
        }
        Ok(v)
    }
}

} // verus!
