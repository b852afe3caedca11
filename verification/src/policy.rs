//! The data model of the policy language: policy files, regulations, jobs,
//! and the fully concrete execution units the matrix expander produces.

use vstd::prelude::*;

use crate::strutil::clone_strings;

verus! {

/// One resolved job: its name and the extra arguments it passes through to
/// the tool invoked by the build tool.
#[derive(Debug)]
pub struct Job {
    pub name: String,
    pub args: Vec<String>,
}

/// Mathematical model of a [`Job`].
pub ghost struct JobView {
    pub name: Seq<char>,
    pub args: Seq<Seq<char>>,
}

impl View for Job {
    type V = JobView;

    open spec fn view(&self) -> JobView {
        JobView { name: self.name@, args: self.args.deep_view() }
    }
}

impl DeepView for Job {
    type V = JobView;

    open spec fn deep_view(&self) -> JobView {
        self@
    }
}

/// Extra arguments declared for one job in the detailed form of a jobs
/// specification.
#[derive(Debug)]
pub struct JobParameters {
    pub args: Vec<String>,
}

impl View for JobParameters {
    type V = Seq<Seq<char>>;

    open spec fn view(&self) -> Seq<Seq<char>> {
        self.args.deep_view()
    }
}

/// A jobs specification as written in a policy file: either a plain ordered
/// list of job names, or a mapping from job name to its parameters. The two
/// forms are mutually exclusive on one regulation.
#[derive(Debug)]
pub enum Jobs {
    /// Plain list form: job names only, no extra arguments.
    Short(Vec<String>),
    /// Detailed form: one entry per job name, with that job's parameters,
    /// in the mapping's native order.
    Detailed(Vec<(String, JobParameters)>),
}

/// Mathematical model of a [`Jobs`] specification.
pub ghost enum JobsView {
    Short(Seq<Seq<char>>),
    Detailed(Seq<JobView>),
}

impl View for Jobs {
    type V = JobsView;

    open spec fn view(&self) -> JobsView {
        match self {
            Jobs::Short(names) => JobsView::Short(names.deep_view()),
            Jobs::Detailed(entries) => JobsView::Detailed(
                Seq::new(
                    entries@.len(),
                    |i: int| JobView { name: entries@[i].0@, args: entries@[i].1.args.deep_view() },
                ),
            ),
        }
    }
}

impl Default for Jobs {
    /// An unspecified jobs specification: the plain list form with zero
    /// entries, which the default cascade treats as "inherit".
    fn default() -> (r: Jobs)
        ensures
            r@ == JobsView::Short(Seq::<Seq<char>>::empty()),
    {
        let names: Vec<String> = Vec::new();
        proof {
            assert(names.deep_view() =~= Seq::<Seq<char>>::empty());
        }
        Jobs::Short(names)
    }
}

impl JobsView {
    /// The uniform ordered sequence of jobs that a specification denotes:
    /// the plain list form yields jobs with empty argument lists in list
    /// order; the detailed form yields its entries in their declared order.
    pub open spec fn norm(self) -> Seq<JobView> {
        match self {
            JobsView::Short(names) => Seq::new(
                names.len(),
                |i: int| JobView { name: names[i], args: Seq::empty() },
            ),
            JobsView::Detailed(entries) => entries,
        }
    }
}

impl Job {
    /// A job from the plain list form: the name alone, no arguments.
    pub fn from_short(name: String) -> (r: Job)
        ensures
            r@ == (JobView { name: name@, args: Seq::<Seq<char>>::empty() }),
    {
        let r = Job { name, args: Vec::new() };
        proof {
            assert(r.args.deep_view() =~= Seq::<Seq<char>>::empty());
        }
        r
    }

    /// A job from one entry of the detailed form: the name with the entry's
    /// declared arguments.
    pub fn from_parameters(name: String, parameters: JobParameters) -> (r: Job)
        ensures
            r@ == (JobView { name: name@, args: parameters@ }),
    {
        Job { name, args: parameters.args }
    }
}

impl Jobs {
    /// Normalizes the two-shape specification into a uniform ordered
    /// sequence of jobs.
    pub fn into_jobs(self) -> (r: Vec<Job>)
        ensures
            r.deep_view() == self@.norm(),
    {
        let ghost norm = self@.norm();
        let mut r: Vec<Job> = Vec::new();
        match self {
            Jobs::Short(names) => {
                let mut i: usize = 0;
                while i < names.len()
                    invariant
                        i <= names.len(),
                        norm == (Jobs::Short(names))@.norm(),
                        r.deep_view() =~= norm.take(i as int),
                    decreases names.len() - i,
                {
                    let ghost prev = r.deep_view();
                    r.push(Job::from_short(names[i].clone()));
                    proof {
                        assert(r.deep_view() =~= prev.push(norm[i as int]));
                        assert(prev.push(norm[i as int]) =~= norm.take(i as int + 1));
                    }
                    i = i + 1;
                }
            },
            Jobs::Detailed(entries) => {
                let mut i: usize = 0;
                while i < entries.len()
                    invariant
                        i <= entries.len(),
                        norm == (Jobs::Detailed(entries))@.norm(),
                        r.deep_view() =~= norm.take(i as int),
                    decreases entries.len() - i,
                {
                    let name = entries[i].0.clone();
                    let args = clone_strings(&entries[i].1.args);
                    let ghost prev = r.deep_view();
                    r.push(Job::from_parameters(name, JobParameters { args }));
                    proof {
                        assert(r.deep_view() =~= prev.push(norm[i as int]));
                        assert(prev.push(norm[i as int]) =~= norm.take(i as int + 1));
                    }
                    i = i + 1;
                }
            },
        }
        proof {
            assert(r.deep_view() =~= norm);
        }
        r
    }
}

/// One declarative policy fragment: which platform targets, build targets,
/// jobs and feature sets apply. An empty field means "inherit from the
/// nearest enclosing default".
#[derive(Debug)]
pub struct Regulation {
    pub platform_targets: Vec<String>,
    pub build_targets: Vec<String>,
    pub jobs: Jobs,
    pub feature_sets: Vec<Vec<String>>,
}

/// Mathematical model of a [`Regulation`].
pub ghost struct RegulationView {
    pub platform_targets: Seq<Seq<char>>,
    pub build_targets: Seq<Seq<char>>,
    pub jobs: JobsView,
    pub feature_sets: Seq<Seq<Seq<char>>>,
}

impl View for Regulation {
    type V = RegulationView;

    open spec fn view(&self) -> RegulationView {
        RegulationView {
            platform_targets: self.platform_targets.deep_view(),
            build_targets: self.build_targets.deep_view(),
            jobs: self.jobs@,
            feature_sets: self.feature_sets.deep_view(),
        }
    }
}

impl DeepView for Regulation {
    type V = RegulationView;

    open spec fn deep_view(&self) -> RegulationView {
        self@
    }
}

/// The raw contents of one policy file: an optional default regulation and
/// an ordered list of explicit regulation entries.
#[derive(Debug)]
pub struct CustomsFile {
    pub default: Option<Regulation>,
    pub regulation: Vec<Regulation>,
}

/// Mathematical model of a [`CustomsFile`].
pub ghost struct CustomsFileView {
    pub default: Option<RegulationView>,
    pub regulation: Seq<RegulationView>,
}

impl View for CustomsFile {
    type V = CustomsFileView;

    open spec fn view(&self) -> CustomsFileView {
        CustomsFileView {
            default: match self.default {
                Some(d) => Some(d@),
                None => None,
            },
            regulation: self.regulation.deep_view(),
        }
    }
}

impl DeepView for CustomsFile {
    type V = CustomsFileView;

    open spec fn deep_view(&self) -> CustomsFileView {
        self@
    }
}

/// One point of the expanded matrix: a single platform target, build
/// target, job and feature set, ready for translation into an invocation.
#[derive(Debug)]
pub struct RegulationCheck {
    pub platform_target: String,
    pub build_target: String,
    pub job: Job,
    pub features: Vec<String>,
}

/// Mathematical model of a [`RegulationCheck`].
pub ghost struct RegulationCheckView {
    pub platform_target: Seq<char>,
    pub build_target: Seq<char>,
    pub job: JobView,
    pub features: Seq<Seq<char>>,
}

impl View for RegulationCheck {
    type V = RegulationCheckView;

    open spec fn view(&self) -> RegulationCheckView {
        RegulationCheckView {
            platform_target: self.platform_target@,
            build_target: self.build_target@,
            job: self.job@,
            features: self.features.deep_view(),
        }
    }
}

impl DeepView for RegulationCheck {
    type V = RegulationCheckView;

    open spec fn deep_view(&self) -> RegulationCheckView {
        self@
    }
}

} // verus!
