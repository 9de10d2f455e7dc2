//! Configuration of a generation run, and the plan of the files it writes.
use vstd::prelude::*;
use vstd::string::StringExecFns;

verus! {

/// Settings of a generation run: where to write, which models to read, and
/// whether to write debug dumps.
#[derive(Debug)]
pub struct ModelGen {
    pub out_dir: Option<String>,
    pub inputs: Vec<String>,
    pub development: bool,
}

/// One model to generate: the file read and the path, without extension, of
/// the files written.
#[derive(Debug)]
pub struct GenerationJob {
    pub input: String,
    pub out_file: String,
}

/// What a run does: create `out_dir`, then generate each job in order.
#[derive(Debug)]
pub struct RunPlan {
    pub out_dir: String,
    pub jobs: Vec<GenerationJob>,
    pub development: bool,
}

/// Why a run cannot start.
#[derive(Clone, Copy, Debug, PartialEq, Eq, Structural)]
pub enum RunError {
    /// No output directory was set.
    OutDirNotSet,
    /// The build tool gave no base directory.
    BuildDirNotSet,
    /// The input at this position names no file.
    NoFileName(usize),
}

/// The base name, without extension, of a path, as `std::path::Path`
/// determines it.
pub uninterp spec fn file_stem_of(path: Seq<char>) -> Option<Seq<char>>;

/// Relies on `std::path::Path::file_stem`: the final component of the path
/// without its extension, or none where the path names no file.
#[verifier::external_body]
fn file_stem(path: &str) -> (r: Option<String>)
    ensures
        match r {
            Some(s) => file_stem_of(path@) == Some(s@),
            None => file_stem_of(path@) is None,
        },
{
    std::path::Path::new(path).file_stem().map(|s| s.to_string_lossy().into_owned())
}

/// `base` followed by `rest`, with one `/` between them; an absolute `rest`
/// stands alone, and an empty `base` adds no separator. This follows the Unix
/// path grammar, where `/` is the only separator.
pub open spec fn join_path(base: Seq<char>, rest: Seq<char>) -> Seq<char> {
    if rest.len() > 0 && rest[0] == '/' {
        rest
    } else if base.len() == 0 || base.last() == '/' {
        base + rest
    } else {
        base + seq!['/'] + rest
    }
}

/// Joins two paths.
pub fn join(base: &str, rest: &str) -> (r: String)
    ensures
        r@ == join_path(base@, rest@),
{
    let n = crate::text::char_count(rest);
    let m = crate::text::char_count(base);
    proof {
        reveal_strlit("/");
    }
    if n > 0 && crate::text::char_at(rest, 0) == '/' {
        return String::from_str(rest);
    }
    let mut r = String::from_str(base);
    if !(m == 0 || crate::text::char_at(base, m - 1) == '/') {
        r.append("/");
    }
    r.append(rest);
    r
}

impl ModelGen {
    /// Settings with no output directory, no input, and development off.
    pub fn new() -> (r: ModelGen)
        ensures
            r.out_dir is None,
            r.inputs@.len() == 0,
            !r.development,
    {
        ModelGen { out_dir: None, inputs: Vec::new(), development: false }
    }

    /// Sets the output directory.
    pub fn out_dir(&mut self, out_dir: &str) -> (r: &mut ModelGen)
        ensures
            r.out_dir matches Some(d) && d@ == out_dir@,
            r.inputs@ == old(self).inputs@,
            r.development == old(self).development,
            *final(self) == *final(r),
    {
        self.out_dir = Some(String::from_str(out_dir));
        self
    }

    /// Adds an input model; inputs keep the order in which they were added.
    pub fn input(&mut self, input: &str) -> (r: &mut ModelGen)
        ensures
            r.out_dir == old(self).out_dir,
            r.inputs@.len() == old(self).inputs@.len() + 1,
            r.inputs@.subrange(0, old(self).inputs@.len() as int) == old(self).inputs@,
            r.inputs@.last()@ == input@,
            r.development == old(self).development,
            *final(self) == *final(r),
    {
        self.inputs.push(String::from_str(input));
        self
    }

    /// Sets development mode: debug dumps of the source graphs are written
    /// too.
    pub fn development(&mut self, development: bool) -> (r: &mut ModelGen)
        ensures
            r.out_dir == old(self).out_dir,
            r.inputs@ == old(self).inputs@,
            r.development == development,
            *final(self) == *final(r),
    {
        self.development = development;
        self
    }
}

/// The output directory of a run: the configured one, appended to the build
/// tool's base directory when run from a build step.
pub open spec fn planned_out_dir(g: ModelGen, is_build_script: bool, build_out_dir: Option<Seq<char>>) -> Result<Seq<char>, RunError> {
    if is_build_script {
        match build_out_dir {
            None => Err(RunError::BuildDirNotSet),
            Some(b) => match g.out_dir {
                None => Err(RunError::OutDirNotSet),
                Some(d) => Ok(join_path(b, d@)),
            },
        }
    } else {
        match g.out_dir {
            None => Err(RunError::OutDirNotSet),
            Some(d) => Ok(d@),
        }
    }
}

/// `p` plans a run of `g` writing to `out_dir`: one job per input, in
/// order, each writing into `out_dir` under the input's base name.
pub open spec fn plan_ok(g: ModelGen, out_dir: Seq<char>, p: RunPlan) -> bool {
    &&& p.out_dir@ == out_dir
    &&& p.development == g.development
    &&& p.jobs@.len() == g.inputs@.len()
    &&& forall|i: int| 0 <= i < g.inputs@.len() ==> job_ok(g, out_dir, p, i)
}

/// Job `i` of `p` generates input `i` of `g`.
pub open spec fn job_ok(g: ModelGen, out_dir: Seq<char>, p: RunPlan, i: int) -> bool {
    &&& p.jobs@[i].input@ == g.inputs@[i]@
    &&& file_stem_of(g.inputs@[i]@) is Some
    &&& p.jobs@[i].out_file@ == join_path(out_dir, file_stem_of(g.inputs@[i]@)->Some_0)
}

/// Input `i` is the first one that names no file.
pub open spec fn first_without_name(g: ModelGen, i: int) -> bool {
    &&& 0 <= i < g.inputs@.len()
    &&& file_stem_of(g.inputs@[i]@) is None
    &&& forall|j: int| 0 <= j < i ==> file_stem_of((#[trigger] g.inputs@[j])@) is Some
}

/// `r` is the plan of a run of `g` writing to `out_dir`, or the first input
/// that names no file.
pub open spec fn plan_result(g: ModelGen, out_dir: Seq<char>, r: Result<RunPlan, RunError>) -> bool {
    match r {
        Ok(p) => plan_ok(g, out_dir, p),
        Err(RunError::NoFileName(i)) => first_without_name(g, i as int),
        Err(_) => false,
    }
}

/// The characters of an optional string.
pub open spec fn opt_view(o: Option<&str>) -> Option<Seq<char>> {
    match o {
        Some(s) => Some(s@),
        None => None,
    }
}

/// `r` is what a run of `g` plans.
pub open spec fn run_result(g: ModelGen, is_build_script: bool, build_out_dir: Option<Seq<char>>, r: Result<RunPlan, RunError>) -> bool {
    match planned_out_dir(g, is_build_script, build_out_dir) {
        Err(e) => r == Err::<RunPlan, RunError>(e),
        Ok(o) => plan_result(g, o, r),
    }
}

impl ModelGen {
    /// Plans a run from a build step, whose tool gives the base directory
    /// `build_out_dir`.
    pub fn run_from_script(&self, build_out_dir: Option<&str>) -> (r: Result<RunPlan, RunError>)
        ensures
            run_result(*self, true, opt_view(build_out_dir), r),
    {
        self.run(true, build_out_dir)
    }

    /// Plans a run from the command line.
    pub fn run_from_cli(&self) -> (r: Result<RunPlan, RunError>)
        ensures
            run_result(*self, false, None, r),
    {
        self.run(false, None)
    }

    fn run(&self, is_build_script: bool, build_out_dir: Option<&str>) -> (r: Result<RunPlan, RunError>)
        ensures
            run_result(*self, is_build_script, opt_view(build_out_dir), r),
    {
        let out_dir = if is_build_script {
            let base = match build_out_dir {
                Some(b) => b,
                None => return Err(RunError::BuildDirNotSet),
            };
            match &self.out_dir {
                Some(d) => join(base, d.as_str()),
                None => return Err(RunError::OutDirNotSet),
            }
        } else {
            match &self.out_dir {
                Some(d) => d.clone(),
                None => return Err(RunError::OutDirNotSet),
            }
        };
        let ghost o = out_dir@;
        assert(planned_out_dir(*self, is_build_script, opt_view(build_out_dir)) == Ok::<_, RunError>(o));
        let mut jobs: Vec<GenerationJob> = Vec::new();
        let mut i: usize = 0;
        while i < self.inputs.len()
            invariant
                i <= self.inputs@.len(),
                out_dir@ == o,
                planned_out_dir(*self, is_build_script, opt_view(build_out_dir)) == Ok::<_, RunError>(o),
                jobs@.len() == i,
                forall|k: int| 0 <= k < i ==> {
                    &&& (#[trigger] jobs@[k]).input@ == self.inputs@[k]@
                    &&& file_stem_of(self.inputs@[k]@) is Some
                    &&& jobs@[k].out_file@ == join_path(o, file_stem_of(self.inputs@[k]@)->Some_0)
                },
            decreases self.inputs@.len() - i,
        {
            let stem = match file_stem(self.inputs[i].as_str()) {
                Some(s) => s,
                None => {
                    assert(forall|j: int| 0 <= j < i ==> file_stem_of((#[trigger] self.inputs@[j])@) is Some) by {
                        assert forall|j: int| 0 <= j < i implies file_stem_of((#[trigger] self.inputs@[j])@) is Some by {
                            assert(jobs@[j].input@ == self.inputs@[j]@);
                        }
                    }
                    return Err(RunError::NoFileName(i));
                },
            };
            let out_file = join(out_dir.as_str(), stem.as_str());
            jobs.push(GenerationJob { input: self.inputs[i].clone(), out_file });
            i = i + 1;
        }
        let plan = RunPlan { out_dir, jobs, development: self.development };
        assert(forall|k: int| 0 <= k < self.inputs@.len() ==> #[trigger] job_ok(*self, o, plan, k));
        Ok(plan)
    }
}

} // verus!
