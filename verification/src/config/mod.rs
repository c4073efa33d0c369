//! Config: pipelines and types, one per repository.
//!
//! `lint.sh` for a Rails app and for a Python library are not the same script,
//! and both should be versioned with the code they judge, so policy lives in
//! the repo being worked on, not next to the engine.

pub mod cycles;
pub mod laws;
pub mod model;
pub mod validate;

pub use model::{
    parse_duration, Config, Pipeline, Signal, Step, StepDef, StepKind, TaskType,
    BUILTIN_SIGNALS, SIGNAL_AGENT_STOPPED,
};
pub use validate::{report, resolved_steps, validate, Problem};

use crate::error::{Error, ErrorModel};
use crate::outcome::Outcome;
use crate::flat::{flat, flat_has, flat_step};
use crate::paths::{below, join_path};
use crate::table::{
    first_index, first_index_absent, first_index_found, first_index_is_first, is_first, lookup,
    nowhere_first,
};
use crate::text::{
    cat2, cat3, cat4, copy, copy_list, holds, mentions, pad, padded, parts_are_mentioned,
    push_deep, quote, quoted, same,
};
use model::StepKindModel;
use validate::{is_valid, problems_of, report_text, valid_means_no_problems};
use vstd::prelude::*;
use vstd::string::*;

verus! {

/// Where policy lives inside a repo.
pub const CONFIG_RELATIVE: &'static str = ".shep/config.toml";

pub const SCRIPTS_RELATIVE: &'static str = ".shep/scripts";

/// Where scripts that belong to no project live, inside the home directory.
pub const HOME_SCRIPTS_RELATIVE: &'static str = ".config/shep/scripts";

/// A config, together with where it came from and the step scripts that were
/// there when it was read.
#[derive(Debug)]
pub struct Policy {
    pub config: Config,
    /// The repo root this governs.
    pub repo: String,
    /// The config file itself, for error messages.
    pub path: String,
    /// Where step scripts are looked for, in order. Held rather than recomputed
    /// so that a `Policy` answers the same question the same way for its whole
    /// life, whatever the environment does afterwards.
    pub script_dirs: Vec<String>,
    /// The paths below those directories that are files one can run.
    pub runnable: Vec<String>,
}

/// The file that a step name registers in a directory of scripts.
pub open spec fn script_file(dir: Seq<char>, step: Seq<char>) -> Seq<char> {
    below(dir, step + ".sh"@)
}

pub fn script_in(dir: &str, step: &str) -> (r: String)
    ensures
        r@ == script_file(dir@, step@),
{
    join_path(dir, &cat2(step, ".sh"))
}

/// The directories in which a step's script is one of the files one can run.
pub open spec fn has_script(runnable: Seq<Seq<char>>, step: Seq<char>) -> spec_fn(
    Seq<char>,
) -> bool {
    |dir: Seq<char>| runnable.contains(script_file(dir, step))
}

/// One line of the menu of types.
pub open spec fn menu_line(name: Seq<char>, t: TaskType) -> Seq<char> {
    "\n  "@ + padded(name, 12) + " "@ + t.description@
}

/// The lines of the menu, one after the other.
pub open spec fn menu_lines(types: Seq<(Seq<char>, TaskType)>) -> Seq<char>
    decreases types.len(),
{
    if types.len() == 0 {
        Seq::empty()
    } else {
        menu_lines(types.drop_last()) + menu_line(types.last().0, types.last().1)
    }
}

/// The step names of a pipeline that runs.
pub open spec fn labels_of() -> spec_fn((Seq<char>, Pipeline)) -> Seq<Seq<char>> {
    |e: (Seq<char>, Pipeline)| e.1.all_labels()
}

/// The files a step name could stand for, in the order they are looked for.
pub open spec fn files_for(dirs: Seq<Seq<char>>) -> spec_fn(Seq<char>) -> Seq<Seq<char>> {
    |step: Seq<char>| Seq::new(dirs.len(), |i: int| script_file(dirs[i], step))
}

/// Every step name of a config, then some more.
pub open spec fn names_with(config: Config, more: Seq<Seq<char>>) -> Seq<Seq<char>> {
    flat(config.pipeline.entries(), labels_of()) + more
}

/// Every file that the names of a config, and some more, could stand for.
pub open spec fn candidate_files(
    config: Config,
    more: Seq<Seq<char>>,
    dirs: Seq<Seq<char>>,
) -> Seq<Seq<char>> {
    flat(names_with(config, more), files_for(dirs))
}

/// What a policy is made of: the config a file was parsed to, where that came from, and
/// the scripts there are.
pub open spec fn made_of(
    p: Policy,
    config: Config,
    repo: Seq<char>,
    path: Seq<char>,
    home: Option<Seq<char>>,
    runnable: Vec<String>,
) -> bool {
    &&& p.config == config
    &&& p.repo@ == repo
    &&& p.path@ == path
    &&& p.script_dirs.deep_view() == search_path(repo, home)
    &&& p.runnable == runnable
}

/// What taking and validating what a config file was parsed to gives: the policy, where it
/// is valid, else every problem it has. A file that did not parse is reported with what the
/// parser says.
pub open spec fn taken(
    parsed: Result<Config, String>,
    repo: Seq<char>,
    path: Seq<char>,
    home: Option<Seq<char>>,
    runnable: Vec<String>,
    r: Result<Policy, Error>,
) -> bool {
    match parsed {
        Ok(c) => match r {
            Ok(p) => made_of(p, c, repo, path, home, runnable) && is_valid(p),
            Err(e) => exists|p: Policy|
                made_of(p, c, repo, path, home, runnable) && !#[trigger] is_valid(p) && e@
                    == ErrorModel::Other(report_text(path, problems_of(p))),
        },
        Err(m) => r matches Err(e) && e@ == ErrorModel::Other(path + ": "@ + m@),
    }
}

/// The same without validating: the policy, valid or not.
pub open spec fn taken_unchecked(
    parsed: Result<Config, String>,
    repo: Seq<char>,
    path: Seq<char>,
    home: Option<Seq<char>>,
    runnable: Vec<String>,
    r: Result<Policy, Error>,
) -> bool {
    match parsed {
        Ok(c) => r matches Ok(p) && made_of(p, c, repo, path, home, runnable),
        Err(m) => r matches Err(e) && e@ == ErrorModel::Other(path + ": "@ + m@),
    }
}

impl Policy {
    /// The pipelines and their names, in the order of the names.
    pub open spec fn pipelines(self) -> Seq<(Seq<char>, Pipeline)> {
        self.config.pipeline.entries()
    }

    pub open spec fn pipeline_called(self, name: Seq<char>) -> Option<Pipeline> {
        lookup(self.pipelines(), name)
    }

    pub open spec fn type_called(self, name: Seq<char>) -> Option<TaskType> {
        lookup(self.config.types.entries(), name)
    }

    /// The script a step name runs: the one in the first directory that has it.
    pub open spec fn script(self, step: Seq<char>) -> Option<Seq<char>> {
        let dirs = self.script_dirs.deep_view();
        match first_index(dirs, has_script(self.runnable.deep_view(), step)) {
            Some(i) => Some(script_file(dirs[i], step)),
            None => None,
        }
    }

    /// What a step name means. A script wins over a pipeline of the same name.
    pub open spec fn meaning(self, step: Seq<char>) -> Option<StepKindModel> {
        match self.script(step) {
            Some(path) => Some(StepKindModel::Script(path)),
            None => if self.pipeline_called(step) is Some {
                Some(StepKindModel::Pipeline(step))
            } else {
                None
            },
        }
    }

    /// Does a step name run a nested pipeline?
    pub open spec fn nests(self, step: Seq<char>) -> bool {
        self.meaning(step) is Some && self.meaning(step)->0 is Pipeline
    }

    /// A step in the sequence of a pipeline, both by name. A repair step is a bare name,
    /// so it waits for nothing.
    pub open spec fn step_of(self, pipeline: Seq<char>, step: Seq<char>) -> Option<Step> {
        match self.pipeline_called(pipeline) {
            Some(p) => p.forward(step),
            None => None,
        }
    }

    /// The signal a step waits for.
    pub open spec fn awaited(self, pipeline: Seq<char>, step: Seq<char>) -> Option<Seq<char>> {
        match self.step_of(pipeline, step) {
            Some(s) => s.awaited(),
            None => None,
        }
    }

    pub open spec fn missing(self, pipeline: Seq<char>, step: Seq<char>) -> Option<Outcome> {
        match self.step_of(pipeline, step) {
            Some(s) => s.missing(),
            None => None,
        }
    }

    pub open spec fn wait_seconds(self, pipeline: Seq<char>, step: Seq<char>) -> Option<i64> {
        match self.step_of(pipeline, step) {
            Some(s) => s.wait_seconds(),
            None => None,
        }
    }

    pub open spec fn late(self, pipeline: Seq<char>, step: Seq<char>) -> Option<Outcome> {
        match self.step_of(pipeline, step) {
            Some(s) => s.late(),
            None => None,
        }
    }

    /// A signal is known where it is built in or declared.
    pub open spec fn knows_signal(self, name: Seq<char>) -> bool {
        name == "agent_stopped"@ || lookup(self.config.signal.entries(), name) is Some
    }

    /// The names of the declared signals.
    pub open spec fn declared_signals(self) -> Seq<Seq<char>> {
        let e = self.config.signal.entries();
        Seq::new(e.len(), |i: int| e[i].0)
    }

    /// The built-in signal, then the declared ones.
    pub open spec fn signal_names(self) -> Seq<Seq<char>> {
        seq!["agent_stopped"@] + self.declared_signals()
    }

    /// The menu of types.
    pub open spec fn menu(self) -> Seq<char> {
        let types = self.config.types.entries();
        if types.len() == 0 {
            self.path@ + " defines no types"@
        } else {
            "Available:"@ + menu_lines(types)
        }
    }

    /// Take what the config file was parsed to, without validating it. A file that
    /// did not parse is reported with the parser's own message, which carries the
    /// line, the column and the sentence naming the bad key.
    fn parse_only_in(
        parsed: Result<Config, String>,
        repo: &str,
        path: &str,
        script_dirs: Vec<String>,
        runnable: Vec<String>,
    ) -> (r: Result<Policy, Error>)
        ensures
            match parsed {
                Ok(c) => r matches Ok(p) && p.config == c && p.repo@ == repo@ && p.path@ == path@
                    && p.script_dirs == script_dirs && p.runnable == runnable,
                Err(m) => r matches Err(e) && e@ == ErrorModel::Other(path@ + ": "@ + m@),
            },
    {
        match parsed {
            Ok(config) => Ok(
                Policy { config, repo: copy(repo), path: copy(path), script_dirs, runnable },
            ),
            Err(m) => Err(Error::Other(cat3(path, ": ", &m))),
        }
    }

    /// Take and validate what the config file was parsed to, with step scripts in
    /// the given directories.
    pub fn parse_in(
        parsed: Result<Config, String>,
        repo: &str,
        path: &str,
        script_dirs: Vec<String>,
        runnable: Vec<String>,
    ) -> (r: Result<Policy, Error>)
        ensures
            match parsed {
                Ok(c) => match r {
                    Ok(p) => p.config == c && p.repo@ == repo@ && p.path@ == path@ && p.script_dirs
                        == script_dirs && p.runnable == runnable && is_valid(p),
                    Err(e) => exists|p: Policy|
                        p.config == c && p.repo@ == repo@ && p.path@ == path@ && p.script_dirs
                            == script_dirs && p.runnable == runnable && !#[trigger] is_valid(p)
                            && e@ == ErrorModel::Other(report_text(path@, problems_of(p))),
                },
                Err(m) => r matches Err(e) && e@ == ErrorModel::Other(path@ + ": "@ + m@),
            },
    {
        let policy: Policy = Policy::parse_only_in(parsed, repo, path, script_dirs, runnable)?;
        let problems: Vec<Problem> = policy.problems();
        if problems.len() > 0 {
            return Err(Error::Other(validate::report(&policy, &problems)));
        }
        Ok(policy)
    }

    /// Take and validate what the config file was parsed to.
    pub fn parse(
        parsed: Result<Config, String>,
        repo: &str,
        path: &str,
        home: &Option<String>,
        runnable: Vec<String>,
    ) -> (r: Result<Policy, Error>)
        ensures
            taken(parsed, repo@, path@, home.deep_view(), runnable, r),
    {
        Policy::parse_in(parsed, repo, path, script_search_path(repo, home), runnable)
    }

    /// Take what the config file was parsed to without validating it, for
    /// `shep validate`, which wants to report every problem rather than fail at
    /// the first.
    pub fn parse_only(
        parsed: Result<Config, String>,
        repo: &str,
        path: &str,
        home: &Option<String>,
        runnable: Vec<String>,
    ) -> (r: Result<Policy, Error>)
        ensures
            taken_unchecked(parsed, repo@, path@, home.deep_view(), runnable, r),
    {
        Policy::parse_only_in(parsed, repo, path, script_search_path(repo, home), runnable)
    }

    /// Load and validate a repo's config, by what reading the file gave: what it was parsed
    /// to, or why it could not be read.
    pub fn load(
        read: Result<Result<Config, String>, ReadFailure>,
        repo: &str,
        home: &Option<String>,
        runnable: Vec<String>,
    ) -> (r: Result<Policy, Error>)
        ensures
            match read {
                Ok(parsed) => taken(
                    parsed,
                    repo@,
                    config_file(repo@),
                    home.deep_view(),
                    runnable,
                    r,
                ),
                Err(failure) => r matches Err(e) && e@ == unread(repo@, failure),
            },
    {
        match read {
            Ok(parsed) => Policy::parse(parsed, repo, &config_path(repo), home, runnable),
            Err(failure) => Err(read_failure(repo, &failure)),
        }
    }

    /// The same without validating.
    pub fn read_only(
        read: Result<Result<Config, String>, ReadFailure>,
        repo: &str,
        home: &Option<String>,
        runnable: Vec<String>,
    ) -> (r: Result<Policy, Error>)
        ensures
            match read {
                Ok(parsed) => taken_unchecked(
                    parsed,
                    repo@,
                    config_file(repo@),
                    home.deep_view(),
                    runnable,
                    r,
                ),
                Err(failure) => r matches Err(e) && e@ == unread(repo@, failure),
            },
    {
        match read {
            Ok(parsed) => Policy::parse_only(parsed, repo, &config_path(repo), home, runnable),
            Err(failure) => Err(read_failure(repo, &failure)),
        }
    }

    /// Every problem with this config. There is none exactly where it is valid.
    pub fn problems(&self) -> (r: Vec<Problem>)
        ensures
            r.deep_view() == problems_of(*self),
            r.len() == 0 <==> is_valid(*self),
    {
        proof {
            valid_means_no_problems(*self);
        }
        validate::validate(self)
    }

    /// The type an agent asked for, or the menu of what it could have asked for.
    pub fn task_type(&self, name: &str) -> (r: Result<&TaskType, Error>)
        ensures
            match self.type_called(name@) {
                Some(t) => r == Ok::<&TaskType, Error>(&t),
                None => r matches Err(e) && e@ == ErrorModel::Other(
                    "unknown type "@ + quoted(name@) + ". "@ + self.menu(),
                ),
            },
    {
        match self.config.types.get(name) {
            Some(t) => Ok(t),
            None => Err(
                Error::Other(cat4("unknown type ", &quote(name), ". ", &self.type_menu())),
            ),
        }
    }

    /// What `shep types` prints, and what an invalid `--type` error lists.
    pub fn type_menu(&self) -> (r: String)
        ensures
            r@ == self.menu(),
    {
        let ghost types = self.config.types.entries();
        let n: usize = self.config.types.len();
        if n == 0 {
            return cat2(&self.path, " defines no types");
        }
        let mut menu: String = copy("Available:");
        assert(menu_lines(types.take(0)) =~= Seq::empty());
        assert(menu@ =~= "Available:"@ + menu_lines(types.take(0)));
        for i in 0..n
            invariant
                types == self.config.types.entries(),
                n == types.len(),
                menu@ == "Available:"@ + menu_lines(types.take(i as int)),
        {
            let line: String = cat4(
                "\n  ",
                &pad(self.config.types.key(i), 12),
                " ",
                &self.config.types.value(i).description,
            );
            proof {
                assert(types.take(i as int + 1).drop_last() =~= types.take(i as int));
                assert(types.take(i as int + 1).last() == types[i as int]);
            }
            menu.append(&line);
            assert(menu@ =~= "Available:"@ + menu_lines(types.take(i as int + 1)));
        }
        assert(types.take(n as int) =~= types);
        menu
    }

    pub fn pipeline(&self, name: &str) -> (r: Result<&Pipeline, Error>)
        ensures
            match self.pipeline_called(name@) {
                Some(p) => r == Ok::<&Pipeline, Error>(&p),
                None => r matches Err(e) && e@ == ErrorModel::Other(
                    "unknown pipeline "@ + quoted(name@),
                ),
            },
    {
        match self.config.pipeline.get(name) {
            Some(p) => Ok(p),
            None => Err(Error::Other(cat2("unknown pipeline ", &quote(name)))),
        }
    }

    fn find_step(&self, pipeline: &str, step: &str) -> (r: Option<&Step>)
        ensures
            match r {
                Some(s) => self.step_of(pipeline@, step@) == Some(*s),
                None => self.step_of(pipeline@, step@) is None,
            },
    {
        match self.config.pipeline.get(pipeline) {
            Some(p) => p.forward_step(step),
            None => None,
        }
    }

    /// The signal a step defers on, if it is a deferred step.
    pub fn step_await(&self, pipeline: &str, step: &str) -> (r: Option<&str>)
        ensures
            r.deep_view() == self.awaited(pipeline@, step@),
    {
        match self.find_step(pipeline, step) {
            Some(s) => s.await_on(),
            None => None,
        }
    }

    /// A step's `on_missing` fallback.
    pub fn step_on_missing(&self, pipeline: &str, step: &str) -> (r: Option<Outcome>)
        ensures
            r == self.missing(pipeline@, step@),
    {
        match self.find_step(pipeline, step) {
            Some(s) => s.on_missing(),
            None => None,
        }
    }

    /// A step's timeout in seconds, if it declares a readable one.
    pub fn step_timeout_secs(&self, pipeline: &str, step: &str) -> (r: Option<i64>)
        ensures
            r == self.wait_seconds(pipeline@, step@),
    {
        match self.find_step(pipeline, step) {
            Some(s) => s.timeout_secs(),
            None => None,
        }
    }

    /// A step's `on_timeout` verdict.
    pub fn step_on_timeout(&self, pipeline: &str, step: &str) -> (r: Option<Outcome>)
        ensures
            r == self.late(pipeline@, step@),
    {
        match self.find_step(pipeline, step) {
            Some(s) => s.on_timeout(),
            None => None,
        }
    }

    /// Is this signal name one shepherd knows, a built-in or a declared one?
    pub fn signal_known(&self, name: &str) -> (r: bool)
        ensures
            r == self.knows_signal(name@),
    {
        same(name, "agent_stopped") || self.config.signal.contains_key(name)
    }

    /// Every signal name that a step may `await`, built-ins first.
    pub fn known_signals(&self) -> (r: Vec<String>)
        ensures
            r.deep_view() == self.signal_names(),
    {
        broadcast use push_deep;

        let ghost declared = self.declared_signals();
        let mut names: Vec<String> = Vec::new();
        names.push(copy("agent_stopped"));
        assert(names.deep_view() =~= seq!["agent_stopped"@] + declared.take(0));
        let n: usize = self.config.signal.len();
        for i in 0..n
            invariant
                declared == self.declared_signals(),
                n == declared.len(),
                names.deep_view() == seq!["agent_stopped"@] + declared.take(i as int),
        {
            let ghost prev = names;
            names.push(copy(self.config.signal.key(i)));
            assert(prev.deep_view().push(declared[i as int]) =~= seq!["agent_stopped"@]
                + declared.take(i as int + 1));
        }
        assert(declared.take(n as int) =~= declared);
        names
    }

    /// What a step name means: a script, or another pipeline.
    ///
    /// A script wins over a pipeline of the same name. That order is what lets
    /// `[pipeline.integrate] steps = ["integrate"]` mean "run integrate.sh"
    /// rather than "recurse into yourself", which is how anyone reads it.
    pub fn step_kind(&self, step: &str) -> (r: Option<StepKind>)
        ensures
            r.deep_view() == self.meaning(step@),
    {
        match self.script_path(step) {
            Some(path) => Some(StepKind::Script(path)),
            None => if self.config.pipeline.contains_key(step) {
                Some(StepKind::Pipeline(copy(step)))
            } else {
                None
            },
        }
    }

    /// Does this step name run a nested pipeline? Only if no script shadows it,
    /// which is what keeps composition and self-naming apart.
    pub fn nested_pipeline(&self, step: &str) -> (r: Option<&str>)
        ensures
            self.nests(step@) ==> r.deep_view() == Some(step@),
            !self.nests(step@) ==> r is None,
    {
        match self.step_kind(step) {
            Some(StepKind::Pipeline(_)) => match self.config.pipeline.find(step) {
                Some(i) => {
                    proof {
                        crate::table::lookup_some(self.pipelines(), step@);
                    }
                    Some(self.config.pipeline.key(i))
                },
                None => None,
            },
            _ => None,
        }
    }

    /// The filename is the registration: `steps = ["lint"]` resolves to
    /// `.shep/scripts/lint.sh`, with `~/.config/shep/scripts/` as the fallback
    /// for project-agnostic scripts.
    pub fn script_path(&self, step: &str) -> (r: Option<String>)
        ensures
            r.deep_view() == self.script(step@),
    {
        let ghost dirs = self.script_dirs.deep_view();
        let ghost p = has_script(self.runnable.deep_view(), step@);
        for i in 0..self.script_dirs.len()
            invariant
                dirs == self.script_dirs.deep_view(),
                p == has_script(self.runnable.deep_view(), step@),
                forall|j: int| 0 <= j < i ==> !p(#[trigger] dirs[j]),
        {
            let path: String = script_in(&self.script_dirs[i], step);
            assert(dirs[i as int] == self.script_dirs@[i as int]@);
            if holds(&self.runnable, &path) {
                proof {
                    first_index_found(dirs, p, i as int);
                }
                return Some(path);
            }
        }
        proof {
            first_index_absent(dirs, p);
        }
        None
    }
}

/// Where a step script may live, in the order searched.
pub open spec fn search_path(repo: Seq<char>, home: Option<Seq<char>>) -> Seq<Seq<char>> {
    match home {
        Some(h) => if h.len() > 0 {
            seq![below(repo, ".shep/scripts"@), below(h, ".config/shep/scripts"@)]
        } else {
            seq![below(repo, ".shep/scripts"@)]
        },
        None => seq![below(repo, ".shep/scripts"@)],
    }
}

/// Where a step script may live, in the order searched: in the repo, then in the
/// home directory where the environment names one.
pub fn script_search_path(repo: &str, home: &Option<String>) -> (r: Vec<String>)
    ensures
        r.deep_view() == search_path(repo@, home.deep_view()),
{
    broadcast use push_deep;

    let mut dirs: Vec<String> = Vec::new();
    dirs.push(join_path(repo, ".shep/scripts"));
    match home {
        Some(h) => {
            if !h.as_str().is_empty() {
                dirs.push(join_path(h, ".config/shep/scripts"));
            }
        },
        None => {},
    }
    assert(dirs.deep_view() =~= search_path(repo@, home.deep_view()));
    dirs
}

/// A step script must be a file you can actually run: one that somebody may execute. A
/// non-executable script is the sort of thing that would otherwise fail at 2am.
pub fn is_executable_file(is_file: bool, mode: u32) -> (r: bool)
    ensures
        r == (is_file && mode & 0o111 != 0),
{
    is_file && mode & 0o111 != 0
}

/// Why the text of a config could not be had.
#[derive(Debug)]
pub enum ReadFailure {
    /// There is no such file.
    Missing,
    /// Reading it failed, with what the system says of it.
    Failed(String),
}

/// Where the config of a repo is.
pub open spec fn config_file(repo: Seq<char>) -> Seq<char> {
    below(repo, ".shep/config.toml"@)
}

/// What is said of a config that could not be read.
pub open spec fn unread(repo: Seq<char>, failure: ReadFailure) -> ErrorModel {
    ErrorModel::Other(
        match failure {
            ReadFailure::Missing => "no .shep/config.toml in "@ + repo
                + " — shepherd needs its policy in the repo it works on"@,
            ReadFailure::Failed(why) => "reading "@ + config_file(repo) + ": "@ + why@,
        },
    )
}

pub fn config_path(repo: &str) -> (r: String)
    ensures
        r@ == config_file(repo@),
{
    join_path(repo, ".shep/config.toml")
}

pub fn read_failure(repo: &str, failure: &ReadFailure) -> (r: Error)
    ensures
        r@ == unread(repo@, *failure),
{
    match failure {
        ReadFailure::Missing => Error::Other(
            cat3(
                "no .shep/config.toml in ",
                repo,
                " — shepherd needs its policy in the repo it works on",
            ),
        ),
        ReadFailure::Failed(why) => Error::Other(cat4("reading ", &config_path(repo), ": ", why)),
    }
}

/// The files whose being runnable decides what the step names of a config mean,
/// and what some more names mean.
pub fn script_candidates(config: &Config, more: &Vec<String>, dirs: &Vec<String>) -> (r: Vec<
    String,
>)
    ensures
        r.deep_view() == candidate_files(*config, more.deep_view(), dirs.deep_view()),
{
    let mut names: Vec<String> = Vec::new();
    let ghost e = config.pipeline.entries();
    let ghost f = labels_of();
    let n: usize = config.pipeline.len();
    assert(names.deep_view() =~= flat(e.take(0), f));
    for i in 0..n
        invariant
            e == config.pipeline.entries(),
            f == labels_of(),
            n == e.len(),
            names.deep_view() == flat(e.take(i as int), f),
    {
        proof {
            flat_step(e, f, i as int);
        }
        extend_names(&mut names, config.pipeline.value(i).step_names());
    }
    assert(e.take(n as int) =~= e);
    extend_names(&mut names, copy_list(more));
    let ghost all = names_with(*config, more.deep_view());
    let ghost g = files_for(dirs.deep_view());
    let mut out: Vec<String> = Vec::new();
    assert(out.deep_view() =~= flat(all.take(0), g));
    for i in 0..names.len()
        invariant
            all == names.deep_view(),
            g == files_for(dirs.deep_view()),
            out.deep_view() == flat(all.take(i as int), g),
    {
        proof {
            flat_step(all, g, i as int);
            assert(all[i as int] == names@[i as int]@);
        }
        extend_names(&mut out, scripts_in(dirs, &names[i]));
    }
    assert(all.take(all.len() as int) =~= all);
    out
}

fn extend_names(names: &mut Vec<String>, more: Vec<String>)
    ensures
        final(names).deep_view() == old(names).deep_view() + more.deep_view(),
{
    let ghost a = names.deep_view();
    let ghost b = more.deep_view();
    let mut rest = more;
    names.append(&mut rest);
    assert(names.deep_view() =~= a + b);
}

fn scripts_in(dirs: &Vec<String>, step: &str) -> (r: Vec<String>)
    ensures
        r.deep_view() == files_for(dirs.deep_view())(step@),
{
    broadcast use push_deep;

    let ghost all = files_for(dirs.deep_view())(step@);
    let mut out: Vec<String> = Vec::new();
    assert(out.deep_view() =~= all.take(0));
    for i in 0..dirs.len()
        invariant
            all == files_for(dirs.deep_view())(step@),
            all.len() == dirs.len(),
            out.deep_view() == all.take(i as int),
    {
        let ghost prev = out;
        out.push(script_in(&dirs[i], step));
        assert(dirs.deep_view()[i as int] == dirs@[i as int]@);
        assert(prev.deep_view().push(all[i as int]) =~= all.take(i as int + 1));
    }
    assert(all.take(all.len() as int) =~= all);
    out
}

/// The directories in which a step's script is a file one can run.
pub open spec fn runs_from(can_run: spec_fn(Seq<char>) -> bool, step: Seq<char>) -> spec_fn(
    Seq<char>,
) -> bool {
    |dir: Seq<char>| can_run(script_file(dir, step))
}

/// Holding which of the candidate files can be run is as good as asking for each
/// when it matters: a name of the config, or one that was added, means the script
/// in the first directory where one can be run.
pub proof fn candidates_suffice(
    policy: Policy,
    more: Seq<Seq<char>>,
    can_run: spec_fn(Seq<char>) -> bool,
    step: Seq<char>,
)
    requires
        policy.runnable.deep_view() == candidate_files(
            policy.config,
            more,
            policy.script_dirs.deep_view(),
        ).filter(can_run),
        names_with(policy.config, more).contains(step),
    ensures
        policy.script(step) == match first_index(
            policy.script_dirs.deep_view(),
            runs_from(can_run, step),
        ) {
            Some(i) => Some(script_file(policy.script_dirs.deep_view()[i], step)),
            None => None,
        },
{
    let dirs = policy.script_dirs.deep_view();
    let files = candidate_files(policy.config, more, dirs);
    let kept = files.filter(can_run);
    let held = has_script(policy.runnable.deep_view(), step);
    let asked = runs_from(can_run, step);
    assert forall|i: int| 0 <= i < dirs.len() implies held(#[trigger] dirs[i]) == asked(
        dirs[i],
    ) by {
        let file = script_file(dirs[i], step);
        let names = names_with(policy.config, more);
        let k = names.index_of(step);
        assert(files_for(dirs)(names[k])[i] == file);
        flat_has(names, files_for(dirs), k, file);
        filter_contains(files, can_run, file);
    }
    same_first(dirs, held, asked);
}

/// What a filter keeps is what passes it.
proof fn filter_contains<A>(s: Seq<A>, p: spec_fn(A) -> bool, x: A)
    ensures
        s.filter(p).contains(x) <==> s.contains(x) && p(x),
    decreases s.len(),
{
    reveal(Seq::filter);
    if s.len() > 0 {
        let t = s.drop_last();
        filter_contains(t, p, x);
        if t.contains(x) {
            assert(s[t.index_of(x)] == x);
        }
        if s.contains(x) && x != s.last() {
            assert(t[s.index_of(x)] == x);
        }
        if p(s.last()) {
            let u = t.filter(p);
            let v = u.push(s.last());
            assert(v[u.len() as int] == s.last());
            if u.contains(x) {
                assert(v[u.index_of(x)] == x);
            }
            if v.contains(x) && x != s.last() {
                assert(u[v.index_of(x)] == x);
            }
        }
        assert(s.contains(s.last()));
    }
}

proof fn same_first<A>(s: Seq<A>, p: spec_fn(A) -> bool, q: spec_fn(A) -> bool)
    requires
        forall|i: int| 0 <= i < s.len() ==> p(#[trigger] s[i]) == q(s[i]),
    ensures
        first_index(s, p) == first_index(s, q),
{
    if first_index(s, p) is Some {
        first_index_is_first(s, p);
        let i = first_index(s, p)->0;
        assert(is_first(s, q, i));
        first_index_found(s, q, i);
    } else {
        nowhere_first(s, p);
        first_index_absent(s, q);
    }
}

// ---------------------------------------------------------------------------
// What a config's words mean
// ---------------------------------------------------------------------------

/// What a step waits for, and what comes of a wait, is what the config says at that step of
/// that pipeline. A bare name waits for nothing.
pub proof fn a_step_waits_as_it_is_written(policy: Policy, pipeline: Seq<char>, j: int)
    requires
        policy.pipeline_called(pipeline) is Some,
        0 <= j < policy.pipeline_called(pipeline)->0.steps@.len(),
        policy.pipeline_called(pipeline)->0.labels().no_duplicates(),
    ensures
        ({
            let p = policy.pipeline_called(pipeline)->0;
            let name = p.labels()[j];
            match p.steps@[j] {
                Step::Name(n) => {
                    &&& name == n@
                    &&& policy.awaited(pipeline, name) is None
                    &&& policy.missing(pipeline, name) is None
                    &&& policy.late(pipeline, name) is None
                    &&& policy.wait_seconds(pipeline, name) is None
                },
                Step::Spec(def) => {
                    &&& name == def.run@
                    &&& policy.awaited(pipeline, name) == def.await_on.deep_view()
                    &&& policy.missing(pipeline, name) == def.on_missing
                    &&& policy.late(pipeline, name) == def.on_timeout
                    &&& def.timeout is None ==> policy.wait_seconds(pipeline, name) is None
                    &&& def.timeout is Some ==> policy.wait_seconds(pipeline, name)
                        == model::duration(def.timeout->0@)
                },
            }
        }),
{
    let p = policy.pipeline_called(pipeline)->0;
    let name = p.labels()[j];
    let called = model::is_called(name);
    assert forall|i: int| 0 <= i < j implies !called(#[trigger] p.steps@[i]) by {
        assert(p.labels()[i] != p.labels()[j]);
    }
    first_index_found(p.steps@, called, j);
}

/// A name that is no step of a pipeline's sequence waits for nothing there, a repair step
/// included.
pub proof fn what_is_no_step_waits_for_nothing(
    policy: Policy,
    pipeline: Seq<char>,
    name: Seq<char>,
)
    requires
        policy.pipeline_called(pipeline) is None || !policy.pipeline_called(
            pipeline,
        )->0.labels().contains(name),
    ensures
        policy.awaited(pipeline, name) is None,
        policy.missing(pipeline, name) is None,
        policy.late(pipeline, name) is None,
        policy.wait_seconds(pipeline, name) is None,
{
    if policy.pipeline_called(pipeline) is Some {
        let p = policy.pipeline_called(pipeline)->0;
        let called = model::is_called(name);
        assert forall|i: int| 0 <= i < p.steps@.len() implies !called(#[trigger] p.steps@[i]) by {
            assert(p.labels()[i] == p.steps@[i].label());
        }
        first_index_absent(p.steps@, called);
    }
}

/// A step's script is the file of its name in the first directory where that can be run, and
/// there is none exactly where it can be run in no directory.
pub proof fn the_first_script_is_run(policy: Policy, step: Seq<char>, i: int)
    requires
        0 <= i < policy.script_dirs@.len(),
    ensures
        ({
            let file = |k: int| below(policy.script_dirs@[k]@, step + ".sh"@);
            let can_run = |k: int| policy.runnable.deep_view().contains(file(k));
            &&& can_run(i) && (forall|k: int| 0 <= k < i ==> !#[trigger] can_run(k))
                ==> policy.script(step) == Some(file(i))
            &&& policy.script(step) is None ==> !can_run(i)
            &&& can_run(i) ==> policy.script(step) is Some
        }),
{
    let dirs = policy.script_dirs.deep_view();
    let found = has_script(policy.runnable.deep_view(), step);
    let file = |k: int| below(policy.script_dirs@[k]@, step + ".sh"@);
    let can_run = |k: int| policy.runnable.deep_view().contains(file(k));
    assert(dirs[i] == policy.script_dirs@[i]@);
    if can_run(i) {
        crate::table::first_index_exists(dirs, found, i);
        if forall|k: int| 0 <= k < i ==> !#[trigger] can_run(k) {
            assert forall|k: int| 0 <= k < i implies !found(#[trigger] dirs[k]) by {
                assert(!can_run(k));
                assert(dirs[k] == policy.script_dirs@[k]@);
            }
            first_index_found(dirs, found, i);
        }
    }
}

/// A step name runs a pipeline exactly where there is one of that name and no script of it:
/// a script wins.
pub proof fn a_script_wins_over_a_pipeline(policy: Policy, step: Seq<char>)
    ensures
        policy.script(step) is Some ==> policy.meaning(step) == Some(
            StepKindModel::Script(policy.script(step)->0),
        ),
        policy.script(step) is None && policy.pipeline_called(step) is Some ==> policy.meaning(step)
            == Some(StepKindModel::Pipeline(step)),
        policy.script(step) is None && policy.pipeline_called(step) is None ==> policy.meaning(
            step,
        ) is None,
        policy.nests(step) <==> policy.script(step) is None && policy.pipeline_called(step) is Some,
{
}

/// A signal is known exactly where it is built in or declared by its name.
pub proof fn a_known_signal_is_built_in_or_declared(policy: Policy, name: Seq<char>)
    ensures
        policy.knows_signal(name) <==> name == "agent_stopped"@ || exists|i: int|
            0 <= i < policy.config.signal.entries().len() && (
            #[trigger] policy.config.signal.entries()[i]).0 == name,
{
    let e = policy.config.signal.entries();
    if crate::table::lookup(e, name) is Some {
        crate::table::lookup_some(e, name);
        let i = crate::table::key_index(e, name)->0;
        assert(e[i].0 == name);
    } else {
        crate::table::lookup_none(e, name);
    }
}

/// Scripts are looked for in the repo first, and then in the home directory, where there is
/// one.
pub proof fn scripts_are_looked_for_in_the_repo_first(repo: Seq<char>, home: Option<Seq<char>>)
    ensures
        search_path(repo, home).len() > 0,
        search_path(repo, home)[0] == below(repo, ".shep/scripts"@),
        home is Some && home->0.len() > 0 ==> search_path(repo, home).len() == 2 && search_path(
            repo,
            home,
        )[1] == below(home->0, ".config/shep/scripts"@),
        home is None || home->0.len() == 0 ==> search_path(repo, home).len() == 1,
{
}

/// A config that is taken is the one that was parsed, from where it was, with the scripts
/// that are there, and has no problem. One that has a problem is not taken, nor one that did
/// not parse.
pub proof fn only_a_config_without_problems_is_taken(
    parsed: Result<Config, String>,
    repo: Seq<char>,
    path: Seq<char>,
    home: Option<Seq<char>>,
    runnable: Vec<String>,
    r: Result<Policy, Error>,
)
    requires
        taken(parsed, repo, path, home, runnable, r),
    ensures
        parsed is Err ==> r is Err,
        r is Ok ==> {
            let p = r->Ok_0;
            &&& parsed == Ok::<Config, String>(p.config)
            &&& p.repo@ == repo && p.path@ == path && p.runnable == runnable
            &&& p.script_dirs.deep_view() == search_path(repo, home)
            &&& problems_of(p).len() == 0
        },
        parsed is Ok && r is Err ==> exists|p: Policy|
            p.config == parsed->Ok_0 && p.repo@ == repo && p.path@ == path && p.runnable == runnable
                && p.script_dirs.deep_view() == search_path(repo, home) && (
            #[trigger] problems_of(p)).len() > 0,
{
    if let Ok(p) = r {
        valid_means_no_problems(p);
    } else if let Ok(c) = parsed {
        let e = r->Err_0;
        let p = choose|p: Policy|
            made_of(p, c, repo, path, home, runnable) && !#[trigger] is_valid(p) && e@
                == ErrorModel::Other(report_text(path, problems_of(p)));
        valid_means_no_problems(p);
        assert(problems_of(p).len() > 0);
    }
}

/// A config that is taken without being checked is the one that was parsed, from where it
/// was, with the scripts that are there. It is taken exactly where it parsed.
pub proof fn a_config_that_parses_can_be_read(
    parsed: Result<Config, String>,
    repo: Seq<char>,
    path: Seq<char>,
    home: Option<Seq<char>>,
    runnable: Vec<String>,
    r: Result<Policy, Error>,
)
    requires
        taken_unchecked(parsed, repo, path, home, runnable, r),
    ensures
        r is Ok <==> parsed is Ok,
        r is Ok ==> {
            let p = r->Ok_0;
            &&& p.config == parsed->Ok_0
            &&& p.repo@ == repo && p.path@ == path && p.runnable == runnable
            &&& p.script_dirs.deep_view() == search_path(repo, home)
        },
{
}

/// A config is `.shep/config.toml` below the repo. What could not be read says where it was
/// looked for, and why it could not be read.
pub proof fn a_config_lives_in_its_repo(repo: Seq<char>, why: String)
    ensures
        config_file(repo) == below(repo, ".shep/config.toml"@),
        mentions(unread(repo, ReadFailure::Missing)->Other_0, repo),
        mentions(unread(repo, ReadFailure::Failed(why))->Other_0, config_file(repo)),
        mentions(unread(repo, ReadFailure::Failed(why))->Other_0, why@),
{
    let none = Seq::<char>::empty();
    parts_are_mentioned(
        "no .shep/config.toml in "@,
        repo,
        " — shepherd needs its policy in the repo it works on"@,
    );
    let a = "reading "@;
    let f = config_file(repo);
    parts_are_mentioned(a, f, ": "@ + why@);
    assert(a + f + (": "@ + why@) =~= a + f + ": "@ + why@);
    parts_are_mentioned(a + f + ": "@, why@, none);
}

} // verus!
