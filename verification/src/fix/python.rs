//! Script rules: files of a scripting language that define `match` and
//! `fix`. The engine decides, file by file, what is done next; the caller
//! does it and reports what came of it. No file is imported before it has
//! passed the security check, and no failure of one file ends the batch.
use vstd::prelude::*;
use super::paths::{
    common_parent, components, file_name, get_common_parent, get_module_name,
    lemma_common_parent_is_above_all, module_name, string_texts,
};
use super::security::{
    check_security, is_allowed, is_verdict, lemma_writable_by_others_is_denied, FileMeta,
};
use super::structs::{Command, CommandText};
use crate::error::{AppError, AppResult};

verus! {

/// Where the engine stands with the rule file at hand.
#[derive(Debug, Clone, Copy, PartialEq, Eq, Structural)]
pub enum Phase {
    /// The directory of the batch has yet to be put on the search path.
    AddingRoot,
    /// The file has yet to pass the security check.
    Inspecting,
    /// The file has passed the security check and has yet to be imported.
    Importing,
    /// The module is imported; its two functions have yet to be found.
    Resolving,
    /// `match` has yet to be called.
    Matching,
    /// `match` said yes; `fix` has yet to be called.
    Fixing,
    /// No file is left.
    Finished,
}

/// What the engine asks of its caller.
#[derive(Debug)]
pub enum LoaderAction {
    /// Put the directory `root` at the head of the module search path.
    AddSearchRoot { root: String },
    /// Read the owner and the permission bits of the file at `path`, and the
    /// effective user of the process.
    Inspect { path: String },
    /// Import the module called `module`.
    Import { module: String },
    /// Look up `match` and `fix` in the module just imported, and see whether
    /// each can be called.
    Resolve,
    /// Call `match` with these three arguments.
    CallMatch { command: String, stdout: String, stderr: String },
    /// Call `fix` with these three arguments.
    CallFix { command: String, stdout: String, stderr: String },
    /// Nothing: the batch is done.
    Finish,
}

/// What the caller reports back.
#[derive(Debug)]
pub enum LoaderEvent {
    /// The directory is on the search path.
    RootAdded,
    /// What reading the file's metadata gave, and the effective user.
    Inspected { stat: Result<FileMeta, std::io::Error>, current_uid: u32 },
    /// The import went through, or failed with this text.
    Imported { outcome: Result<(), String> },
    /// Whether the module has a `match` that can be called, and a `fix`.
    Resolved { has_match: bool, has_fix: bool },
    /// What `match` returned, as a truth value, or the text of its failure.
    MatchReturned { answer: Result<bool, String> },
    /// What `fix` returned, as a string, or the text of its failure.
    FixReturned { correction: Result<String, String> },
}

/// Why a rule file gave no correction though nothing was wrong with the
/// batch.
#[derive(Debug)]
pub enum SkipReason {
    /// The security check turned the file away.
    Denied(AppError),
    /// The path is the directory of the batch itself, or does not end in a
    /// file name, so the file has no module name.
    NoModuleName,
    /// The import failed.
    ImportFailed(String),
    /// `match` or `fix` is missing, or cannot be called.
    MissingFunctions,
    /// `match` failed, or returned no truth value.
    MatchFailed(String),
    /// `fix` failed, or returned no string.
    FixFailed(String),
}

/// The engine's state, as plain values.
pub ghost struct LoaderState {
    pub command: CommandText,
    pub root: Seq<char>,
    pub paths: Seq<Seq<char>>,
    pub position: nat,
    pub phase: Phase,
    pub fixes: Seq<Seq<char>>,
}

/// An action, as plain values.
pub ghost enum ActionView {
    AddSearchRoot { root: Seq<char> },
    Inspect { path: Seq<char> },
    Import { module: Seq<char> },
    Resolve,
    CallMatch { arguments: CommandText },
    CallFix { arguments: CommandText },
    Finish,
}

impl View for LoaderAction {
    type V = ActionView;

    open spec fn view(&self) -> ActionView {
        match self {
            LoaderAction::AddSearchRoot { root } => ActionView::AddSearchRoot { root: root@ },
            LoaderAction::Inspect { path } => ActionView::Inspect { path: path@ },
            LoaderAction::Import { module } => ActionView::Import { module: module@ },
            LoaderAction::Resolve => ActionView::Resolve,
            LoaderAction::CallMatch { command, stdout, stderr } => ActionView::CallMatch {
                arguments: CommandText { command: command@, stdout: stdout@, stderr: stderr@ },
            },
            LoaderAction::CallFix { command, stdout, stderr } => ActionView::CallFix {
                arguments: CommandText { command: command@, stdout: stdout@, stderr: stderr@ },
            },
            LoaderAction::Finish => ActionView::Finish,
        }
    }
}

/// The state in which a batch starts. An empty batch is finished at once;
/// any other begins by putting its common directory on the search path.
pub open spec fn initial_state(command: CommandText, paths: Seq<Seq<char>>) -> LoaderState {
    LoaderState {
        command,
        root: match common_parent(paths) {
            Some(root) => root,
            None => Seq::empty(),
        },
        paths,
        position: 0,
        phase: if paths.len() == 0 {
            Phase::Finished
        } else {
            Phase::AddingRoot
        },
        fixes: Seq::empty(),
    }
}

/// What holds of every state that the engine reaches.
pub open spec fn well_formed(state: LoaderState) -> bool {
    &&& state.position <= state.paths.len()
    &&& state.phase is Finished <==> state.position == state.paths.len()
    &&& state.phase is AddingRoot ==> state.position == 0 && state.fixes.len() == 0
    &&& state.paths.len() > 0 ==> common_parent(state.paths) == Some(state.root)
}

/// `state` with the file at hand left behind: the next file is up for the
/// security check, or the batch is finished.
pub open spec fn moved_on(state: LoaderState) -> LoaderState {
    LoaderState {
        position: state.position + 1,
        phase: if state.position + 1 < state.paths.len() {
            Phase::Inspecting
        } else {
            Phase::Finished
        },
        ..state
    }
}

/// Whether the file at hand goes on to be imported: it passes the security
/// check and has a module name below the root.
pub open spec fn is_cleared(
    state: LoaderState,
    stat: Result<FileMeta, std::io::Error>,
    current_uid: u32,
) -> bool {
    is_allowed(stat, current_uid) && module_name(state.root, state.paths[state.position as int])
        is Some
}

/// The state after `event`. An event that does not answer what the engine
/// asked for changes nothing.
pub open spec fn after(state: LoaderState, event: LoaderEvent) -> LoaderState {
    match (state.phase, event) {
        (Phase::AddingRoot, LoaderEvent::RootAdded) => LoaderState {
            phase: Phase::Inspecting,
            ..state
        },
        (Phase::Inspecting, LoaderEvent::Inspected { stat, current_uid }) => if is_cleared(
            state,
            stat,
            current_uid,
        ) {
            LoaderState { phase: Phase::Importing, ..state }
        } else {
            moved_on(state)
        },
        (Phase::Importing, LoaderEvent::Imported { outcome }) => if outcome is Ok {
            LoaderState { phase: Phase::Resolving, ..state }
        } else {
            moved_on(state)
        },
        (Phase::Resolving, LoaderEvent::Resolved { has_match, has_fix }) => if has_match
            && has_fix {
            LoaderState { phase: Phase::Matching, ..state }
        } else {
            moved_on(state)
        },
        (Phase::Matching, LoaderEvent::MatchReturned { answer }) => if answer == Ok::<
            bool,
            String,
        >(true) {
            LoaderState { phase: Phase::Fixing, ..state }
        } else {
            moved_on(state)
        },
        (Phase::Fixing, LoaderEvent::FixReturned { correction }) => match correction {
            Ok(text) => LoaderState { fixes: state.fixes.push(text@), ..moved_on(state) },
            Err(_) => moved_on(state),
        },
        _ => state,
    }
}

/// Whether `skip` says why `event` made the engine leave the file at hand
/// without a correction, or is nothing where it did not.
pub open spec fn is_skip(skip: Option<SkipReason>, state: LoaderState, event: LoaderEvent) -> bool {
    match (state.phase, event) {
        (Phase::Inspecting, LoaderEvent::Inspected { stat, current_uid }) => if !is_allowed(
            stat,
            current_uid,
        ) {
            skip matches Some(SkipReason::Denied(error)) && is_verdict(
                Err(error),
                state.paths[state.position as int],
                stat,
                current_uid,
            )
        } else if module_name(state.root, state.paths[state.position as int]) is None {
            skip matches Some(SkipReason::NoModuleName)
        } else {
            skip is None
        },
        (Phase::Importing, LoaderEvent::Imported { outcome }) => match outcome {
            Ok(_) => skip is None,
            Err(text) => skip == Some(SkipReason::ImportFailed(text)),
        },
        (Phase::Resolving, LoaderEvent::Resolved { has_match, has_fix }) => if has_match
            && has_fix {
            skip is None
        } else {
            skip matches Some(SkipReason::MissingFunctions)
        },
        (Phase::Matching, LoaderEvent::MatchReturned { answer }) => match answer {
            Ok(_) => skip is None,
            Err(text) => skip == Some(SkipReason::MatchFailed(text)),
        },
        (Phase::Fixing, LoaderEvent::FixReturned { correction }) => match correction {
            Ok(_) => skip is None,
            Err(text) => skip == Some(SkipReason::FixFailed(text)),
        },
        _ => skip is None,
    }
}

/// What the engine asks for in `state`.
pub open spec fn pending(state: LoaderState) -> ActionView {
    match state.phase {
        Phase::AddingRoot => ActionView::AddSearchRoot { root: state.root },
        Phase::Inspecting => ActionView::Inspect { path: state.paths[state.position as int] },
        Phase::Importing => ActionView::Import {
            module: module_name(state.root, state.paths[state.position as int])->0,
        },
        Phase::Resolving => ActionView::Resolve,
        Phase::Matching => ActionView::CallMatch { arguments: state.command },
        Phase::Fixing => ActionView::CallFix { arguments: state.command },
        Phase::Finished => ActionView::Finish,
    }
}

/// What the error says when the files of a batch share no directory.
pub open spec fn no_common_parent_text() -> Seq<char> {
    "No common parent found for rule paths"@
}

/// The engine for one batch of script rule files.
pub struct ScriptLoader {
    command: String,
    stdout: String,
    stderr: String,
    root: String,
    paths: Vec<String>,
    position: usize,
    phase: Phase,
    module: String,
    fixes: Vec<String>,
}

impl View for ScriptLoader {
    type V = LoaderState;

    closed spec fn view(&self) -> LoaderState {
        LoaderState {
            command: CommandText {
                command: self.command@,
                stdout: self.stdout@,
                stderr: self.stderr@,
            },
            root: self.root@,
            paths: string_texts(self.paths@),
            position: self.position as nat,
            phase: self.phase,
            fixes: string_texts(self.fixes@),
        }
    }
}

impl ScriptLoader {
    #[verifier::type_invariant]
    closed spec fn is_consistent(&self) -> bool {
        &&& well_formed(self@)
        &&& self.phase is Importing ==> module_name(
            self.root@,
            self.paths@[self.position as int]@,
        ) == Some(self.module@)
    }

    /// Starts a batch on the files at `rule_paths`, to correct `command`.
    ///
    /// An empty batch is no error: it is finished at once. A batch whose
    /// files share no directory is a configuration error.
    pub fn new(command: &Command, rule_paths: Vec<String>) -> (loader: AppResult<ScriptLoader>)
        ensures
            match loader {
                Ok(started) => started@ == initial_state(command@, string_texts(rule_paths@))
                    && well_formed(started@),
                Err(AppError::Config(detail)) => rule_paths.len() > 0 && common_parent(
                    string_texts(rule_paths@),
                ) is None && detail@ == no_common_parent_text(),
                Err(_) => false,
            },
    {
        let root = if rule_paths.len() == 0 {
            String::new()
        } else {
            match get_common_parent(rule_paths.as_slice()) {
                Some(root) => root,
                None => {
                    return Err(
                        AppError::Config("No common parent found for rule paths".to_owned()),
                    );
                },
            }
        };
        let phase = if rule_paths.len() == 0 {
            Phase::Finished
        } else {
            Phase::AddingRoot
        };
        let fixes: Vec<String> = Vec::new();
        proof {
            assert(string_texts(fixes@) == Seq::<Seq<char>>::empty());
        }
        Ok(
            ScriptLoader {
                command: command.command().to_owned(),
                stdout: command.output().stdout().to_owned(),
                stderr: command.output().stderr().to_owned(),
                root,
                paths: rule_paths,
                position: 0,
                phase,
                module: String::new(),
                fixes,
            },
        )
    }

    /// What the caller is to do next.
    pub fn next_action(&self) -> (action: LoaderAction)
        ensures
            action@ == pending(self@),
            well_formed(self@),
    {
        proof {
            use_type_invariant(self);
        }
        match self.phase {
            Phase::AddingRoot => LoaderAction::AddSearchRoot { root: self.root.clone() },
            Phase::Inspecting => LoaderAction::Inspect { path: self.paths[self.position].clone() },
            Phase::Importing => LoaderAction::Import { module: self.module.clone() },
            Phase::Resolving => LoaderAction::Resolve,
            Phase::Matching => LoaderAction::CallMatch {
                command: self.command.clone(),
                stdout: self.stdout.clone(),
                stderr: self.stderr.clone(),
            },
            Phase::Fixing => LoaderAction::CallFix {
                command: self.command.clone(),
                stdout: self.stdout.clone(),
                stderr: self.stderr.clone(),
            },
            Phase::Finished => LoaderAction::Finish,
        }
    }

    /// Where the engine stands with the file at hand.
    pub fn phase(&self) -> (phase: Phase)
        ensures
            phase == self@.phase,
    {
        self.phase
    }

    /// Whether the batch is done.
    pub fn is_finished(&self) -> (finished: bool)
        ensures
            finished == (self@.phase is Finished),
    {
        self.phase == Phase::Finished
    }

    /// The corrections gathered so far, in the order of the files that gave
    /// them.
    pub fn fixes(&self) -> (fixes: &Vec<String>)
        ensures
            string_texts(fixes@) == self@.fixes,
    {
        &self.fixes
    }

    /// Ends the batch and hands out the corrections gathered, in the order
    /// of the files that gave them.
    pub fn into_fixes(self) -> (fixes: Vec<String>)
        ensures
            string_texts(fixes@) == self@.fixes,
    {
        self.fixes
    }

    /// Leaves the file at hand behind.
    fn move_on(self) -> (next: ScriptLoader)
        requires
            !(self@.phase is Finished),
        ensures
            next@ == moved_on(self@),
    {
        proof {
            use_type_invariant(&self);
            assert(self@.paths.len() == self.paths.len());
            assert(self@.position < self@.paths.len());
        }
        let position = self.position + 1;
        let phase = if position < self.paths.len() {
            Phase::Inspecting
        } else {
            Phase::Finished
        };
        ScriptLoader {
            command: self.command,
            stdout: self.stdout,
            stderr: self.stderr,
            root: self.root,
            paths: self.paths,
            position,
            phase,
            module: self.module,
            fixes: self.fixes,
        }
    }

    /// Puts the file at hand into `phase`.
    fn enter(self, phase: Phase, module: String) -> (next: ScriptLoader)
        requires
            !(self@.phase is Finished),
            !(phase is Finished),
            !(phase is AddingRoot),
            phase is Importing ==> module_name(
                self@.root,
                self@.paths[self@.position as int],
            ) == Some(module@),
        ensures
            next@ == (LoaderState { phase, ..self@ }),
    {
        proof {
            use_type_invariant(&self);
        }
        ScriptLoader {
            command: self.command,
            stdout: self.stdout,
            stderr: self.stderr,
            root: self.root,
            paths: self.paths,
            position: self.position,
            phase,
            module,
            fixes: self.fixes,
        }
    }

    /// Takes in what the caller reports and moves to the next state. Where
    /// the report makes the engine leave the file at hand without a
    /// correction, the reason comes back too. A report that does not answer
    /// what the engine asked for changes nothing.
    pub fn handle(self, event: LoaderEvent) -> (next: (ScriptLoader, Option<SkipReason>))
        ensures
            next.0@ == after(self@, event),
            is_skip(next.1, self@, event),
            well_formed(self@),
            well_formed(next.0@),
    {
        proof {
            use_type_invariant(&self);
        }
        match (self.phase, event) {
            (Phase::AddingRoot, LoaderEvent::RootAdded) => {
                (self.enter(Phase::Inspecting, String::new()), None)
            },
            (Phase::Inspecting, LoaderEvent::Inspected { stat, current_uid }) => {
                let verdict = check_security(self.paths[self.position].as_str(), stat, current_uid);
                match verdict {
                    Err(error) => (self.move_on(), Some(SkipReason::Denied(error))),
                    Ok(_) => {
                        let name = get_module_name(
                            self.root.as_str(),
                            self.paths[self.position].as_str(),
                        );
                        match name {
                            Some(module) => (self.enter(Phase::Importing, module), None),
                            None => (self.move_on(), Some(SkipReason::NoModuleName)),
                        }
                    },
                }
            },
            (Phase::Importing, LoaderEvent::Imported { outcome }) => match outcome {
                Ok(_) => (self.enter(Phase::Resolving, String::new()), None),
                Err(text) => (self.move_on(), Some(SkipReason::ImportFailed(text))),
            },
            (Phase::Resolving, LoaderEvent::Resolved { has_match, has_fix }) => {
                if has_match && has_fix {
                    (self.enter(Phase::Matching, String::new()), None)
                } else {
                    (self.move_on(), Some(SkipReason::MissingFunctions))
                }
            },
            (Phase::Matching, LoaderEvent::MatchReturned { answer }) => match answer {
                Ok(matched) => {
                    if matched {
                        (self.enter(Phase::Fixing, String::new()), None)
                    } else {
                        (self.move_on(), None)
                    }
                },
                Err(text) => (self.move_on(), Some(SkipReason::MatchFailed(text))),
            },
            (Phase::Fixing, LoaderEvent::FixReturned { correction }) => match correction {
                Ok(text) => (self.keep(text), None),
                Err(text) => (self.move_on(), Some(SkipReason::FixFailed(text))),
            },
            (_, _) => (self, None),
        }
    }

    /// Adds `fix` to the corrections and leaves the file at hand behind.
    fn keep(self, fix: String) -> (next: ScriptLoader)
        requires
            !(self@.phase is Finished),
        ensures
            next@ == (LoaderState { fixes: self@.fixes.push(fix@), ..moved_on(self@) }),
    {
        proof {
            use_type_invariant(&self);
            assert(self@.paths.len() == self.paths.len());
            assert(self@.position < self@.paths.len());
        }
        let position = self.position + 1;
        let phase = if position < self.paths.len() {
            Phase::Inspecting
        } else {
            Phase::Finished
        };
        let mut fixes = self.fixes;
        let ghost before = string_texts(fixes@);
        fixes.push(fix);
        proof {
            assert(string_texts(fixes@) == before.push(fix@));
        }
        ScriptLoader {
            command: self.command,
            stdout: self.stdout,
            stderr: self.stderr,
            root: self.root,
            paths: self.paths,
            position,
            phase,
            module: self.module,
            fixes,
        }
    }
}

/// What the outside world answers for one rule file, step by step. An answer
/// is read only where the engine asks for it: of a file that does not pass
/// the security check, nothing after `stat` and `current_uid` counts.
#[derive(Debug)]
pub struct RuleAnswers {
    /// What reading the file's metadata gives.
    pub stat: Result<FileMeta, std::io::Error>,
    /// The effective user of the process.
    pub current_uid: u32,
    /// Whether importing the module goes through.
    pub imported: Result<(), String>,
    /// Whether the module has a `match` that can be called.
    pub has_match: bool,
    /// Whether the module has a `fix` that can be called.
    pub has_fix: bool,
    /// What `match` returns.
    pub matched: Result<bool, String>,
    /// What `fix` returns.
    pub fixed: Result<String, String>,
}

/// A rule file together with the answers that it gives.
#[derive(Debug)]
pub struct RecordedRule {
    pub path: String,
    pub answers: RuleAnswers,
}

/// The paths of `rules`, in order.
pub open spec fn recorded_paths(rules: Seq<RecordedRule>) -> Seq<Seq<char>> {
    Seq::new(rules.len(), |i: int| rules[i].path@)
}

/// What one rule file adds to the corrections of its batch: what its `fix`
/// returns, where the file passes the security check, has a module name, is imported,
/// has both functions, and its `match` says yes. Otherwise nothing.
pub open spec fn contribution(root: Seq<char>, rule: RecordedRule) -> Option<Seq<char>> {
    let answers = rule.answers;
    if is_allowed(answers.stat, answers.current_uid) && module_name(root, rule.path@) is Some
        && answers.imported is Ok && answers.has_match && answers.has_fix && answers.matched
        == Ok::<bool, String>(true) {
        match answers.fixed {
            Ok(text) => Some(text@),
            Err(_) => None,
        }
    } else {
        None
    }
}

/// The corrections of a batch: the contribution of each rule file that has
/// one, in the order of the files.
pub open spec fn batch_fixes(root: Seq<char>, rules: Seq<RecordedRule>) -> Seq<Seq<char>>
    decreases rules.len(),
{
    if rules.len() == 0 {
        Seq::empty()
    } else {
        let before = batch_fixes(root, rules.drop_last());
        match contribution(root, rules.last()) {
            Some(text) => before.push(text),
            None => before,
        }
    }
}

/// The directory of a batch, or the empty path where it has none.
pub open spec fn root_of(paths: Seq<Seq<char>>) -> Seq<char> {
    match common_parent(paths) {
        Some(root) => root,
        None => Seq::empty(),
    }
}

/// The state of a batch between two files: `done` files are behind, and the
/// corrections are those that they gave.
pub open spec fn between_files(command: CommandText, rules: Seq<RecordedRule>, done: int) -> LoaderState {
    LoaderState {
        command,
        root: root_of(recorded_paths(rules)),
        paths: recorded_paths(rules),
        position: done as nat,
        phase: if done < rules.len() {
            Phase::Inspecting
        } else {
            Phase::Finished
        },
        fixes: batch_fixes(root_of(recorded_paths(rules)), rules.take(done)),
    }
}

/// Runs a batch of script rules whose answers are known beforehand: the
/// engine is driven through every file in turn, and each of its requests is
/// answered from the record of the file at hand.
///
/// An empty batch gives no corrections and no error. A batch whose files
/// share no directory is a configuration error. Otherwise the result holds
/// the correction of every file that gives one, in the order of the files;
/// a file that is turned away, cannot be imported, lacks a function, does
/// not match or fails leaves the others untouched.
pub fn process_python_rules(command: &Command, rules: Vec<RecordedRule>) -> (fixes: AppResult<
    Vec<String>,
>)
    ensures
        match fixes {
            Ok(found) => string_texts(found@) == batch_fixes(
                root_of(recorded_paths(rules@)),
                rules@,
            ) && (rules.len() == 0 || common_parent(recorded_paths(rules@)) is Some),
            Err(AppError::Config(detail)) => rules.len() > 0 && common_parent(
                recorded_paths(rules@),
            ) is None && detail@ == no_common_parent_text(),
            Err(_) => false,
        },
{
    let mut paths: Vec<String> = Vec::new();
    let mut i: usize = 0;
    while i < rules.len()
        invariant
            i <= rules.len(),
            string_texts(paths@) == recorded_paths(rules@).take(i as int),
        decreases rules.len() - i,
    {
        let ghost before = string_texts(paths@);
        paths.push(rules[i].path.clone());
        proof {
            assert(string_texts(paths@) == before.push(rules@[i as int].path@));
        }
        i += 1;
    }
    proof {
        assert(recorded_paths(rules@).take(rules.len() as int) == recorded_paths(rules@));
    }
    let started = match ScriptLoader::new(command, paths) {
        Ok(started) => started,
        Err(error) => {
            return Err(error);
        },
    };
    let (ready, _) = started.handle(LoaderEvent::RootAdded);
    let mut loader = ready;
    let ghost all = rules@;
    proof {
        assert(all.take(0) == Seq::<RecordedRule>::empty());
    }
    for rule in it: rules
        invariant
            it.seq() == all,
            loader@ == between_files(command@, all, it.index() as int),
    {
        let ghost done = it.index() as int;
        proof {
            assert(all.take(done + 1).drop_last() == all.take(done));
            assert(all.take(done + 1).last() == rule);
        }
        let answers = rule.answers;
        let (inspected, _) = loader.handle(
            LoaderEvent::Inspected { stat: answers.stat, current_uid: answers.current_uid },
        );
        loader = inspected;
        if loader.phase() == Phase::Importing {
            let (imported, _) = loader.handle(LoaderEvent::Imported { outcome: answers.imported });
            loader = imported;
            if loader.phase() == Phase::Resolving {
                let (resolved, _) = loader.handle(
                    LoaderEvent::Resolved {
                        has_match: answers.has_match,
                        has_fix: answers.has_fix,
                    },
                );
                loader = resolved;
                if loader.phase() == Phase::Matching {
                    let (matched, _) = loader.handle(
                        LoaderEvent::MatchReturned { answer: answers.matched },
                    );
                    loader = matched;
                    if loader.phase() == Phase::Fixing {
                        let (fixed, _) = loader.handle(
                            LoaderEvent::FixReturned { correction: answers.fixed },
                        );
                        loader = fixed;
                    }
                }
            }
        }
    }
    proof {
        assert(all.take(all.len() as int) == all);
    }
    Ok(loader.into_fixes())
}

/// Every step keeps the state well formed.
pub proof fn lemma_after_is_well_formed(state: LoaderState, event: LoaderEvent)
    requires
        well_formed(state),
    ensures
        well_formed(after(state, event)),
{
}

/// The engine asks for an import only of a file that has just passed the
/// security check: the one step that leads to an import is a report of metadata that
/// gives no reason to turn the file away.
pub proof fn lemma_import_only_after_clearance(state: LoaderState, event: LoaderEvent)
    requires
        well_formed(state),
        !(state.phase is Importing),
        pending(after(state, event)) is Import,
    ensures
        state.phase is Inspecting,
        event matches LoaderEvent::Inspected { stat, current_uid } && is_allowed(stat, current_uid),
        after(state, event).position == state.position,
{
}

/// A rule file that belongs to another user is left behind at the security check,
/// whatever its permission bits are: no import is asked for.
pub proof fn lemma_foreign_owner_is_never_imported(
    state: LoaderState,
    meta: FileMeta,
    current_uid: u32,
)
    requires
        well_formed(state),
        state.phase is Inspecting,
        meta.uid != current_uid,
    ensures
        after(state, LoaderEvent::Inspected { stat: Ok(meta), current_uid }) == moved_on(state),
        !(pending(moved_on(state)) is Import),
{
}

/// A rule file that its group or others may write to is left behind at the
/// security check, whoever owns it: no import is asked for.
pub proof fn lemma_writable_file_is_never_imported(
    state: LoaderState,
    meta: FileMeta,
    current_uid: u32,
)
    requires
        well_formed(state),
        state.phase is Inspecting,
        meta.mode & 0o020 != 0 || meta.mode & 0o002 != 0,
    ensures
        after(state, LoaderEvent::Inspected { stat: Ok(meta), current_uid }) == moved_on(state),
        !(pending(moved_on(state)) is Import),
{
    lemma_writable_by_others_is_denied(meta, current_uid);
}

/// Both functions are called with the three texts of the command, as they
/// were handed in.
pub proof fn lemma_calls_pass_the_command_on(state: LoaderState, event: LoaderEvent)
    ensures
        after(state, event).command == state.command,
        pending(state) matches ActionView::CallMatch { arguments } ==> arguments == state.command,
        pending(state) matches ActionView::CallFix { arguments } ==> arguments == state.command,
{
}

/// A file that is turned away at the security check gives no correction, whatever its
/// other answers are.
pub proof fn lemma_denied_file_gives_nothing(root: Seq<char>, rule: RecordedRule)
    requires
        !is_allowed(rule.answers.stat, rule.answers.current_uid),
    ensures
        contribution(root, rule) is None,
{
}

/// A file whose `match` says yes and whose `fix` returns a string gives
/// exactly that string.
pub proof fn lemma_matching_file_gives_its_fix(root: Seq<char>, rule: RecordedRule, fix: String)
    requires
        is_allowed(rule.answers.stat, rule.answers.current_uid),
        module_name(root, rule.path@) is Some,
        rule.answers.imported is Ok,
        rule.answers.has_match,
        rule.answers.has_fix,
        rule.answers.matched == Ok::<bool, String>(true),
        rule.answers.fixed == Ok::<String, String>(fix),
    ensures
        contribution(root, rule) == Some(fix@),
{
}

/// A file whose `match` says no, or fails, gives nothing, and so does a file
/// that lacks one of the two functions.
pub proof fn lemma_other_files_give_nothing(root: Seq<char>, rule: RecordedRule)
    requires
        rule.answers.matched != Ok::<bool, String>(true) || !rule.answers.has_match
            || !rule.answers.has_fix,
    ensures
        contribution(root, rule) is None,
{
}

/// The files of a batch do not touch each other: the corrections of a batch
/// are those of its first files followed by those of the rest.
pub proof fn lemma_batch_fixes_in_order(
    root: Seq<char>,
    first: Seq<RecordedRule>,
    rest: Seq<RecordedRule>,
)
    ensures
        batch_fixes(root, first + rest) == batch_fixes(root, first) + batch_fixes(root, rest),
    decreases rest.len(),
{
    if rest.len() == 0 {
        assert(first + rest == first);
    } else {
        lemma_batch_fixes_in_order(root, first, rest.drop_last());
        assert((first + rest).drop_last() == first + rest.drop_last());
        assert((first + rest).last() == rest.last());
    }
}

/// An empty batch is finished before anything is asked for, and gives no
/// correction.
pub proof fn lemma_empty_batch_gives_nothing(command: CommandText, root: Seq<char>)
    ensures
        pending(initial_state(command, Seq::empty())) is Finish,
        initial_state(command, Seq::empty()).fixes.len() == 0,
        batch_fixes(root, Seq::empty()).len() == 0,
{
}

/// In a batch that has a common directory, every path begins with it, so a
/// file is without a module name only where its path is that directory
/// itself or does not end in a file name. The directory of the batch is
/// never imported as a module of its own.
pub proof fn lemma_module_name_needs_a_file_name_only(state: LoaderState)
    requires
        well_formed(state),
        state.position < state.paths.len(),
    ensures
        module_name(state.root, state.paths[state.position as int]) is Some <==> file_name(
            state.paths[state.position as int],
        ) is Some && components(state.paths[state.position as int]).len() > components(
            state.root,
        ).len(),
{
    lemma_common_parent_is_above_all(state.paths, state.position as int);
}

/// Whether `event` answers what the engine asks for in `state`.
pub open spec fn is_answer(state: LoaderState, event: LoaderEvent) -> bool {
    match (state.phase, event) {
        (Phase::AddingRoot, LoaderEvent::RootAdded) => true,
        (Phase::Inspecting, LoaderEvent::Inspected { .. }) => true,
        (Phase::Importing, LoaderEvent::Imported { .. }) => true,
        (Phase::Resolving, LoaderEvent::Resolved { .. }) => true,
        (Phase::Matching, LoaderEvent::MatchReturned { .. }) => true,
        (Phase::Fixing, LoaderEvent::FixReturned { .. }) => true,
        _ => false,
    }
}

/// How many answers the engine can still take at most.
pub open spec fn steps_left(state: LoaderState) -> int {
    let files_left = state.paths.len() - state.position;
    match state.phase {
        Phase::AddingRoot => 6 * files_left + 6,
        Phase::Inspecting => 6 * files_left + 5,
        Phase::Importing => 6 * files_left + 4,
        Phase::Resolving => 6 * files_left + 3,
        Phase::Matching => 6 * files_left + 2,
        Phase::Fixing => 6 * files_left + 1,
        Phase::Finished => 0,
    }
}

/// Every answer brings the batch nearer to its end, whatever it says, and
/// anything else leaves the state as it is: no answer of one file can end
/// or stall the batch.
pub proof fn lemma_every_answer_moves_on(state: LoaderState, event: LoaderEvent)
    requires
        well_formed(state),
    ensures
        is_answer(state, event) ==> 0 <= steps_left(after(state, event)) < steps_left(state),
        !is_answer(state, event) ==> after(state, event) == state,
        steps_left(state) == 0 <==> pending(state) is Finish,
{
}

/// The directory of the batch is put on the search path once, before the
/// first file: no step leads back to that request.
pub proof fn lemma_root_is_added_once(state: LoaderState, event: LoaderEvent)
    requires
        well_formed(state),
        pending(after(state, event)) is AddSearchRoot,
    ensures
        state.phase is AddingRoot,
        !is_answer(state, event),
        state.position == 0,
{
}

} // verus!
