//! Running tasks.
use crate::args::{applied, CommonArgs};
use crate::config::{AsstConfig, Preset};
use crate::connect::{ensure_connection_supported, is_supported};
use crate::maacore::{next_setup_step, setup_core, SetupStep};
use crate::platform::Platform;
use crate::profile::{
    find_profile, first_place, first_search, profile_step, Lookup, ProfileSearch, ProfileStep,
};
use vstd::prelude::*;

verus! {

/// How long to wait between two looks at whether tasks still run, in milliseconds.
pub const POLL_INTERVAL: u64 = 100;

/// Where the tasks come from.
#[derive(Debug, PartialEq, Eq)]
pub enum TaskSource {
    /// They are built from the configuration.
    Built,
    /// They are in a file.
    File(String),
}

/// A task, as far as it is handed over and summed up.
#[derive(Debug, PartialEq, Eq)]
pub struct TaskInfo {
    /// What the user calls it.
    pub name: Option<String>,
    /// What MaaCore calls it.
    pub task_type: String,
}

impl Clone for TaskInfo {
    fn clone(&self) -> (task: Self)
        ensures
            task == *self,
    {
        TaskInfo {
            name: match &self.name {
                Some(name) => Some(name.clone()),
                None => None,
            },
            task_type: self.task_type.clone(),
        }
    }
}

/// What is known of the tasks once they are built.
#[derive(Debug, PartialEq, Eq)]
pub struct TaskPlan {
    /// The client that the tasks are for.
    pub client_type: String,
    /// The resource that the client needs besides the common ones.
    pub global_resource: Option<String>,
    pub tasks: Vec<TaskInfo>,
    pub start_app: bool,
    pub close_app: bool,
}

/// A program that hosts the game and is started and closed with it.
#[derive(Clone, Copy, Debug, PartialEq, Eq, Structural)]
pub enum ExternalApp {
    PlayCover,
    Waydroid,
}

/// A call that can fail.
#[derive(Clone, Copy, Debug, PartialEq, Eq, Structural)]
pub enum RunCall {
    UpdateHotResource,
    UpdateResource,
    FindNamedProfile,
    FindProfile,
    BuildTasks,
    FindTaskFile,
    InitTasks,
    LoadCore,
    SetupCore(SetupStep),
    RegisterSignals,
    CreateAssistant,
    ApplyInstanceOptions,
    SetClientType,
    SerializeTask(usize),
    AppendTask(usize),
    OpenApp,
    Connect,
    StartCore,
    StopCore,
    CloseApp,
}

/// Why a run failed.
#[derive(Clone, Copy, Debug, PartialEq, Eq, Structural)]
pub enum RunError {
    /// This call failed.
    Call(RunCall),
    /// There are no such connections on this platform.
    Unsupported,
    /// The user asked to stop.
    Interrupted,
    /// MaaCore reported an error while tasks ran.
    CoreErrored,
}

/// A step of a run.
#[derive(Debug, PartialEq, Eq)]
pub enum RunStep {
    UpdateHotResource,
    UpdateResource,
    /// Look for a profile in this place.
    FindProfile(ProfileSearch),
    TakeBuiltInProfile,
    /// Build the tasks from the configuration.
    BuildTasks,
    /// Look for the task file among the configured ones.
    ResolveTaskPath,
    /// Load the task file at this path.
    LoadTaskFile(String),
    /// Build the tasks from the task file.
    InitTasks,
    PrepareForWin32,
    UseGlobalResource(String),
    LoadCore,
    SetupCore(SetupStep),
    RegisterSignals,
    CreateAssistant { auto_reconnect: bool },
    ApplyInstanceOptions,
    /// Tell MaaCore which client the tasks are for.
    SetClientType(String),
    /// Write out the parameters of the MaaCore task at this index.
    SerializeTask(usize),
    /// Hand the MaaCore task at this index over, by its type and with its parameters as they were
    /// written out.
    AppendTask { index: usize, task_type: String, params: String },
    /// Take the MaaCore task at this index up in the summary, under its number.
    RecordTask { index: usize, id: i32, task: TaskInfo },
    InitSummary,
    OpenApp { app: ExternalApp, start_app: bool },
    /// Connect, to this address where it is known.
    Connect { address: Option<String> },
    StartCore,
    /// Look whether tasks still run.
    Poll,
    /// Wait for [`POLL_INTERVAL`].
    Sleep,
    StopCore,
    CloseApp(ExternalApp),
    ReleaseSignals,
    DisplaySummary { result: Result<(), RunError> },
    Finished { result: Result<(), RunError> },
}

/// What came of a step of a run.
#[derive(Debug, PartialEq, Eq)]
pub enum RunEvent {
    Done,
    Failed,
    /// A profile was found, with this configuration.
    Profile(AsstConfig),
    ProfileMissing,
    /// Where the task file is among the configured ones, if it is there.
    TaskPath(Option<String>),
    Tasks(TaskPlan),
    /// The parameters of the task, written out.
    Serialized(String),
    /// The task has this number at MaaCore.
    Appended(i32),
    /// The program is open, and reachable at this address where it is known.
    Opened(Option<String>),
    Status { running: bool, interrupted: bool, offline: bool },
    Displayed { core_errored: bool },
}

/// What a run has come to know.
#[derive(Debug, PartialEq, Eq)]
pub struct RunFacts {
    pub args: CommonArgs,
    pub platform: Platform,
    pub source: TaskSource,
    /// The configuration, with the arguments applied to it.
    pub config: Option<AsstConfig>,
    pub tasks: Option<TaskPlan>,
}

/// How far a run has come.
#[derive(Debug, PartialEq, Eq)]
pub struct Run {
    pub facts: RunFacts,
    pub step: RunStep,
}

/// Whether `step` is taken before the configuration is known, or once the run is over.
pub open spec fn needs_no_config(step: RunStep) -> bool {
    ||| step is UpdateHotResource
    ||| step is UpdateResource
    ||| step is FindProfile
    ||| step is TakeBuiltInProfile
    ||| step is DisplaySummary
    ||| step is Finished
}

/// Whether `step` is taken before the tasks are known, or once the run is over.
pub open spec fn needs_no_tasks(step: RunStep) -> bool {
    ||| needs_no_config(step)
    ||| step is BuildTasks
    ||| step is ResolveTaskPath
    ||| step is LoadTaskFile
    ||| step is InitTasks
    ||| step is PrepareForWin32
}

/// The task that `step` is about.
pub open spec fn task_of(step: RunStep) -> Option<usize> {
    match step {
        RunStep::SerializeTask(index) => Some(index),
        RunStep::AppendTask { index, .. } => Some(index),
        RunStep::RecordTask { index, .. } => Some(index),
        _ => None,
    }
}

impl Run {
    /// What the step depends on is known.
    pub open spec fn well_formed(self) -> bool {
        &&& needs_no_config(self.step) || self.facts.config is Some
        &&& needs_no_tasks(self.step) || self.facts.tasks is Some
        &&& task_of(self.step) matches Some(index) ==> index < self.facts.tasks->0.tasks@.len()
        &&& self.step is ResolveTaskPath ==> self.facts.source is File
    }
}

/// The call of `step` that can fail, if it makes one.
pub open spec fn call_of(step: RunStep) -> Option<RunCall> {
    match step {
        RunStep::UpdateHotResource => Some(RunCall::UpdateHotResource),
        RunStep::UpdateResource => Some(RunCall::UpdateResource),
        RunStep::FindProfile(ProfileSearch::Named(_)) => Some(RunCall::FindNamedProfile),
        RunStep::FindProfile(_) => Some(RunCall::FindProfile),
        RunStep::BuildTasks => Some(RunCall::BuildTasks),
        RunStep::LoadTaskFile(_) => Some(RunCall::FindTaskFile),
        RunStep::InitTasks => Some(RunCall::InitTasks),
        RunStep::LoadCore => Some(RunCall::LoadCore),
        RunStep::SetupCore(step) => Some(RunCall::SetupCore(step)),
        RunStep::RegisterSignals => Some(RunCall::RegisterSignals),
        RunStep::CreateAssistant { .. } => Some(RunCall::CreateAssistant),
        RunStep::ApplyInstanceOptions => Some(RunCall::ApplyInstanceOptions),
        RunStep::SetClientType(_) => Some(RunCall::SetClientType),
        RunStep::SerializeTask(index) => Some(RunCall::SerializeTask(index)),
        RunStep::AppendTask { index, .. } => Some(RunCall::AppendTask(index)),
        RunStep::OpenApp { .. } => Some(RunCall::OpenApp),
        RunStep::Connect { .. } => Some(RunCall::Connect),
        RunStep::StartCore => Some(RunCall::StartCore),
        RunStep::StopCore => Some(RunCall::StopCore),
        RunStep::CloseApp(_) => Some(RunCall::CloseApp),
        _ => None,
    }
}

/// The program that hosts the game, on the platform that has it.
pub open spec fn hosting_app(preset: Preset, platform: Platform) -> Option<ExternalApp> {
    match (preset, platform) {
        (Preset::PlayCover, Platform::MacOs) => Some(ExternalApp::PlayCover),
        (Preset::Waydroid, Platform::Linux) => Some(ExternalApp::Waydroid),
        _ => None,
    }
}

/// The end of a run that failed by `error`: what is left is the summary.
pub open spec fn failed_by(error: RunError) -> RunStep {
    RunStep::DisplaySummary { result: Err(error) }
}

/// The first step that is taken for the tasks.
pub open spec fn first_task_step(source: TaskSource) -> RunStep {
    match source {
        TaskSource::Built => RunStep::BuildTasks,
        TaskSource::File(_) => RunStep::ResolveTaskPath,
    }
}

/// The step behind having the tasks ready.
pub open spec fn step_with_tasks(tasks: TaskPlan) -> RunStep {
    match tasks.global_resource {
        Some(resource) => RunStep::UseGlobalResource(resource),
        None => RunStep::LoadCore,
    }
}

/// The step behind having handed over the tasks: to run them, unless that is not asked for.
pub open spec fn step_to_run(facts: RunFacts) -> RunStep {
    if facts.args.dry_run {
        RunStep::ReleaseSignals
    } else {
        match hosting_app(facts.config->0.connection.preset, facts.platform) {
            Some(app) => RunStep::OpenApp { app, start_app: facts.tasks->0.start_app },
            None => RunStep::Connect { address: None },
        }
    }
}

/// The step for the task at `index`, or behind the tasks if there is none.
pub open spec fn step_for_task(facts: RunFacts, index: int) -> RunStep {
    if index < facts.tasks->0.tasks@.len() {
        RunStep::SerializeTask(index as usize)
    } else if facts.args.no_summary {
        step_to_run(facts)
    } else {
        RunStep::InitSummary
    }
}

/// The step behind having stopped.
pub open spec fn step_behind_stop(facts: RunFacts) -> RunStep {
    match hosting_app(facts.config->0.connection.preset, facts.platform) {
        Some(app) => if facts.tasks->0.close_app {
            RunStep::CloseApp(app)
        } else {
            RunStep::ReleaseSignals
        },
        None => RunStep::ReleaseSignals,
    }
}

/// The facts once `event` has answered `step`.
pub open spec fn next_facts(facts: RunFacts, step: RunStep, event: RunEvent) -> RunFacts {
    match (step, event) {
        (RunStep::FindProfile(_), RunEvent::Profile(config)) => RunFacts {
            config: Some(applied(facts.args, config)),
            ..facts
        },
        (RunStep::TakeBuiltInProfile, RunEvent::Profile(config)) => RunFacts {
            config: Some(applied(facts.args, config)),
            ..facts
        },
        (RunStep::BuildTasks, RunEvent::Tasks(tasks)) => RunFacts { tasks: Some(tasks), ..facts },
        (RunStep::InitTasks, RunEvent::Tasks(tasks)) => RunFacts { tasks: Some(tasks), ..facts },
        (RunStep::PrepareForWin32, RunEvent::Tasks(tasks)) => RunFacts {
            tasks: Some(tasks),
            ..facts
        },
        _ => facts,
    }
}

/// The step that follows once `event` has answered `step`, where `facts` are known by then. An
/// event that does not answer the step leaves it.
pub open spec fn next_step(facts: RunFacts, step: RunStep, event: RunEvent) -> RunStep {
    match (step, event) {
        (step, RunEvent::Failed) => match call_of(step) {
            Some(call) => failed_by(RunError::Call(call)),
            None => step,
        },
        (RunStep::UpdateHotResource, RunEvent::Done) => RunStep::UpdateResource,
        (RunStep::UpdateResource, RunEvent::Done) => {
            RunStep::FindProfile(first_place(facts.args.profile))
        },
        (RunStep::FindProfile(place), RunEvent::ProfileMissing) => {
            match profile_step(place, Lookup::Missing) {
                ProfileStep::Search(next) => RunStep::FindProfile(next),
                ProfileStep::TakeBuiltIn => RunStep::TakeBuiltInProfile,
                _ => failed_by(RunError::Call(RunCall::FindNamedProfile)),
            }
        },
        (RunStep::FindProfile(_), RunEvent::Profile(_)) => step_with_config(facts),
        (RunStep::TakeBuiltInProfile, RunEvent::Profile(_)) => step_with_config(facts),
        (RunStep::ResolveTaskPath, RunEvent::TaskPath(path)) => RunStep::LoadTaskFile(
            match path {
                Some(path) => path,
                None => facts.source->File_0,
            },
        ),
        (RunStep::LoadTaskFile(_), RunEvent::Done) => RunStep::InitTasks,
        (RunStep::BuildTasks, RunEvent::Tasks(tasks)) => step_with_new_tasks(facts, tasks),
        (RunStep::InitTasks, RunEvent::Tasks(tasks)) => step_with_new_tasks(facts, tasks),
        (RunStep::PrepareForWin32, RunEvent::Tasks(tasks)) => step_with_tasks(tasks),
        (RunStep::UseGlobalResource(_), RunEvent::Done) => RunStep::LoadCore,
        (RunStep::LoadCore, RunEvent::Done) => RunStep::SetupCore(SetupStep::EnsureStateDirectory),
        (RunStep::SetupCore(step), RunEvent::Done) => match next_setup_step(step) {
            Some(next) => RunStep::SetupCore(next),
            None => RunStep::RegisterSignals,
        },
        (RunStep::RegisterSignals, RunEvent::Done) => RunStep::CreateAssistant {
            auto_reconnect: facts.config->0.behavior.auto_reconnect
                && !facts.args.no_auto_reconnect,
        },
        (RunStep::CreateAssistant { .. }, RunEvent::Done) => RunStep::ApplyInstanceOptions,
        (RunStep::ApplyInstanceOptions, RunEvent::Done) => {
            RunStep::SetClientType(facts.tasks->0.client_type)
        },
        (RunStep::SetClientType(_), RunEvent::Done) => step_for_task(facts, 0),
        (RunStep::SerializeTask(index), RunEvent::Serialized(params)) => RunStep::AppendTask {
            index,
            task_type: facts.tasks->0.tasks@[index as int].task_type,
            params,
        },
        (RunStep::AppendTask { index, .. }, RunEvent::Appended(id)) => if facts.args.no_summary {
            step_for_task(facts, index + 1)
        } else {
            RunStep::RecordTask { index, id, task: facts.tasks->0.tasks@[index as int] }
        },
        (RunStep::RecordTask { index, .. }, RunEvent::Done) => step_for_task(facts, index + 1),
        (RunStep::InitSummary, RunEvent::Done) => step_to_run(facts),
        (RunStep::OpenApp { .. }, RunEvent::Opened(address)) => RunStep::Connect { address },
        (RunStep::Connect { .. }, RunEvent::Done) => RunStep::StartCore,
        (RunStep::StartCore, RunEvent::Done) => RunStep::Poll,
        (RunStep::Poll, RunEvent::Status { running, interrupted, offline }) => if !running {
            RunStep::StopCore
        } else if interrupted {
            failed_by(RunError::Interrupted)
        } else if offline {
            RunStep::StopCore
        } else {
            RunStep::Sleep
        },
        (RunStep::Sleep, RunEvent::Done) => RunStep::Poll,
        (RunStep::StopCore, RunEvent::Done) => step_behind_stop(facts),
        (RunStep::CloseApp(_), RunEvent::Done) => RunStep::ReleaseSignals,
        (RunStep::ReleaseSignals, RunEvent::Done) => RunStep::DisplaySummary { result: Ok(()) },
        (step, _) => step,
    }
}

/// The step behind having the configuration: the connection has to be one that there is.
pub open spec fn step_with_config(facts: RunFacts) -> RunStep {
    if is_supported(facts.config->0.connection.preset, facts.platform) {
        first_task_step(facts.source)
    } else {
        failed_by(RunError::Unsupported)
    }
}

/// The step behind having built the tasks: they are changed for a window, where it is one.
pub open spec fn step_with_new_tasks(facts: RunFacts, tasks: TaskPlan) -> RunStep {
    if facts.config->0.connection.preset == Preset::Win32 {
        RunStep::PrepareForWin32
    } else {
        step_with_tasks(tasks)
    }
}

/// How far a run has come once `event` has come in, up to its summary.
pub open spec fn core_next(run: Run, event: RunEvent) -> Run {
    let facts = next_facts(run.facts, run.step, event);
    Run { facts, step: next_step(facts, run.step, event) }
}

/// The result of a run, once its summary was displayed: an error that MaaCore reported counts
/// where there was no other.
pub open spec fn verdict(result: Result<(), RunError>, core_errored: bool) -> Result<(), RunError> {
    match result {
        Err(error) => Err(error),
        Ok(()) => if core_errored {
            Err(RunError::CoreErrored)
        } else {
            Ok(())
        },
    }
}

/// How far a run has come once `event` has come in.
pub open spec fn run_next(run: Run, event: RunEvent) -> Run {
    match (run.step, event) {
        (RunStep::DisplaySummary { result }, RunEvent::Displayed { core_errored }) => Run {
            step: RunStep::Finished { result: verdict(result, core_errored) },
            ..run
        },
        _ => core_next(run, event),
    }
}

fn failing_call(step: &RunStep) -> (call: Option<RunCall>)
    ensures
        call == call_of(*step),
{
    match step {
        RunStep::UpdateHotResource => Some(RunCall::UpdateHotResource),
        RunStep::UpdateResource => Some(RunCall::UpdateResource),
        RunStep::FindProfile(place) => match find_profile(place, Lookup::Failed) {
            ProfileStep::NamedNotFound => Some(RunCall::FindNamedProfile),
            _ => Some(RunCall::FindProfile),
        },
        RunStep::BuildTasks => Some(RunCall::BuildTasks),
        RunStep::LoadTaskFile(_) => Some(RunCall::FindTaskFile),
        RunStep::InitTasks => Some(RunCall::InitTasks),
        RunStep::LoadCore => Some(RunCall::LoadCore),
        RunStep::SetupCore(step) => Some(RunCall::SetupCore(*step)),
        RunStep::RegisterSignals => Some(RunCall::RegisterSignals),
        RunStep::CreateAssistant { .. } => Some(RunCall::CreateAssistant),
        RunStep::ApplyInstanceOptions => Some(RunCall::ApplyInstanceOptions),
        RunStep::SetClientType(_) => Some(RunCall::SetClientType),
        RunStep::SerializeTask(index) => Some(RunCall::SerializeTask(*index)),
        RunStep::AppendTask { index, .. } => Some(RunCall::AppendTask(*index)),
        RunStep::OpenApp { .. } => Some(RunCall::OpenApp),
        RunStep::Connect { .. } => Some(RunCall::Connect),
        RunStep::StartCore => Some(RunCall::StartCore),
        RunStep::StopCore => Some(RunCall::StopCore),
        RunStep::CloseApp(_) => Some(RunCall::CloseApp),
        _ => None,
    }
}

/// The program that hosts the game, if there is one on this platform.
pub fn external_app(preset: Preset, platform: Platform) -> (app: Option<ExternalApp>)
    ensures
        app == hosting_app(preset, platform),
{
    match (preset, platform) {
        (Preset::PlayCover, Platform::MacOs) => Some(ExternalApp::PlayCover),
        (Preset::Waydroid, Platform::Linux) => Some(ExternalApp::Waydroid),
        _ => None,
    }
}

fn fail(error: RunError) -> (step: RunStep)
    ensures
        step == failed_by(error),
{
    RunStep::DisplaySummary { result: Err(error) }
}

impl RunFacts {
    fn app(&self) -> (app: Option<ExternalApp>)
        requires
            self.config is Some,
        ensures
            app == hosting_app(self.config->0.connection.preset, self.platform),
    {
        match &self.config {
            Some(config) => external_app(config.connection.preset(), self.platform),
            None => None,
        }
    }

    fn task_count(&self) -> (count: usize)
        requires
            self.tasks is Some,
        ensures
            count == self.tasks->0.tasks@.len(),
    {
        match &self.tasks {
            Some(plan) => plan.tasks.len(),
            None => 0,
        }
    }

    fn task(&self, index: usize) -> (task: TaskInfo)
        requires
            self.tasks is Some,
            index < self.tasks->0.tasks@.len(),
        ensures
            task == self.tasks->0.tasks@[index as int],
    {
        match &self.tasks {
            Some(plan) => plan.tasks[index].clone(),
            None => TaskInfo { name: None, task_type: String::new() },
        }
    }

    fn client_type(&self) -> (client_type: String)
        requires
            self.tasks is Some,
        ensures
            client_type == self.tasks->0.client_type,
    {
        match &self.tasks {
            Some(plan) => plan.client_type.clone(),
            None => String::new(),
        }
    }

    fn to_run(&self) -> (step: RunStep)
        requires
            self.config is Some,
            self.tasks is Some,
        ensures
            step == step_to_run(*self),
    {
        if self.args.dry_run {
            return RunStep::ReleaseSignals;
        }
        match (self.app(), &self.tasks) {
            (Some(app), Some(tasks)) => RunStep::OpenApp { app, start_app: tasks.start_app },
            _ => RunStep::Connect { address: None },
        }
    }

    fn for_task(&self, index: usize) -> (step: RunStep)
        requires
            self.config is Some,
            self.tasks is Some,
        ensures
            step == step_for_task(*self, index as int),
    {
        if index < self.task_count() {
            RunStep::SerializeTask(index)
        } else if self.args.no_summary {
            self.to_run()
        } else {
            RunStep::InitSummary
        }
    }

    fn behind_task(&self, index: usize) -> (step: RunStep)
        requires
            self.config is Some,
            self.tasks is Some,
            index < self.tasks->0.tasks@.len(),
        ensures
            step == step_for_task(*self, index + 1),
    {
        let count: usize = self.task_count();
        assert(index < count);
        self.for_task(index + 1)
    }

    fn behind_stop(&self) -> (step: RunStep)
        requires
            self.config is Some,
            self.tasks is Some,
        ensures
            step == step_behind_stop(*self),
    {
        match (self.app(), &self.tasks) {
            (Some(app), Some(tasks)) => if tasks.close_app {
                RunStep::CloseApp(app)
            } else {
                RunStep::ReleaseSignals
            },
            _ => RunStep::ReleaseSignals,
        }
    }

    fn with_config(self, config: AsstConfig) -> (run: Run)
        ensures
            ({
                let facts = RunFacts { config: Some(applied(self.args, config)), ..self };
                run == Run { facts, step: step_with_config(facts) }
            }),
    {
        let RunFacts { args, platform, source, config: _, tasks } = self;
        let mut config = config;
        args.apply_to(&mut config);
        let step = match ensure_connection_supported(&config.connection, platform) {
            Ok(()) => match &source {
                TaskSource::Built => RunStep::BuildTasks,
                TaskSource::File(_) => RunStep::ResolveTaskPath,
            },
            Err(_) => fail(RunError::Unsupported),
        };
        Run { facts: RunFacts { args, platform, source, config: Some(config), tasks }, step }
    }

    fn with_tasks(self, tasks: TaskPlan) -> (run: Run)
        ensures
            run == (Run {
                facts: RunFacts { tasks: Some(tasks), ..self },
                step: step_with_tasks(tasks),
            }),
    {
        let step = match &tasks.global_resource {
            Some(resource) => RunStep::UseGlobalResource(resource.clone()),
            None => RunStep::LoadCore,
        };
        let RunFacts { args, platform, source, config, tasks: _ } = self;
        Run { facts: RunFacts { args, platform, source, config, tasks: Some(tasks) }, step }
    }

    fn with_new_tasks(self, tasks: TaskPlan) -> (run: Run)
        requires
            self.config is Some,
        ensures
            run == (Run {
                facts: RunFacts { tasks: Some(tasks), ..self },
                step: step_with_new_tasks(self, tasks),
            }),
    {
        let preset: Preset = match &self.config {
            Some(config) => config.connection.preset(),
            None => Preset::Adb,
        };
        match preset {
            Preset::Win32 => {
                let RunFacts { args, platform, source, config, tasks: _ } = self;
                Run {
                    facts: RunFacts { args, platform, source, config, tasks: Some(tasks) },
                    step: RunStep::PrepareForWin32,
                }
            },
            _ => self.with_tasks(tasks),
        }
    }

    fn auto_reconnect(&self) -> (auto_reconnect: bool)
        requires
            self.config is Some,
        ensures
            auto_reconnect == (self.config->0.behavior.auto_reconnect
                && !self.args.no_auto_reconnect),
    {
        match &self.config {
            Some(config) => config.behavior.auto_reconnect && !self.args.no_auto_reconnect,
            None => false,
        }
    }

    fn task_file(&self) -> (path: String)
        requires
            self.source is File,
        ensures
            path == self.source->File_0,
    {
        match &self.source {
            TaskSource::File(path) => path.clone(),
            TaskSource::Built => String::new(),
        }
    }
}

/// Takes a run from one step to the next, up to its summary.
pub fn run_core(run: Run, event: RunEvent) -> (next: Run)
    requires
        run.well_formed(),
    ensures
        next == core_next(run, event),
        next.well_formed(),
{
    let Run { facts, step } = run;
    match (step, event) {
        (step, RunEvent::Failed) => {
            let step = match failing_call(&step) {
                Some(call) => fail(RunError::Call(call)),
                None => step,
            };
            Run { facts, step }
        },
        (RunStep::UpdateHotResource, RunEvent::Done) => {
            Run { facts, step: RunStep::UpdateResource }
        },
        (RunStep::UpdateResource, RunEvent::Done) => {
            let place = first_search(&facts.args.profile);
            Run { facts, step: RunStep::FindProfile(place) }
        },
        (RunStep::FindProfile(place), RunEvent::ProfileMissing) => {
            let step = match find_profile(&place, Lookup::Missing) {
                ProfileStep::Search(next) => RunStep::FindProfile(next),
                ProfileStep::TakeBuiltIn => RunStep::TakeBuiltInProfile,
                _ => fail(RunError::Call(RunCall::FindNamedProfile)),
            };
            Run { facts, step }
        },
        (RunStep::FindProfile(_), RunEvent::Profile(config)) => facts.with_config(config),
        (RunStep::TakeBuiltInProfile, RunEvent::Profile(config)) => facts.with_config(config),
        (RunStep::ResolveTaskPath, RunEvent::TaskPath(path)) => {
            let path = match path {
                Some(path) => path,
                None => facts.task_file(),
            };
            Run { facts, step: RunStep::LoadTaskFile(path) }
        },
        (RunStep::LoadTaskFile(_), RunEvent::Done) => Run { facts, step: RunStep::InitTasks },
        (RunStep::BuildTasks, RunEvent::Tasks(tasks)) => facts.with_new_tasks(tasks),
        (RunStep::InitTasks, RunEvent::Tasks(tasks)) => facts.with_new_tasks(tasks),
        (RunStep::PrepareForWin32, RunEvent::Tasks(tasks)) => facts.with_tasks(tasks),
        (RunStep::UseGlobalResource(_), RunEvent::Done) => Run { facts, step: RunStep::LoadCore },
        (RunStep::LoadCore, RunEvent::Done) => {
            Run { facts, step: RunStep::SetupCore(SetupStep::EnsureStateDirectory) }
        },
        (RunStep::SetupCore(step), RunEvent::Done) => {
            let step = match setup_core(step) {
                Some(next) => RunStep::SetupCore(next),
                None => RunStep::RegisterSignals,
            };
            Run { facts, step }
        },
        (RunStep::RegisterSignals, RunEvent::Done) => {
            let auto_reconnect: bool = facts.auto_reconnect();
            Run { facts, step: RunStep::CreateAssistant { auto_reconnect } }
        },
        (RunStep::CreateAssistant { .. }, RunEvent::Done) => {
            Run { facts, step: RunStep::ApplyInstanceOptions }
        },
        (RunStep::ApplyInstanceOptions, RunEvent::Done) => {
            let client_type = facts.client_type();
            Run { facts, step: RunStep::SetClientType(client_type) }
        },
        (RunStep::SetClientType(_), RunEvent::Done) => {
            let step = facts.for_task(0);
            Run { facts, step }
        },
        (RunStep::SerializeTask(index), RunEvent::Serialized(params)) => {
            let task_type = facts.task(index).task_type;
            Run { facts, step: RunStep::AppendTask { index, task_type, params } }
        },
        (RunStep::AppendTask { index, .. }, RunEvent::Appended(id)) => {
            let step = if facts.args.no_summary {
                facts.behind_task(index)
            } else {
                let task = facts.task(index);
                RunStep::RecordTask { index, id, task }
            };
            Run { facts, step }
        },
        (RunStep::RecordTask { index, .. }, RunEvent::Done) => {
            let step = facts.behind_task(index);
            Run { facts, step }
        },
        (RunStep::InitSummary, RunEvent::Done) => {
            let step = facts.to_run();
            Run { facts, step }
        },
        (RunStep::OpenApp { .. }, RunEvent::Opened(address)) => {
            Run { facts, step: RunStep::Connect { address } }
        },
        (RunStep::Connect { .. }, RunEvent::Done) => Run { facts, step: RunStep::StartCore },
        (RunStep::StartCore, RunEvent::Done) => Run { facts, step: RunStep::Poll },
        (RunStep::Poll, RunEvent::Status { running, interrupted, offline }) => {
            let step = if !running {
                RunStep::StopCore
            } else if interrupted {
                fail(RunError::Interrupted)
            } else if offline {
                RunStep::StopCore
            } else {
                RunStep::Sleep
            };
            Run { facts, step }
        },
        (RunStep::Sleep, RunEvent::Done) => Run { facts, step: RunStep::Poll },
        (RunStep::StopCore, RunEvent::Done) => {
            let step = facts.behind_stop();
            Run { facts, step }
        },
        (RunStep::CloseApp(_), RunEvent::Done) => Run { facts, step: RunStep::ReleaseSignals },
        (RunStep::ReleaseSignals, RunEvent::Done) => {
            Run { facts, step: RunStep::DisplaySummary { result: Ok(()) } }
        },
        (step, _) => Run { facts, step },
    }
}

/// Takes a run from one step to the next. Its summary is displayed however it went.
pub fn run(current: Run, event: RunEvent) -> (next: Run)
    requires
        current.well_formed(),
    ensures
        next == run_next(current, event),
        next.well_formed(),
{
    let Run { facts, step } = current;
    match (step, event) {
        (RunStep::DisplaySummary { result }, RunEvent::Displayed { core_errored }) => {
            let result = match result {
                Err(error) => Err(error),
                Ok(()) => if core_errored {
                    Err(RunError::CoreErrored)
                } else {
                    Ok(())
                },
            };
            Run { facts, step: RunStep::Finished { result } }
        },
        (step, event) => run_core(Run { facts, step }, event),
    }
}

/// The start of a run of the tasks from `source`.
pub open spec fn started(source: TaskSource, args: CommonArgs, platform: Platform) -> Run {
    Run {
        facts: RunFacts { args, platform, source, config: None, tasks: None },
        step: RunStep::UpdateHotResource,
    }
}

fn start(source: TaskSource, args: CommonArgs, platform: Platform) -> (run: Run)
    ensures
        run == started(source, args, platform),
        run.well_formed(),
{
    Run {
        facts: RunFacts { args, platform, source, config: None, tasks: None },
        step: RunStep::UpdateHotResource,
    }
}

/// Starts a run of tasks that are built from the configuration.
pub fn run_preset(args: CommonArgs, platform: Platform) -> (run: Run)
    ensures
        run == started(TaskSource::Built, args, platform),
        run.well_formed(),
{
    start(TaskSource::Built, args, platform)
}

/// Starts a run of the tasks in the file at `path`.
pub fn run_custom(path: String, args: CommonArgs, platform: Platform) -> (run: Run)
    ensures
        run == started(TaskSource::File(path), args, platform),
        run.well_formed(),
{
    start(TaskSource::File(path), args, platform)
}

/// What is said besides the cause where `call` failed.
pub open spec fn call_context(call: RunCall) -> Option<Seq<char>> {
    match call {
        RunCall::FindNamedProfile => Some("Failed to find profile file!"@),
        RunCall::FindTaskFile => Some("Failed to find task file!"@),
        RunCall::InitTasks => Some("Failed to initialize task config!"@),
        RunCall::LoadCore => Some("Failed to load MaaCore!"@),
        RunCall::SetupCore(SetupStep::SetUserDirectory) => Some("Failed to set user directory!"@),
        RunCall::RegisterSignals => Some("Failed to register signal handler!"@),
        RunCall::CreateAssistant => {
            Some("Failed to create Assistant: resources may not be loaded"@)
        },
        RunCall::SetClientType => Some("Failed to set client type"@),
        RunCall::CloseApp => Some("Failed to close external app"@),
        _ => None,
    }
}

impl RunCall {
    /// Says what failed, where the cause alone would not. What is said of a task that could not
    /// be handed over depends on the task: see [`append_task_context`].
    pub fn context(&self) -> (context: Option<&'static str>)
        ensures
            context is Some <==> call_context(*self) is Some,
            context matches Some(context) ==> context@ == call_context(*self)->0,
    {
        match self {
            RunCall::FindNamedProfile => Some("Failed to find profile file!"),
            RunCall::FindTaskFile => Some("Failed to find task file!"),
            RunCall::InitTasks => Some("Failed to initialize task config!"),
            RunCall::LoadCore => Some("Failed to load MaaCore!"),
            RunCall::SetupCore(SetupStep::SetUserDirectory) => {
                Some("Failed to set user directory!")
            },
            RunCall::RegisterSignals => Some("Failed to register signal handler!"),
            RunCall::CreateAssistant => {
                Some("Failed to create Assistant: resources may not be loaded")
            },
            RunCall::SetClientType => Some("Failed to set client type"),
            RunCall::CloseApp => Some("Failed to close external app"),
            _ => None,
        }
    }
}

/// What is said besides the cause where a task could not be handed over.
pub open spec fn append_context(name: Seq<char>, params: Seq<char>) -> Seq<char> {
    "Failed to add task "@ + name + " with params: "@ + params
}

/// Says which task could not be handed over, and with which parameters.
pub fn append_task_context(name: &str, params: &str) -> (context: String)
    ensures
        context@ == append_context(name@, params@),
        context@ == "Failed to add task "@ + name@ + " with params: "@ + params@,
{
    "Failed to add task ".to_owned().concat(name).concat(" with params: ").concat(params)
}

impl RunError {
    /// Says what went wrong, where no call failed.
    pub fn message(&self) -> (message: Option<&'static str>)
        ensures
            message is None <==> *self is Call,
            *self == RunError::Unsupported ==> message->0@
                == "Win32 connection is only supported on Windows"@,
            *self == RunError::Interrupted ==> message->0@ == "Interrupted by user!"@,
            *self == RunError::CoreErrored ==> message->0@
                == "Some error occurred during running task!"@,
    {
        match self {
            RunError::Call(_) => None,
            RunError::Unsupported => Some("Win32 connection is only supported on Windows"),
            RunError::Interrupted => Some("Interrupted by user!"),
            RunError::CoreErrored => Some("Some error occurred during running task!"),
        }
    }
}

/// How far a run has come once `events` have come in, one after the other.
pub open spec fn run_after(run: Run, events: Seq<RunEvent>) -> Run
    decreases events.len(),
{
    if events.len() == 0 {
        run
    } else {
        run_next(run_after(run, events.drop_last()), events.last())
    }
}

/// Whether `step` has to do with the game itself.
pub open spec fn touches_game(step: RunStep) -> bool {
    ||| step is OpenApp
    ||| step is Connect
    ||| step is StartCore
    ||| step is Poll
    ||| step is Sleep
    ||| step is StopCore
    ||| step is CloseApp
}

/// A run stays well-formed, and what it was asked for stays as it is.
pub proof fn law_a_run_stays_well_formed(run: Run, events: Seq<RunEvent>)
    requires
        run.well_formed(),
    ensures
        run_after(run, events).well_formed(),
        run_after(run, events).facts.args == run.facts.args,
        run_after(run, events).facts.platform == run.facts.platform,
        run_after(run, events).facts.source == run.facts.source,
    decreases events.len(),
{
    if events.len() > 0 {
        law_a_run_stays_well_formed(run, events.drop_last());
    }
}

/// A dry run never connects to the game, starts it or waits for it, whatever happens.
pub proof fn law_a_dry_run_leaves_the_game_alone(
    source: TaskSource,
    args: CommonArgs,
    platform: Platform,
    events: Seq<RunEvent>,
)
    requires
        args.dry_run,
    ensures
        !touches_game(run_after(started(source, args, platform), events).step),
    decreases events.len(),
{
    let run = started(source, args, platform);
    if events.len() > 0 {
        law_a_dry_run_leaves_the_game_alone(source, args, platform, events.drop_last());
        law_a_run_stays_well_formed(run, events.drop_last());
    }
}

/// Without a summary, none is made, whatever happens.
pub proof fn law_no_summary_is_made_unasked(
    source: TaskSource,
    args: CommonArgs,
    platform: Platform,
    events: Seq<RunEvent>,
)
    requires
        args.no_summary,
    ensures
        ({
            let step = run_after(started(source, args, platform), events).step;
            !(step is RecordTask) && !(step is InitSummary)
        }),
    decreases events.len(),
{
    let run = started(source, args, platform);
    if events.len() > 0 {
        law_no_summary_is_made_unasked(source, args, platform, events.drop_last());
        law_a_run_stays_well_formed(run, events.drop_last());
    }
}

/// Before the connection is known to be one that there is on the platform, tasks are not built
/// and MaaCore is not loaded, whatever happens.
pub proof fn law_unsupported_connections_are_rejected_before_loading_core(
    source: TaskSource,
    args: CommonArgs,
    platform: Platform,
    events: Seq<RunEvent>,
)
    ensures
        ({
            let run = run_after(started(source, args, platform), events);
            !needs_no_config(run.step) ==> is_supported(
                run.facts.config->0.connection.preset,
                platform,
            )
        }),
    decreases events.len(),
{
    let run = started(source, args, platform);
    if events.len() > 0 {
        law_unsupported_connections_are_rejected_before_loading_core(
            source,
            args,
            platform,
            events.drop_last(),
        );
        law_a_run_stays_well_formed(run, events.drop_last());
    }
}

/// A window that is configured elsewhere than on Windows ends the run as soon as it is read.
pub proof fn law_win32_is_rejected_elsewhere(run: Run, place: ProfileSearch, config: AsstConfig)
    requires
        run.step == RunStep::FindProfile(place) || run.step == RunStep::TakeBuiltInProfile,
        run.facts.platform != Platform::Windows,
        config.connection.preset == Preset::Win32,
    ensures
        run_next(run, RunEvent::Profile(config)).step == failed_by(RunError::Unsupported),
{
}

/// A call that fails ends the run: its error is kept, and what is left is the summary.
pub proof fn law_a_failed_call_ends_the_run(run: Run)
    requires
        call_of(run.step) is Some,
    ensures
        run_next(run, RunEvent::Failed).step == failed_by(RunError::Call(call_of(run.step)->0)),
        run_next(run, RunEvent::Failed).facts == run.facts,
{
}

/// No run finishes but from its summary, and its error is kept there.
pub proof fn law_the_summary_comes_before_the_end(run: Run, event: RunEvent)
    requires
        !(run.step is Finished),
        run_next(run, event).step is Finished,
    ensures
        run.step matches RunStep::DisplaySummary { result } && (event
            matches RunEvent::Displayed { core_errored } && run_next(run, event).step
            == (RunStep::Finished { result: verdict(result, core_errored) })),
{
}

/// A run that has finished stays so.
pub proof fn law_the_end_of_a_run_is_final(run: Run, event: RunEvent)
    requires
        run.step is Finished,
    ensures
        run_next(run, event) == run,
{
}

/// A run succeeds only by way of its last step, and only where MaaCore reported no error.
pub proof fn law_success_comes_by_the_last_step(run: Run, event: RunEvent)
    ensures
        run_next(run, event).step matches RunStep::DisplaySummary { result } && result is Ok
            ==> run.step == run_next(run, event).step || run.step is ReleaseSignals,
        run_next(run, event).step matches RunStep::Finished { result } && result is Ok ==> {
            ||| run.step == run_next(run, event).step
            ||| run.step matches RunStep::DisplaySummary { result } && result is Ok && (event
                matches RunEvent::Displayed { core_errored } && !core_errored)
        },
{
}

/// Whether `step` comes only behind a connection, where the run is not dry.
pub open spec fn is_behind_connecting(step: RunStep) -> bool {
    ||| step is StartCore
    ||| step is Poll
    ||| step is Sleep
    ||| step is StopCore
    ||| step is CloseApp
    ||| step is ReleaseSignals
    ||| step matches RunStep::DisplaySummary { result } && result is Ok
    ||| step matches RunStep::Finished { result } && result is Ok
}

/// Without a dry run, every success has a connection behind it, and so has every step from
/// starting tasks to releasing the signals: at some time the run stood at connecting, and that
/// was done.
pub proof fn law_success_takes_a_connection(
    source: TaskSource,
    args: CommonArgs,
    platform: Platform,
    events: Seq<RunEvent>,
)
    requires
        !args.dry_run,
        is_behind_connecting(run_after(started(source, args, platform), events).step),
    ensures
        exists|i: int|
            0 <= i < events.len() && #[trigger] run_after(
                started(source, args, platform),
                events.take(i),
            ).step is Connect && events[i] is Done,
    decreases events.len(),
{
    let start = started(source, args, platform);
    if events.len() > 0 {
        let before = events.drop_last();
        law_a_run_stays_well_formed(start, before);
        let last = events.len() - 1;
        assert(events.take(last) =~= before);
        if is_behind_connecting(run_after(start, before).step) {
            law_success_takes_a_connection(source, args, platform, before);
            let i = choose|i: int|
                0 <= i < before.len() && #[trigger] run_after(start, before.take(i)).step
                    is Connect && before[i] is Done;
            assert(before.take(i) =~= events.take(i));
            assert(run_after(start, events.take(i)).step is Connect && events[i] is Done);
        } else {
            assert(run_after(start, events.take(last)).step is Connect && events[last] is Done);
        }
    }
}

/// Whether `event` hands the profile with `config` in, at a step that asks for it.
pub open spec fn is_profile_taken(run: Run, event: RunEvent, config: AsstConfig) -> bool {
    &&& run.step is FindProfile || run.step is TakeBuiltInProfile
    &&& event == RunEvent::Profile(config)
}

/// The configuration of a run is that of the profile that was taken, with the arguments applied
/// to it, at all times.
pub proof fn law_runs_use_the_profile_with_the_arguments(
    source: TaskSource,
    args: CommonArgs,
    platform: Platform,
    events: Seq<RunEvent>,
)
    requires
        run_after(started(source, args, platform), events).facts.config is Some,
    ensures
        exists|i: int, config: AsstConfig|
            0 <= i < events.len() && #[trigger] is_profile_taken(
                run_after(started(source, args, platform), events.take(i)),
                events[i],
                config,
            ) && run_after(started(source, args, platform), events).facts.config == Some(
                applied(args, config),
            ),
    decreases events.len(),
{
    let start = started(source, args, platform);
    if events.len() > 0 {
        let before = events.drop_last();
        let last = events.len() - 1;
        let run = run_after(start, before);
        law_a_run_stays_well_formed(start, before);
        assert(events.take(last) =~= before);
        if (run.step is FindProfile || run.step is TakeBuiltInProfile) && events.last()
            is Profile {
            let config = events.last()->Profile_0;
            assert(is_profile_taken(run_after(start, events.take(last)), events[last], config));
        } else {
            law_runs_use_the_profile_with_the_arguments(source, args, platform, before);
            let (i, config) = choose|i: int, config: AsstConfig|
                0 <= i < before.len() && #[trigger] is_profile_taken(
                    run_after(start, before.take(i)),
                    before[i],
                    config,
                ) && run_after(start, before).facts.config == Some(applied(args, config));
            assert(before.take(i) =~= events.take(i));
            assert(is_profile_taken(run_after(start, events.take(i)), events[i], config));
        }
    }
}

/// What is told MaaCore of the client is what the tasks are for, at all times.
pub proof fn law_the_client_type_is_that_of_the_tasks(
    source: TaskSource,
    args: CommonArgs,
    platform: Platform,
    events: Seq<RunEvent>,
)
    ensures
        ({
            let run = run_after(started(source, args, platform), events);
            run.step matches RunStep::SetClientType(client_type) ==> client_type
                == run.facts.tasks->0.client_type
        }),
    decreases events.len(),
{
    if events.len() > 0 {
        let start = started(source, args, platform);
        law_the_client_type_is_that_of_the_tasks(source, args, platform, events.drop_last());
        law_a_run_stays_well_formed(start, events.drop_last());
    }
}

/// Reconnecting takes both the configuration and the arguments to allow it.
pub proof fn law_reconnecting_can_be_switched_off(
    source: TaskSource,
    args: CommonArgs,
    platform: Platform,
    events: Seq<RunEvent>,
)
    ensures
        ({
            let run = run_after(started(source, args, platform), events);
            run.step matches RunStep::CreateAssistant { auto_reconnect } ==> auto_reconnect == (
            run.facts.config->0.behavior.auto_reconnect && !args.no_auto_reconnect)
        }),
    decreases events.len(),
{
    let run = started(source, args, platform);
    if events.len() > 0 {
        law_reconnecting_can_be_switched_off(source, args, platform, events.drop_last());
        law_a_run_stays_well_formed(run, events.drop_last());
    }
}

/// While tasks run, the user's wish to stop goes before a lost server, and both before waiting
/// on; once they no longer run, neither matters.
pub proof fn law_polling_has_precedence(
    run: Run,
    running: bool,
    interrupted: bool,
    offline: bool,
)
    requires
        run.step is Poll,
    ensures
        run_next(run, RunEvent::Status { running, interrupted, offline }).step == (if running
            && interrupted {
            failed_by(RunError::Interrupted)
        } else if !running || offline {
            RunStep::StopCore
        } else {
            RunStep::Sleep
        }),
{
}

/// Whether `event` says that `step` was carried out.
pub open spec fn is_answer(step: RunStep, event: RunEvent) -> bool {
    match step {
        RunStep::FindProfile(_) => event is Profile || event is ProfileMissing,
        RunStep::TakeBuiltInProfile => event is Profile,
        RunStep::BuildTasks => event is Tasks,
        RunStep::ResolveTaskPath => event is TaskPath,
        RunStep::InitTasks => event is Tasks,
        RunStep::PrepareForWin32 => event is Tasks,
        RunStep::SerializeTask(_) => event is Serialized,
        RunStep::AppendTask { .. } => event is Appended,
        RunStep::OpenApp { .. } => event is Opened,
        RunStep::Poll => event is Status,
        RunStep::DisplaySummary { .. } => event is Displayed,
        RunStep::Finished { .. } => false,
        _ => event is Done,
    }
}

/// A step that was carried out is left: a run never stands still while its steps succeed, and
/// stands still where what comes in is neither an answer nor a failure.
pub proof fn law_every_answer_moves_a_run_on(run: Run, event: RunEvent)
    requires
        run.well_formed(),
    ensures
        is_answer(run.step, event) ==> run_next(run, event).step != run.step,
        !is_answer(run.step, event) && !(event is Failed) ==> run_next(run, event) == run,
{
}

/// A run fails for a reason and for no other: a call failed, the named profile is not there, the
/// platform has no such connection, or the user asked to stop.
pub proof fn law_runs_fail_for_a_reason(run: Run, event: RunEvent)
    requires
        run.well_formed(),
        !(run.step is DisplaySummary),
        run_next(run, event).step matches RunStep::DisplaySummary { result } && result is Err,
    ensures
        ({
            let error = run_next(run, event).step->DisplaySummary_result->Err_0;
            ||| event is Failed && (call_of(run.step) matches Some(call) && error
                == RunError::Call(call))
            ||| event is ProfileMissing && error == RunError::Call(RunCall::FindNamedProfile) && (
            run.step matches RunStep::FindProfile(place) && place is Named)
            ||| event matches RunEvent::Profile(config) && error == RunError::Unsupported
                && !is_supported(config.connection.preset, run.facts.platform)
            ||| event matches RunEvent::Status { running, interrupted, .. } && running
                && interrupted && error == RunError::Interrupted
        }),
{
}

/// The place of a step in the order of a run, and within its place the task it is about.
pub open spec fn place_of(step: RunStep) -> (int, int) {
    match step {
        RunStep::UpdateHotResource => (0, 0),
        RunStep::UpdateResource => (1, 0),
        RunStep::FindProfile(ProfileSearch::Legacy) => (3, 0),
        RunStep::FindProfile(_) => (2, 0),
        RunStep::TakeBuiltInProfile => (4, 0),
        RunStep::BuildTasks => (5, 0),
        RunStep::ResolveTaskPath => (6, 0),
        RunStep::LoadTaskFile(_) => (7, 0),
        RunStep::InitTasks => (8, 0),
        RunStep::PrepareForWin32 => (9, 0),
        RunStep::UseGlobalResource(_) => (10, 0),
        RunStep::LoadCore => (11, 0),
        RunStep::SetupCore(SetupStep::EnsureStateDirectory) => (12, 0),
        RunStep::SetupCore(SetupStep::SetUserDirectory) => (13, 0),
        RunStep::SetupCore(SetupStep::ApplyStaticOptions) => (14, 0),
        RunStep::SetupCore(SetupStep::LoadResource) => (15, 0),
        RunStep::RegisterSignals => (16, 0),
        RunStep::CreateAssistant { .. } => (17, 0),
        RunStep::ApplyInstanceOptions => (18, 0),
        RunStep::SetClientType(_) => (19, 0),
        RunStep::SerializeTask(index) => (20, 3 * index as int),
        RunStep::AppendTask { index, .. } => (20, 3 * index as int + 1),
        RunStep::RecordTask { index, .. } => (20, 3 * index as int + 2),
        RunStep::InitSummary => (21, 0),
        RunStep::OpenApp { .. } => (22, 0),
        RunStep::Connect { .. } => (23, 0),
        RunStep::StartCore => (24, 0),
        RunStep::Poll => (25, 0),
        RunStep::Sleep => (25, 0),
        RunStep::StopCore => (26, 0),
        RunStep::CloseApp(_) => (27, 0),
        RunStep::ReleaseSignals => (28, 0),
        RunStep::DisplaySummary { .. } => (29, 0),
        RunStep::Finished { .. } => (30, 0),
    }
}

/// Whether one place comes before another.
pub open spec fn is_before(left: (int, int), right: (int, int)) -> bool {
    left.0 < right.0 || left.0 == right.0 && left.1 < right.1
}

/// A run only ever goes on: but for looking and waiting in turn, every step that is taken comes
/// behind those that were taken before it.
pub proof fn law_a_run_only_goes_on(run: Run, event: RunEvent)
    requires
        run.well_formed(),
    ensures
        ({
            let next = run_next(run, event);
            ||| next.step == run.step
            ||| is_before(place_of(run.step), place_of(next.step))
            ||| run.step is Poll && next.step is Sleep
            ||| run.step is Sleep && next.step is Poll
        }),
{
    assert(run.facts.tasks->0.tasks.len() == run.facts.tasks->0.tasks@.len());
}

/// Tasks are handed over in their order, each once and with its own parameters as they were
/// written out: behind the one at `index` comes the next, or what follows on the last.
pub proof fn law_tasks_are_handed_over_in_order(run: Run, index: usize, params: String, id: i32)
    requires
        run.well_formed(),
        run.step == RunStep::SerializeTask(index),
    ensures
        ({
            let serialized = run_next(run, RunEvent::Serialized(params));
            let appended = run_next(serialized, RunEvent::Appended(id));
            let recorded = run_next(appended, RunEvent::Done);
            let next = if run.facts.args.no_summary {
                appended
            } else {
                recorded
            };
            let task = run.facts.tasks->0.tasks@[index as int];
            &&& serialized.step == RunStep::AppendTask { index, task_type: task.task_type, params }
            &&& !run.facts.args.no_summary ==> appended.step == RunStep::RecordTask {
                index,
                id,
                task,
            }
            &&& next.step == step_for_task(run.facts, index + 1)
            &&& index + 1 < run.facts.tasks->0.tasks@.len() ==> next.step == RunStep::SerializeTask(
                (index + 1) as usize,
            )
        }),
{
}

/// A task is handed over only by its own type and with its parameters as they were written out: no
/// other step leads there.
pub proof fn law_tasks_are_handed_over_as_they_are(run: Run, event: RunEvent)
    requires
        run_next(run, event).step != run.step,
    ensures
        run_next(run, event).step matches RunStep::AppendTask { index, task_type, params } ==> {
            &&& run.step == RunStep::SerializeTask(index)
            &&& event == RunEvent::Serialized(params)
            &&& task_type == run.facts.tasks->0.tasks@[index as int].task_type
        },
{
}

/// Whether one place does not come behind another.
pub open spec fn is_up_to(left: (int, int), right: (int, int)) -> bool {
    left == right || is_before(left, right)
}

/// However it goes, a run never comes back to a place that it has left.
pub proof fn law_a_run_never_goes_back(run: Run, events: Seq<RunEvent>, i: int)
    requires
        run.well_formed(),
        0 <= i <= events.len(),
    ensures
        is_up_to(
            place_of(run_after(run, events.take(i)).step),
            place_of(run_after(run, events).step),
        ),
    decreases events.len(),
{
    if i == events.len() {
        assert(events.take(i) =~= events);
    } else {
        let before = events.drop_last();
        assert(before.take(i) =~= events.take(i));
        law_a_run_never_goes_back(run, before, i);
        law_a_run_stays_well_formed(run, before);
        law_a_run_only_goes_on(run_after(run, before), events.last());
    }
}

/// Tasks are built once: a run that has left that step is never there again. The same holds of
/// reading them from their file.
pub proof fn law_tasks_are_built_once(run: Run, events: Seq<RunEvent>, i: int, j: int)
    requires
        run.well_formed(),
        0 <= i <= j <= events.len(),
        ({
            let first = run_after(run, events.take(i)).step;
            let last = run_after(run, events).step;
            first is BuildTasks && last is BuildTasks || first is InitTasks && last is InitTasks
        }),
    ensures
        run_after(run, events.take(j)).step == run_after(run, events).step,
{
    law_a_run_never_goes_back(run, events, j);
    let middle = events.take(j);
    assert(middle.take(i) =~= events.take(i));
    law_a_run_never_goes_back(run, middle, i);
}

/// Every step up to loading MaaCore has its reason: the step before it, what came of that, and
/// what is known and asked for by then. What a step carries is what was asked for, found or read.
pub proof fn law_tasks_are_made_for_a_reason(run: Run, event: RunEvent)
    requires
        run.well_formed(),
        run_next(run, event).step != run.step,
    ensures
        ({
            let args = run.facts.args;
            let preset = run.facts.config->0.connection.preset;
            let made = run.step is BuildTasks || run.step is InitTasks;
            let ready = event is Tasks && (run.step is PrepareForWin32 || made && preset
                != Preset::Win32);
            let fits = event matches RunEvent::Profile(config) && (run.step is FindProfile
                || run.step is TakeBuiltInProfile) && (config.connection.preset == Preset::Win32
                ==> run.facts.platform == Platform::Windows);
            match run_next(run, event).step {
                RunStep::UpdateHotResource => false,
                RunStep::UpdateResource => run.step is UpdateHotResource && event is Done,
                RunStep::FindProfile(ProfileSearch::Named(name)) => run.step is UpdateResource
                    && event is Done && args.profile == Some(name),
                RunStep::FindProfile(ProfileSearch::Default) => run.step is UpdateResource
                    && event is Done && args.profile is None,
                RunStep::FindProfile(ProfileSearch::Legacy) => run.step == RunStep::FindProfile(
                    ProfileSearch::Default,
                ) && event is ProfileMissing,
                RunStep::TakeBuiltInProfile => run.step == RunStep::FindProfile(
                    ProfileSearch::Legacy,
                ) && event is ProfileMissing,
                RunStep::BuildTasks => fits && run.facts.source is Built,
                RunStep::ResolveTaskPath => fits && run.facts.source is File,
                RunStep::LoadTaskFile(path) => run.step is ResolveTaskPath && (event
                    == RunEvent::TaskPath(Some(path)) || event == RunEvent::TaskPath(None)
                    && run.facts.source == TaskSource::File(path)),
                RunStep::InitTasks => run.step is LoadTaskFile && event is Done,
                RunStep::PrepareForWin32 => made && event is Tasks && preset == Preset::Win32,
                RunStep::UseGlobalResource(resource) => ready
                    && event->Tasks_0.global_resource == Some(resource),
                RunStep::LoadCore => {
                    ||| ready && event->Tasks_0.global_resource is None
                    ||| run.step is UseGlobalResource && event is Done
                },
                _ => true,
            }
        }),
{
    assert(run.facts.tasks->0.tasks.len() == run.facts.tasks->0.tasks@.len());
}

/// Every step from setting MaaCore up to handing the last task over has its reason, as those
/// before it. What a step carries is what the tasks say and what was read.
pub proof fn law_tasks_are_handed_over_for_a_reason(run: Run, event: RunEvent)
    requires
        run.well_formed(),
        run_next(run, event).step != run.step,
    ensures
        ({
            let args = run.facts.args;
            let plan = run.facts.tasks->0;
            match run_next(run, event).step {
                RunStep::SetupCore(SetupStep::EnsureStateDirectory) => run.step is LoadCore
                    && event is Done,
                RunStep::SetupCore(SetupStep::SetUserDirectory) => run.step
                    == RunStep::SetupCore(SetupStep::EnsureStateDirectory) && event is Done,
                RunStep::SetupCore(SetupStep::ApplyStaticOptions) => run.step
                    == RunStep::SetupCore(SetupStep::SetUserDirectory) && event is Done,
                RunStep::SetupCore(SetupStep::LoadResource) => run.step == RunStep::SetupCore(
                    SetupStep::ApplyStaticOptions,
                ) && event is Done,
                RunStep::RegisterSignals => run.step == RunStep::SetupCore(
                    SetupStep::LoadResource,
                ) && event is Done,
                RunStep::CreateAssistant { auto_reconnect } => run.step is RegisterSignals
                    && event is Done && (auto_reconnect <==> (
                run.facts.config->0.behavior.auto_reconnect && !args.no_auto_reconnect)),
                RunStep::ApplyInstanceOptions => run.step is CreateAssistant && event is Done,
                RunStep::SetClientType(client_type) => run.step is ApplyInstanceOptions
                    && event is Done && client_type == plan.client_type,
                RunStep::SerializeTask(index) => index < plan.tasks@.len() && match run.step {
                    RunStep::SetClientType(_) => event is Done && index == 0,
                    RunStep::AppendTask { index: before, .. } => event is Appended
                        && args.no_summary && index == before + 1,
                    RunStep::RecordTask { index: before, .. } => event is Done && index == before
                        + 1,
                    _ => false,
                },
                RunStep::AppendTask { index, task_type, params } => run.step
                    == RunStep::SerializeTask(index) && event == RunEvent::Serialized(params)
                    && task_type == plan.tasks@[index as int].task_type,
                RunStep::RecordTask { index, id, task } => (run.step matches RunStep::AppendTask {
                    index: appended,
                    ..
                } && appended == index) && event == RunEvent::Appended(id) && !args.no_summary
                    && task == plan.tasks@[index as int],
                _ => true,
            }
        }),
{
    assert(run.facts.tasks->0.tasks.len() == run.facts.tasks->0.tasks@.len());
}

/// Every step from the summary's start to the end of the run has its reason, as those before it.
/// What comes out in the end is the error of a call that failed, or one of the few others, or
/// that all went well.
pub proof fn law_tasks_are_run_for_a_reason(run: Run, event: RunEvent)
    requires
        run.well_formed(),
        run_next(run, event).step != run.step,
    ensures
        ({
            let args = run.facts.args;
            let preset = run.facts.config->0.connection.preset;
            let plan = run.facts.tasks->0;
            let hosted = preset == Preset::PlayCover && run.facts.platform == Platform::MacOs
                || preset == Preset::Waydroid && run.facts.platform == Platform::Linux;
            let over = match run.step {
                RunStep::SetClientType(_) => event is Done && plan.tasks@.len() == 0,
                RunStep::AppendTask { index, .. } => event is Appended && args.no_summary && index
                    + 1 == plan.tasks@.len(),
                RunStep::RecordTask { index, .. } => event is Done && index + 1
                    == plan.tasks@.len(),
                _ => false,
            };
            let handed = over && args.no_summary || run.step is InitSummary && event is Done;
            match run_next(run, event).step {
                RunStep::InitSummary => over && !args.no_summary,
                RunStep::OpenApp { app, start_app } => handed && !args.dry_run && hosted && (app
                    == ExternalApp::PlayCover <==> preset == Preset::PlayCover) && start_app
                    == plan.start_app,
                RunStep::Connect { address } => {
                    ||| handed && !args.dry_run && !hosted && address is None
                    ||| run.step is OpenApp && event == RunEvent::Opened(address)
                },
                RunStep::StartCore => run.step is Connect && event is Done,
                RunStep::Poll => (run.step is StartCore || run.step is Sleep) && event is Done,
                RunStep::Sleep => run.step is Poll && event == (RunEvent::Status {
                    running: true,
                    interrupted: false,
                    offline: false,
                }),
                RunStep::StopCore => run.step is Poll && (event matches RunEvent::Status {
                    running,
                    interrupted,
                    offline,
                } && (!running || !interrupted && offline)),
                RunStep::CloseApp(app) => run.step is StopCore && event is Done && hosted && (app
                    == ExternalApp::PlayCover <==> preset == Preset::PlayCover)
                    && plan.close_app,
                RunStep::ReleaseSignals => {
                    ||| handed && args.dry_run
                    ||| run.step is StopCore && event is Done && !(hosted && plan.close_app)
                    ||| run.step is CloseApp && event is Done
                },
                RunStep::DisplaySummary { result: Ok(_) } => run.step is ReleaseSignals
                    && event is Done,
                RunStep::DisplaySummary { result: Err(error) } => match event {
                    RunEvent::Failed => error is Call,
                    RunEvent::ProfileMissing => error == RunError::Call(
                        RunCall::FindNamedProfile,
                    ) && (run.step matches RunStep::FindProfile(place) && place is Named),
                    RunEvent::Profile(config) => error == RunError::Unsupported
                        && config.connection.preset == Preset::Win32 && run.facts.platform
                        != Platform::Windows,
                    RunEvent::Status { running, interrupted, .. } => error
                        == RunError::Interrupted && running && interrupted,
                    _ => false,
                },
                RunStep::Finished { result } => (run.step matches RunStep::DisplaySummary {
                    result: before,
                } && (event matches RunEvent::Displayed { core_errored } && (before is Err
                    ==> result == before) && (before is Ok ==> (result is Ok <==> !core_errored)
                    && (core_errored ==> result == Err::<(), RunError>(RunError::CoreErrored))))),
                _ => true,
            }
        }),
{
    assert(run.facts.tasks->0.tasks.len() == run.facts.tasks->0.tasks@.len());
}

/// A call that fails is the one that the error names, whichever step it belongs to, and a step
/// that makes no call that can fail is left by no failure.
pub proof fn law_errors_name_the_call_that_failed(run: Run)
    ensures
        ({
            let failed = |call: RunCall| RunStep::DisplaySummary {
                result: Err::<(), RunError>(RunError::Call(call)),
            };
            run_next(run, RunEvent::Failed).step == match run.step {
                RunStep::UpdateHotResource => failed(RunCall::UpdateHotResource),
                RunStep::UpdateResource => failed(RunCall::UpdateResource),
                RunStep::FindProfile(ProfileSearch::Named(_)) => failed(
                    RunCall::FindNamedProfile,
                ),
                RunStep::FindProfile(ProfileSearch::Default) => failed(RunCall::FindProfile),
                RunStep::FindProfile(ProfileSearch::Legacy) => failed(RunCall::FindProfile),
                RunStep::BuildTasks => failed(RunCall::BuildTasks),
                RunStep::LoadTaskFile(_) => failed(RunCall::FindTaskFile),
                RunStep::InitTasks => failed(RunCall::InitTasks),
                RunStep::LoadCore => failed(RunCall::LoadCore),
                RunStep::SetupCore(step) => failed(RunCall::SetupCore(step)),
                RunStep::RegisterSignals => failed(RunCall::RegisterSignals),
                RunStep::CreateAssistant { .. } => failed(RunCall::CreateAssistant),
                RunStep::ApplyInstanceOptions => failed(RunCall::ApplyInstanceOptions),
                RunStep::SetClientType(_) => failed(RunCall::SetClientType),
                RunStep::SerializeTask(index) => failed(RunCall::SerializeTask(index)),
                RunStep::AppendTask { index, .. } => failed(RunCall::AppendTask(index)),
                RunStep::OpenApp { .. } => failed(RunCall::OpenApp),
                RunStep::Connect { .. } => failed(RunCall::Connect),
                RunStep::StartCore => failed(RunCall::StartCore),
                RunStep::StopCore => failed(RunCall::StopCore),
                RunStep::CloseApp(_) => failed(RunCall::CloseApp),
                step => step,
            }
        }),
        run_next(run, RunEvent::Failed).facts == run.facts,
{
}

/// What a run knows comes from nowhere but from what was handed in: the configuration from the
/// profile, with what was asked for in its place, and the tasks from where they were made or
/// prepared, as they came.
pub proof fn law_a_run_knows_what_was_handed_in(run: Run, event: RunEvent)
    ensures
        ({
            let next = run_next(run, event).facts;
            let args = run.facts.args;
            &&& next.args == args
            &&& next.platform == run.facts.platform
            &&& next.source == run.facts.source
            &&& (run.step is FindProfile || run.step is TakeBuiltInProfile) && event is Profile
                ==> {
                let config = event->Profile_0;
                &&& next.config is Some
                &&& next.config->0.connection.preset == config.connection.preset
                &&& next.config->0.connection.address == if args.addr is Some {
                    args.addr
                } else {
                    config.connection.address
                }
                &&& next.config->0.resource.user_resource == (args.user_resource
                    || config.resource.user_resource)
                &&& next.config->0.behavior == config.behavior
            }
            &&& !((run.step is FindProfile || run.step is TakeBuiltInProfile) && event is Profile)
                ==> next.config == run.facts.config
            &&& (run.step is BuildTasks || run.step is InitTasks || run.step is PrepareForWin32)
                && event is Tasks ==> next.tasks == Some(event->Tasks_0)
            &&& !((run.step is BuildTasks || run.step is InitTasks || run.step is PrepareForWin32)
                && event is Tasks) ==> next.tasks == run.facts.tasks
        }),
{
}

/// A run starts with updating, and with knowing nothing but what it was asked for.
pub proof fn law_a_run_starts_with_updating(
    source: TaskSource,
    args: CommonArgs,
    platform: Platform,
)
    ensures
        ({
            let run = started(source, args, platform);
            &&& run.step is UpdateHotResource
            &&& run.facts.source == source
            &&& run.facts.args == args
            &&& run.facts.platform == platform
            &&& run.facts.config is None
            &&& run.facts.tasks is None
        }),
{
}

/// However the tasks were made, MaaCore is loaded only once what they need was seen to: for a
/// window they were prepared and came back as they are known, and where their client has a
/// resource of its own, that very one was put to use.
pub proof fn law_core_is_loaded_with_what_the_tasks_need(
    source: TaskSource,
    args: CommonArgs,
    platform: Platform,
    events: Seq<RunEvent>,
)
    requires
        ({
            let step = run_after(started(source, args, platform), events).step;
            step is LoadCore || step is UseGlobalResource
        }),
    ensures
        ({
            let start = started(source, args, platform);
            let run = run_after(start, events);
            let plan = run.facts.tasks->0;
            &&& run.facts.tasks is Some
            &&& run.step matches RunStep::UseGlobalResource(resource) ==> plan.global_resource
                == Some(resource)
            &&& run.step is LoadCore && plan.global_resource is Some ==> exists|i: int|
                0 <= i < events.len() && #[trigger] run_after(start, events.take(i)).step
                    == RunStep::UseGlobalResource(plan.global_resource->0) && events[i] is Done
            &&& run.facts.config->0.connection.preset == Preset::Win32 ==> exists|i: int|
                0 <= i < events.len() && #[trigger] run_after(start, events.take(i)).step
                    is PrepareForWin32 && events[i] == RunEvent::Tasks(plan)
        }),
    decreases events.len(),
{
    let start = started(source, args, platform);
    if events.len() > 0 {
        let before = events.drop_last();
        let last = events.len() - 1;
        let run = run_after(start, before);
        let next = run_after(start, events);
        law_a_run_stays_well_formed(start, before);
        assert(events.take(last) =~= before);
        assert(run_after(start, events.take(last)).step == run.step);
        if run.step is LoadCore || run.step is UseGlobalResource {
            law_core_is_loaded_with_what_the_tasks_need(source, args, platform, before);
            assert(next.facts == run.facts);
            let plan = run.facts.tasks->0;
            if run.facts.config->0.connection.preset == Preset::Win32 {
                let i = choose|i: int|
                    0 <= i < before.len() && #[trigger] run_after(start, before.take(i)).step
                        is PrepareForWin32 && before[i] == RunEvent::Tasks(plan);
                assert(before.take(i) =~= events.take(i));
                assert(run_after(start, events.take(i)).step is PrepareForWin32 && events[i]
                    == RunEvent::Tasks(plan));
            }
            if run.step is LoadCore && plan.global_resource is Some {
                let i = choose|i: int|
                    0 <= i < before.len() && #[trigger] run_after(start, before.take(i)).step
                        == RunStep::UseGlobalResource(plan.global_resource->0) && before[i]
                        is Done;
                assert(before.take(i) =~= events.take(i));
                assert(run_after(start, events.take(i)).step == RunStep::UseGlobalResource(
                    plan.global_resource->0,
                ) && events[i] is Done);
            }
        }
    }
}

/// What comes of a step always counts: whatever it holds, the run leaves the step, and nothing
/// that answers another step moves it.
pub proof fn law_no_answer_is_lost(run: Run, event: RunEvent)
    requires
        run.well_formed(),
    ensures
        ({
            let answers = match run.step {
                RunStep::FindProfile(_) => event is Profile || event is ProfileMissing,
                RunStep::TakeBuiltInProfile => event is Profile,
                RunStep::BuildTasks => event is Tasks,
                RunStep::ResolveTaskPath => event is TaskPath,
                RunStep::InitTasks => event is Tasks,
                RunStep::PrepareForWin32 => event is Tasks,
                RunStep::SerializeTask(_) => event is Serialized,
                RunStep::AppendTask { .. } => event is Appended,
                RunStep::OpenApp { .. } => event is Opened,
                RunStep::Poll => event is Status,
                RunStep::DisplaySummary { .. } => event is Displayed,
                RunStep::Finished { .. } => false,
                _ => event is Done,
            };
            &&& answers ==> run_next(run, event).step != run.step
            &&& !answers && !(event is Failed) ==> run_next(run, event) == run
        }),
{
}

/// Up to the summary a run goes on as a whole does, and displaying the summary is left to that.
pub proof fn law_a_run_ends_with_its_summary(run: Run, event: RunEvent)
    ensures
        ({
            let displayed = run.step is DisplaySummary && event is Displayed;
            &&& !displayed ==> core_next(run, event) == run_next(run, event)
            &&& displayed ==> core_next(run, event) == run
        }),
{
}

/// The program that hosts the game is PlayCover on macOS and Waydroid on Linux, each for its own
/// kind of connection, and there is no other.
pub proof fn law_games_are_hosted_on_their_platform(preset: Preset, platform: Platform)
    ensures
        match hosting_app(preset, platform) {
            Some(ExternalApp::PlayCover) => preset == Preset::PlayCover && platform
                == Platform::MacOs,
            Some(ExternalApp::Waydroid) => preset == Preset::Waydroid && platform
                == Platform::Linux,
            None => !(preset == Preset::PlayCover && platform == Platform::MacOs) && !(preset
                == Preset::Waydroid && platform == Platform::Linux),
        },
{
}

/// What is said of a call that failed is about that call, and of these calls alone is anything
/// said.
pub proof fn law_failed_calls_are_named(call: RunCall)
    ensures
        match call {
            RunCall::FindNamedProfile => call_context(call) == Some(
                "Failed to find profile file!"@,
            ),
            RunCall::FindTaskFile => call_context(call) == Some("Failed to find task file!"@),
            RunCall::InitTasks => call_context(call) == Some("Failed to initialize task config!"@),
            RunCall::LoadCore => call_context(call) == Some("Failed to load MaaCore!"@),
            RunCall::SetupCore(step) => if step == SetupStep::SetUserDirectory {
                call_context(call) == Some("Failed to set user directory!"@)
            } else {
                call_context(call) is None
            },
            RunCall::RegisterSignals => call_context(call) == Some(
                "Failed to register signal handler!"@,
            ),
            RunCall::CreateAssistant => call_context(call) == Some(
                "Failed to create Assistant: resources may not be loaded"@,
            ),
            RunCall::SetClientType => call_context(call) == Some("Failed to set client type"@),
            RunCall::CloseApp => call_context(call) == Some("Failed to close external app"@),
            _ => call_context(call) is None,
        },
{
}

/// What is said of a task that could not be handed over is its name and its parameters, in full
/// and in this order, in the same words for every task.
pub proof fn law_tasks_are_named_with_their_parameters(name: Seq<char>, params: Seq<char>)
    ensures
        ({
            let before = "Failed to add task "@;
            let between = " with params: "@;
            let text = append_context(name, params);
            &&& text.len() == before.len() + name.len() + between.len() + params.len()
            &&& text.take(before.len() as int) == before
            &&& text.subrange(before.len() as int, (before.len() + name.len()) as int) == name
            &&& text.subrange(
                (before.len() + name.len()) as int,
                text.len() - params.len(),
            ) == between
            &&& text.skip(text.len() - params.len()) == params
        }),
{
    let before = "Failed to add task "@;
    let between = " with params: "@;
    let text = append_context(name, params);
    assert(text.take(before.len() as int) =~= before);
    assert(text.subrange(before.len() as int, (before.len() + name.len()) as int) =~= name);
    assert(text.subrange((before.len() + name.len()) as int, text.len() - params.len())
        =~= between);
    assert(text.skip(text.len() - params.len()) =~= params);
}

} // verus!
