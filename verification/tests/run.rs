//! Running tasks, from start to end.
use maa_run::args::CommonArgs;
use maa_run::config::{AsstConfig, BehaviorConfig, ConnectionConfig, Preset, ResourceConfig};
use maa_run::maacore::SetupStep;
use maa_run::platform::Platform;
use maa_run::profile::ProfileSearch;
use maa_run::run::{
    append_task_context, external_app, run, run_core, run_custom, run_preset, ExternalApp, Run,
    RunCall, RunError, RunEvent, RunStep, TaskInfo, TaskPlan, TaskSource, POLL_INTERVAL,
};

fn config(preset: Preset) -> AsstConfig {
    AsstConfig {
        connection: ConnectionConfig { preset, address: Some("emulator-5554".to_owned()) },
        resource: ResourceConfig { user_resource: false },
        behavior: BehaviorConfig { auto_reconnect: true },
    }
}

fn task(index: usize) -> TaskInfo {
    TaskInfo { name: Some(format!("task {index}")), task_type: format!("Type{index}") }
}

fn plan(task_count: usize) -> TaskPlan {
    TaskPlan {
        client_type: "YoStarEN".to_owned(),
        global_resource: None,
        tasks: (0..task_count).map(task).collect(),
        start_app: true,
        close_app: true,
    }
}

fn after(mut current: Run, events: Vec<RunEvent>) -> Run {
    for event in events {
        current = run(current, event);
    }
    current
}

fn done(count: usize) -> Vec<RunEvent> {
    (0..count).map(|_| RunEvent::Done).collect()
}

fn with_profile(args: CommonArgs, platform: Platform, preset: Preset) -> Run {
    let current = after(run_preset(args, platform), done(2));
    run(current, RunEvent::Profile(config(preset)))
}

fn with_tasks(args: CommonArgs, platform: Platform, preset: Preset, tasks: TaskPlan) -> Run {
    run(with_profile(args, platform, preset), RunEvent::Tasks(tasks))
}

fn with_assistant(args: CommonArgs, platform: Platform, preset: Preset, tasks: TaskPlan) -> Run {
    let current = with_tasks(args, platform, preset, tasks);
    assert_eq!(current.step, RunStep::LoadCore);
    let current = after(current, done(6));
    assert!(matches!(current.step, RunStep::CreateAssistant { .. }));
    after(current, done(2))
}

fn written(index: usize) -> RunEvent {
    RunEvent::Serialized(format!("{{\n  \"task\": {index}\n}}"))
}

fn failure(error: RunError) -> RunStep {
    RunStep::DisplaySummary { result: Err(error) }
}

fn quiet() -> CommonArgs {
    CommonArgs { no_summary: true, ..CommonArgs::default() }
}

#[test]
fn a_run_takes_every_step_in_order() {
    let mut current = run_preset(CommonArgs::default(), Platform::Linux);
    assert_eq!(current.step, RunStep::UpdateHotResource);
    current = run(current, RunEvent::Done);
    assert_eq!(current.step, RunStep::UpdateResource);
    current = run(current, RunEvent::Done);
    assert_eq!(current.step, RunStep::FindProfile(ProfileSearch::Default));
    current = run(current, RunEvent::Profile(config(Preset::Waydroid)));
    assert_eq!(current.step, RunStep::BuildTasks);
    let tasks = TaskPlan { global_resource: Some("txwy".to_owned()), ..plan(2) };
    current = run(current, RunEvent::Tasks(tasks));
    let steps = [
        RunStep::UseGlobalResource("txwy".to_owned()),
        RunStep::LoadCore,
        RunStep::SetupCore(SetupStep::EnsureStateDirectory),
        RunStep::SetupCore(SetupStep::SetUserDirectory),
        RunStep::SetupCore(SetupStep::ApplyStaticOptions),
        RunStep::SetupCore(SetupStep::LoadResource),
        RunStep::RegisterSignals,
        RunStep::CreateAssistant { auto_reconnect: true },
        RunStep::ApplyInstanceOptions,
        RunStep::SetClientType("YoStarEN".to_owned()),
    ];
    for step in steps {
        assert_eq!(current.step, step);
        current = run(current, RunEvent::Done);
    }
    for (index, id) in [(0, 11), (1, 12)] {
        assert_eq!(current.step, RunStep::SerializeTask(index));
        current = run(current, written(index));
        assert_eq!(
            current.step,
            RunStep::AppendTask {
                index,
                task_type: format!("Type{index}"),
                params: format!("{{\n  \"task\": {index}\n}}"),
            }
        );
        current = run(current, RunEvent::Appended(id));
        assert_eq!(current.step, RunStep::RecordTask { index, id, task: task(index) });
        current = run(current, RunEvent::Done);
    }
    assert_eq!(current.step, RunStep::InitSummary);
    current = run(current, RunEvent::Done);
    assert_eq!(
        current.step,
        RunStep::OpenApp { app: ExternalApp::Waydroid, start_app: true }
    );
    let address = || Some("192.168.240.112:5555".to_owned());
    current = run(current, RunEvent::Opened(address()));
    assert_eq!(current.step, RunStep::Connect { address: address() });
    current = after(current, done(1));
    assert_eq!(current.step, RunStep::StartCore);
    current = after(current, done(1));
    assert_eq!(current.step, RunStep::Poll);
    let status =
        |running| RunEvent::Status { running, interrupted: false, offline: false };
    current = run(current, status(true));
    assert_eq!(current.step, RunStep::Sleep);
    current = run(current, RunEvent::Done);
    assert_eq!(current.step, RunStep::Poll);
    current = run(current, status(false));
    assert_eq!(current.step, RunStep::StopCore);
    current = run(current, RunEvent::Done);
    assert_eq!(current.step, RunStep::CloseApp(ExternalApp::Waydroid));
    current = run(current, RunEvent::Done);
    assert_eq!(current.step, RunStep::ReleaseSignals);
    current = run(current, RunEvent::Done);
    assert_eq!(current.step, RunStep::DisplaySummary { result: Ok(()) });
    current = run(current, RunEvent::Displayed { core_errored: false });
    assert_eq!(current.step, RunStep::Finished { result: Ok(()) });
    current = run(current, RunEvent::Failed);
    assert_eq!(current.step, RunStep::Finished { result: Ok(()) });
    assert_eq!(POLL_INTERVAL, 100);
}

#[test]
fn profiles_are_looked_for_in_turn() {
    let current = after(run_preset(CommonArgs::default(), Platform::Linux), done(2));
    let current = run(current, RunEvent::ProfileMissing);
    assert_eq!(current.step, RunStep::FindProfile(ProfileSearch::Legacy));
    let current = run(current, RunEvent::ProfileMissing);
    assert_eq!(current.step, RunStep::TakeBuiltInProfile);
    let current = run(current, RunEvent::Profile(config(Preset::Adb)));
    assert_eq!(current.step, RunStep::BuildTasks);

    let named = CommonArgs { profile: Some("test".to_owned()), ..CommonArgs::default() };
    let current = after(run_preset(named, Platform::Linux), done(2));
    assert_eq!(current.step, RunStep::FindProfile(ProfileSearch::Named("test".to_owned())));
    let current = run(current, RunEvent::ProfileMissing);
    assert_eq!(current.step, failure(RunError::Call(RunCall::FindNamedProfile)));
}

#[test]
fn arguments_are_applied_to_the_profile() {
    let args = CommonArgs {
        addr: Some("127.0.0.1:1717".to_owned()),
        user_resource: true,
        ..CommonArgs::default()
    };
    let current = with_profile(args, Platform::Linux, Preset::Adb);
    let applied = current.facts.config.unwrap();
    assert_eq!(applied.connection.address, Some("127.0.0.1:1717".to_owned()));
    assert!(applied.resource.user_resource);
}

#[test]
fn win32_is_rejected_elsewhere_before_tasks_are_built() {
    let current = with_profile(CommonArgs::default(), Platform::MacOs, Preset::Win32);
    assert_eq!(current.step, failure(RunError::Unsupported));
    let current = with_profile(CommonArgs::default(), Platform::Windows, Preset::Win32);
    assert_eq!(current.step, RunStep::BuildTasks);
    let current = run(current, RunEvent::Tasks(plan(1)));
    assert_eq!(current.step, RunStep::PrepareForWin32);
    let changed = TaskPlan { start_app: false, ..plan(1) };
    let current = run(current, RunEvent::Tasks(changed));
    assert_eq!(current.step, RunStep::LoadCore);
    assert!(!current.facts.tasks.unwrap().start_app);
}

#[test]
fn a_task_file_is_looked_for_among_the_configured_ones() {
    let start = || {
        let current =
            run_custom("daily.toml".to_owned(), CommonArgs::default(), Platform::Linux);
        assert_eq!(current.facts.source, TaskSource::File("daily.toml".to_owned()));
        let current = after(current, done(2));
        run(current, RunEvent::Profile(config(Preset::Adb)))
    };
    let current = start();
    assert_eq!(current.step, RunStep::ResolveTaskPath);
    let found = "/config/tasks/daily.toml".to_owned();
    let current = run(current, RunEvent::TaskPath(Some(found.clone())));
    assert_eq!(current.step, RunStep::LoadTaskFile(found));
    let current = run(current, RunEvent::Done);
    assert_eq!(current.step, RunStep::InitTasks);
    assert_eq!(run(current, RunEvent::Tasks(plan(0))).step, RunStep::LoadCore);

    let current = run(start(), RunEvent::TaskPath(None));
    assert_eq!(current.step, RunStep::LoadTaskFile("daily.toml".to_owned()));
    let current = run(current, RunEvent::Failed);
    assert_eq!(current.step, failure(RunError::Call(RunCall::FindTaskFile)));
}

#[test]
fn a_dry_run_leaves_the_game_alone() {
    let args = CommonArgs { dry_run: true, ..quiet() };
    let current = with_assistant(args, Platform::Linux, Preset::Waydroid, plan(1));
    assert_eq!(current.step, RunStep::SetClientType("YoStarEN".to_owned()));
    let current = run(after(current, done(1)), written(0));
    assert!(matches!(current.step, RunStep::AppendTask { index: 0, .. }));
    let current = run(current, RunEvent::Appended(1));
    assert_eq!(current.step, RunStep::ReleaseSignals);
}

#[test]
fn no_summary_is_made_unasked() {
    let current = with_assistant(quiet(), Platform::Linux, Preset::Adb, plan(2));
    let current = run(after(current, done(1)), written(0));
    let current = run(current, RunEvent::Appended(1));
    assert_eq!(current.step, RunStep::SerializeTask(1));
    let current = run(current, written(1));
    let current = run(current, RunEvent::Appended(2));
    assert_eq!(current.step, RunStep::Connect { address: None });
}

#[test]
fn a_run_without_tasks_goes_on() {
    let current = with_assistant(CommonArgs::default(), Platform::Linux, Preset::Adb, plan(0));
    let current = run(current, RunEvent::Done);
    assert_eq!(current.step, RunStep::InitSummary);
}

#[test]
fn reconnecting_can_be_switched_off() {
    let args = CommonArgs { no_auto_reconnect: true, ..CommonArgs::default() };
    let current = with_tasks(args, Platform::Linux, Preset::Adb, plan(0));
    let current = after(current, done(6));
    assert_eq!(current.step, RunStep::CreateAssistant { auto_reconnect: false });

    let current = after(run_preset(CommonArgs::default(), Platform::Linux), done(2));
    let mut asst = config(Preset::Adb);
    asst.behavior.auto_reconnect = false;
    let current = run(current, RunEvent::Profile(asst));
    let current = after(run(current, RunEvent::Tasks(plan(0))), done(6));
    assert_eq!(current.step, RunStep::CreateAssistant { auto_reconnect: false });
}

#[test]
fn polling_has_precedence() {
    let polling = || {
        let current = with_assistant(quiet(), Platform::Linux, Preset::Adb, plan(0));
        let current = after(current, done(3));
        assert_eq!(current.step, RunStep::Poll);
        current
    };
    let answered = |running, interrupted, offline| {
        run(polling(), RunEvent::Status { running, interrupted, offline }).step
    };
    assert_eq!(answered(true, false, false), RunStep::Sleep);
    assert_eq!(answered(true, false, true), RunStep::StopCore);
    assert_eq!(answered(true, true, false), failure(RunError::Interrupted));
    assert_eq!(answered(true, true, true), failure(RunError::Interrupted));
    assert_eq!(answered(false, false, false), RunStep::StopCore);
    assert_eq!(answered(false, true, true), RunStep::StopCore);
}

#[test]
fn an_app_is_closed_only_where_asked_for() {
    let stopped = |preset, platform, close_app| {
        let tasks = TaskPlan { close_app, ..plan(0) };
        let current = with_assistant(quiet(), platform, preset, tasks);
        let current = run(current, RunEvent::Done);
        let current = if matches!(current.step, RunStep::OpenApp { .. }) {
            run(current, RunEvent::Opened(None))
        } else {
            current
        };
        let current = after(current, done(2));
        let status = RunEvent::Status { running: false, interrupted: false, offline: false };
        after(run(current, status), done(1)).step
    };
    assert_eq!(
        stopped(Preset::PlayCover, Platform::MacOs, true),
        RunStep::CloseApp(ExternalApp::PlayCover)
    );
    assert_eq!(stopped(Preset::PlayCover, Platform::MacOs, false), RunStep::ReleaseSignals);
    assert_eq!(stopped(Preset::PlayCover, Platform::Linux, true), RunStep::ReleaseSignals);
    assert_eq!(stopped(Preset::Adb, Platform::Linux, true), RunStep::ReleaseSignals);
}

#[test]
fn apps_are_there_on_their_platform_alone() {
    assert_eq!(
        external_app(Preset::PlayCover, Platform::MacOs),
        Some(ExternalApp::PlayCover)
    );
    assert_eq!(external_app(Preset::Waydroid, Platform::Linux), Some(ExternalApp::Waydroid));
    assert_eq!(external_app(Preset::PlayCover, Platform::Linux), None);
    assert_eq!(external_app(Preset::Waydroid, Platform::MacOs), None);
    assert_eq!(external_app(Preset::Win32, Platform::Windows), None);
}

#[test]
fn the_summary_is_displayed_whatever_happened() {
    let current = run(run_preset(quiet(), Platform::Linux), RunEvent::Failed);
    let error = RunError::Call(RunCall::UpdateHotResource);
    assert_eq!(current.step, failure(error));
    for core_errored in [false, true] {
        let failed = run(run_preset(quiet(), Platform::Linux), RunEvent::Failed);
        let ended = run(failed, RunEvent::Displayed { core_errored });
        assert_eq!(ended.step, RunStep::Finished { result: Err(error) });
    }
}

#[test]
fn an_error_of_core_fails_the_run() {
    let args = CommonArgs { dry_run: true, ..quiet() };
    let current = with_assistant(args, Platform::Linux, Preset::Adb, plan(0));
    let current = after(current, done(2));
    assert_eq!(current.step, RunStep::DisplaySummary { result: Ok(()) });
    let current = run(current, RunEvent::Displayed { core_errored: true });
    assert_eq!(current.step, RunStep::Finished { result: Err(RunError::CoreErrored) });
}

#[test]
fn run_core_goes_up_to_the_summary() {
    let current = run_core(run_preset(quiet(), Platform::Linux), RunEvent::Failed);
    let ended = run_core(current, RunEvent::Displayed { core_errored: false });
    assert_eq!(ended.step, failure(RunError::Call(RunCall::UpdateHotResource)));
}

#[test]
fn every_call_that_fails_is_named() {
    let current = with_assistant(quiet(), Platform::Linux, Preset::Waydroid, plan(1));
    assert_eq!(
        run(current, RunEvent::Failed).step,
        failure(RunError::Call(RunCall::SetClientType))
    );
    let current = with_assistant(quiet(), Platform::Linux, Preset::Waydroid, plan(1));
    let current = after(current, done(1));
    assert_eq!(
        run(current, RunEvent::Failed).step,
        failure(RunError::Call(RunCall::SerializeTask(0)))
    );
    let current = with_assistant(quiet(), Platform::Linux, Preset::Waydroid, plan(1));
    let current = run(after(current, done(1)), written(0));
    assert_eq!(
        run(current, RunEvent::Failed).step,
        failure(RunError::Call(RunCall::AppendTask(0)))
    );
    let current = with_assistant(quiet(), Platform::Linux, Preset::Waydroid, plan(0));
    let current = run(current, RunEvent::Done);
    assert_eq!(
        run(current, RunEvent::Failed).step,
        failure(RunError::Call(RunCall::OpenApp))
    );
}

#[test]
fn calls_of_a_run_say_what_failed() {
    let cases = [
        (RunCall::FindNamedProfile, "Failed to find profile file!"),
        (RunCall::FindTaskFile, "Failed to find task file!"),
        (RunCall::InitTasks, "Failed to initialize task config!"),
        (RunCall::LoadCore, "Failed to load MaaCore!"),
        (RunCall::SetupCore(SetupStep::SetUserDirectory), "Failed to set user directory!"),
        (RunCall::RegisterSignals, "Failed to register signal handler!"),
        (
            RunCall::CreateAssistant,
            "Failed to create Assistant: resources may not be loaded",
        ),
        (RunCall::SetClientType, "Failed to set client type"),
        (RunCall::CloseApp, "Failed to close external app"),
    ];
    for (call, expected) in cases {
        assert_eq!(call.context(), Some(expected));
        assert_eq!(RunError::Call(call).message(), None);
    }
    assert_eq!(RunCall::StartCore.context(), None);
    assert_eq!(RunCall::SetupCore(SetupStep::LoadResource).context(), None);
    assert_eq!(
        append_task_context("StartUp", "{}"),
        "Failed to add task StartUp with params: {}"
    );
    assert_eq!(RunError::Interrupted.message(), Some("Interrupted by user!"));
    assert_eq!(
        RunError::CoreErrored.message(),
        Some("Some error occurred during running task!")
    );
    assert_eq!(
        RunError::Unsupported.message(),
        Some("Win32 connection is only supported on Windows")
    );
}
