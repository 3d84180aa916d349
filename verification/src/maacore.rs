//! MaaCore: where it is loaded from, and how it is set up.
use crate::path::{join, joined, law_joined_paths_have_one_separator};
use crate::platform::Platform;
use vstd::prelude::*;

verus! {

/// A step of loading MaaCore.
#[derive(Debug, PartialEq, Eq)]
pub enum LoadStep {
    /// Ask whether MaaCore is loaded.
    AskLoaded,
    /// Look for the directory of MaaCore's library.
    FindLibrary,
    /// Load the library from this directory, or from the system's library path.
    Load { directory: Option<String> },
    /// MaaCore is loaded.
    Loaded,
    /// MaaCore could not be loaded.
    Failed,
}

/// What came of a step of loading MaaCore.
#[derive(Debug, PartialEq, Eq)]
pub enum LoadEvent {
    Answer { loaded: bool },
    Library(Option<String>),
    Done,
    Failed,
}

/// The step that follows on `event`. An event that does not answer the step changes nothing.
pub open spec fn next_load_step(step: LoadStep, event: LoadEvent) -> LoadStep {
    match (step, event) {
        (LoadStep::AskLoaded, LoadEvent::Answer { loaded }) => if loaded {
            LoadStep::Loaded
        } else {
            LoadStep::FindLibrary
        },
        (LoadStep::FindLibrary, LoadEvent::Library(directory)) => LoadStep::Load { directory },
        (LoadStep::Load { .. }, LoadEvent::Done) => LoadStep::Loaded,
        (LoadStep::Load { .. }, LoadEvent::Failed) => LoadStep::Failed,
        (step, _) => step,
    }
}

/// Loads MaaCore, step by step, unless it is loaded.
pub fn load_core(step: LoadStep, event: LoadEvent) -> (next: LoadStep)
    ensures
        next == next_load_step(step, event),
{
    match (step, event) {
        (LoadStep::AskLoaded, LoadEvent::Answer { loaded }) => if loaded {
            LoadStep::Loaded
        } else {
            LoadStep::FindLibrary
        },
        (LoadStep::FindLibrary, LoadEvent::Library(directory)) => LoadStep::Load { directory },
        (LoadStep::Load { .. }, LoadEvent::Done) => LoadStep::Loaded,
        (LoadStep::Load { .. }, LoadEvent::Failed) => LoadStep::Failed,
        (step, _) => step,
    }
}

/// The file that is loaded: `library` in `directory`, or by its name alone.
pub open spec fn core_file(
    directory: Option<Seq<char>>,
    library: Seq<char>,
    platform: Platform,
) -> Seq<char> {
    match directory {
        Some(directory) => joined(directory, library, platform),
        None => library,
    }
}

/// The path by which MaaCore's library is loaded: `library` in `directory`, or its name alone,
/// which the system looks for.
pub fn core_path(
    directory: Option<&str>,
    library: &str,
    platform: Platform,
) -> (path: String)
    ensures
        path@ == core_file(
            match directory {
                Some(directory) => Some(directory@),
                None => None,
            },
            library@,
            platform,
        ),
{
    match directory {
        Some(directory) => join(directory, library, platform),
        None => library.to_owned(),
    }
}

/// What is said where MaaCore cannot be loaded.
pub fn load_context() -> (context: &'static str)
    ensures
        context@ == "Failed to load MaaCore!"@,
{
    "Failed to load MaaCore!"
}

/// Whether MaaCore is loaded once `event` has answered `step`, if it was as `loaded` says before.
pub open spec fn loaded_next(loaded: bool, step: LoadStep, event: LoadEvent) -> bool {
    loaded || step is Load && event is Done
}

/// Whether `event` tells the truth of whether MaaCore is loaded.
pub open spec fn is_truthful(loaded: bool, event: LoadEvent) -> bool {
    event matches LoadEvent::Answer { loaded: told } ==> told == loaded
}

/// A core that is loaded is not loaded again: loading it ends at once, well, and changes nothing.
pub proof fn law_a_loaded_core_is_not_loaded_again()
    ensures
        next_load_step(LoadStep::AskLoaded, LoadEvent::Answer { loaded: true })
            == LoadStep::Loaded,
        loaded_next(true, LoadStep::AskLoaded, LoadEvent::Answer { loaded: true }),
{
}

/// A core that is not loaded is loaded once: from the directory of its library where that was
/// found, else by name, and it ends well exactly where that went well.
pub proof fn law_core_is_loaded_once(directory: Option<String>, succeeds: bool)
    ensures
        ({
            let asked = next_load_step(LoadStep::AskLoaded, LoadEvent::Answer { loaded: false });
            let found = next_load_step(asked, LoadEvent::Library(directory));
            let ended = next_load_step(
                found,
                if succeeds {
                    LoadEvent::Done
                } else {
                    LoadEvent::Failed
                },
            );
            &&& asked == LoadStep::FindLibrary
            &&& found == LoadStep::Load { directory }
            &&& ended == if succeeds {
                LoadStep::Loaded
            } else {
                LoadStep::Failed
            }
        }),
{
}

/// How far loading has come once `events` have come in, and whether MaaCore is loaded by then.
pub open spec fn loading_after(loaded: bool, events: Seq<LoadEvent>) -> (LoadStep, bool)
    decreases events.len(),
{
    if events.len() == 0 {
        (LoadStep::AskLoaded, loaded)
    } else {
        let (step, before) = loading_after(loaded, events.drop_last());
        (next_load_step(step, events.last()), loaded_next(before, step, events.last()))
    }
}

/// Whether every one of `events` tells the truth.
pub open spec fn all_truthful(loaded: bool, events: Seq<LoadEvent>) -> bool {
    forall|i: int|
        0 <= i < events.len() ==> is_truthful(
            #[trigger] loading_after(loaded, events.take(i)).1,
            events[i],
        )
}

/// Where loading ends well, MaaCore is loaded.
pub proof fn law_loading_ends_with_a_loaded_core(loaded: bool, events: Seq<LoadEvent>)
    requires
        all_truthful(loaded, events),
    ensures
        loading_after(loaded, events).0 == LoadStep::Loaded ==> loading_after(loaded, events).1,
    decreases events.len(),
{
    if events.len() > 0 {
        let before = events.drop_last();
        assert forall|i: int| 0 <= i < before.len() implies is_truthful(
            #[trigger] loading_after(loaded, before.take(i)).1,
            before[i],
        ) by {
            assert(before.take(i) =~= events.take(i));
            assert(is_truthful(loading_after(loaded, events.take(i)).1, events[i]));
        }
        law_loading_ends_with_a_loaded_core(loaded, before);
        assert(events.take(events.len() - 1) =~= before);
        assert(is_truthful(
            loading_after(loaded, events.take(events.len() - 1)).1,
            events[events.len() - 1],
        ));
    }
}

/// A step of setting MaaCore up.
#[derive(Clone, Copy, Debug, PartialEq, Eq, Structural)]
pub enum SetupStep {
    EnsureStateDirectory,
    SetUserDirectory,
    ApplyStaticOptions,
    LoadResource,
}

/// The step of the setup behind `step`.
pub open spec fn next_setup_step(step: SetupStep) -> Option<SetupStep> {
    match step {
        SetupStep::EnsureStateDirectory => Some(SetupStep::SetUserDirectory),
        SetupStep::SetUserDirectory => Some(SetupStep::ApplyStaticOptions),
        SetupStep::ApplyStaticOptions => Some(SetupStep::LoadResource),
        SetupStep::LoadResource => None,
    }
}

/// The step of the setup behind `step`, if there is another.
pub fn setup_core(step: SetupStep) -> (next: Option<SetupStep>)
    ensures
        next == next_setup_step(step),
{
    match step {
        SetupStep::EnsureStateDirectory => Some(SetupStep::SetUserDirectory),
        SetupStep::SetUserDirectory => Some(SetupStep::ApplyStaticOptions),
        SetupStep::ApplyStaticOptions => Some(SetupStep::LoadResource),
        SetupStep::LoadResource => None,
    }
}

/// A step of asking MaaCore for its version.
#[derive(Debug, PartialEq, Eq)]
pub enum VersionStep {
    LoadCore,
    ReadVersion,
    UnloadCore { version: String },
    Finished { version: String },
    /// The call of the step failed.
    Failed(VersionCall),
}

/// A call that asking for the version makes.
#[derive(Clone, Copy, Debug, PartialEq, Eq, Structural)]
pub enum VersionCall {
    LoadCore,
    ReadVersion,
    UnloadCore,
}

impl VersionCall {
    /// Says what failed, where the cause alone would not.
    pub fn context(&self) -> (context: Option<&'static str>)
        ensures
            match *self {
                VersionCall::LoadCore => context matches Some(context) && context@
                    == "Failed to load MaaCore!"@,
                VersionCall::ReadVersion => context matches Some(context) && context@
                    == "Failed to get MaaCore version!"@,
                VersionCall::UnloadCore => context is None,
            },
    {
        match self {
            VersionCall::LoadCore => Some("Failed to load MaaCore!"),
            VersionCall::ReadVersion => Some("Failed to get MaaCore version!"),
            VersionCall::UnloadCore => None,
        }
    }
}

/// What came of a step of asking for the version.
#[derive(Debug, PartialEq, Eq)]
pub enum VersionEvent {
    Done,
    Version(String),
    Failed,
}

/// The step that follows on `event`. An event that does not answer the step changes nothing.
pub open spec fn next_version_step(step: VersionStep, event: VersionEvent) -> VersionStep {
    match (step, event) {
        (VersionStep::LoadCore, VersionEvent::Done) => VersionStep::ReadVersion,
        (VersionStep::LoadCore, VersionEvent::Failed) => VersionStep::Failed(VersionCall::LoadCore),
        (VersionStep::ReadVersion, VersionEvent::Version(version)) => VersionStep::UnloadCore {
            version,
        },
        (VersionStep::ReadVersion, VersionEvent::Failed) => {
            VersionStep::Failed(VersionCall::ReadVersion)
        },
        (VersionStep::UnloadCore { version }, VersionEvent::Done) => VersionStep::Finished {
            version,
        },
        (VersionStep::UnloadCore { .. }, VersionEvent::Failed) => {
            VersionStep::Failed(VersionCall::UnloadCore)
        },
        (step, _) => step,
    }
}

/// Asks for MaaCore's version, step by step: it is loaded, asked and unloaded.
pub fn core_version(step: VersionStep, event: VersionEvent) -> (next: VersionStep)
    ensures
        next == next_version_step(step, event),
{
    match (step, event) {
        (VersionStep::LoadCore, VersionEvent::Done) => VersionStep::ReadVersion,
        (VersionStep::LoadCore, VersionEvent::Failed) => VersionStep::Failed(VersionCall::LoadCore),
        (VersionStep::ReadVersion, VersionEvent::Version(version)) => VersionStep::UnloadCore {
            version,
        },
        (VersionStep::ReadVersion, VersionEvent::Failed) => {
            VersionStep::Failed(VersionCall::ReadVersion)
        },
        (VersionStep::UnloadCore { version }, VersionEvent::Done) => VersionStep::Finished {
            version,
        },
        (VersionStep::UnloadCore { .. }, VersionEvent::Failed) => {
            VersionStep::Failed(VersionCall::UnloadCore)
        },
        (step, _) => step,
    }
}

/// Where nothing fails, the version that was read is the one that is handed out, and MaaCore is
/// unloaded before that.
pub proof fn law_the_version_read_is_handed_out(version: String)
    ensures
        ({
            let read = next_version_step(VersionStep::LoadCore, VersionEvent::Done);
            let unload = next_version_step(read, VersionEvent::Version(version));
            &&& read == VersionStep::ReadVersion
            &&& unload == VersionStep::UnloadCore { version }
            &&& next_version_step(unload, VersionEvent::Done) == VersionStep::Finished { version }
        }),
{
}

/// Each step of loading MaaCore has its reason in the step before it and the answer to that.
pub proof fn law_every_step_of_loading_has_its_reason(step: LoadStep, event: LoadEvent)
    ensures
        match next_load_step(step, event) {
            LoadStep::AskLoaded => step is AskLoaded && !(event is Answer),
            LoadStep::FindLibrary => {
                ||| step is FindLibrary && !(event is Library)
                ||| step is AskLoaded && (event matches LoadEvent::Answer { loaded } && !loaded)
            },
            LoadStep::Load { directory } => {
                ||| step == (LoadStep::Load { directory }) && !(event is Done || event is Failed)
                ||| step is FindLibrary && event == LoadEvent::Library(directory)
            },
            LoadStep::Loaded => {
                ||| step is Loaded
                ||| step is AskLoaded && (event matches LoadEvent::Answer { loaded } && loaded)
                ||| step is Load && event is Done
            },
            LoadStep::Failed => step is Failed || step is Load && event is Failed,
        },
{
}

/// MaaCore is loaded by the name of its library alone where no directory was found, and else from
/// that directory: its path begins with the directory and ends in the name.
pub proof fn law_core_is_loaded_from_its_directory(
    directory: Option<Seq<char>>,
    library: Seq<char>,
    platform: Platform,
)
    ensures
        match directory {
            None => core_file(directory, library, platform) == library,
            Some(directory) => {
                let path = core_file(Some(directory), library, platform);
                &&& path.len() >= directory.len() + library.len()
                &&& path.take(directory.len() as int) == directory
                &&& path.skip(path.len() - library.len()) == library
                &&& path == joined(directory, library, platform)
            },
        },
{
    if let Some(directory) = directory {
        law_joined_paths_have_one_separator(directory, library, platform);
    }
}

/// Setting MaaCore up has four steps, in this order: the directory is there before it is set, and
/// the options are applied before resources are loaded.
pub proof fn law_setup_goes_in_order()
    ensures
        ({
            let first = SetupStep::EnsureStateDirectory;
            let second = next_setup_step(first);
            let third = next_setup_step(second->0);
            let fourth = next_setup_step(third->0);
            &&& second == Some(SetupStep::SetUserDirectory)
            &&& third == Some(SetupStep::ApplyStaticOptions)
            &&& fourth == Some(SetupStep::LoadResource)
            &&& next_setup_step(fourth->0) is None
        }),
{
}

/// Each step of asking for the version has its reason in the step before it and the answer to
/// that, and the version that was read is kept.
pub proof fn law_every_step_to_the_version_has_its_reason(step: VersionStep, event: VersionEvent)
    ensures
        match next_version_step(step, event) {
            VersionStep::LoadCore => step is LoadCore && event is Version,
            VersionStep::ReadVersion => {
                ||| step is LoadCore && event is Done
                ||| step is ReadVersion && event is Done
            },
            VersionStep::UnloadCore { version } => {
                ||| step is ReadVersion && event == VersionEvent::Version(version)
                ||| step == (VersionStep::UnloadCore { version }) && event is Version
            },
            VersionStep::Finished { version } => {
                ||| step == (VersionStep::UnloadCore { version }) && event is Done
                ||| step == (VersionStep::Finished { version })
            },
            VersionStep::Failed(call) => {
                ||| step == VersionStep::Failed(call)
                ||| event is Failed && step is LoadCore && call == VersionCall::LoadCore
                ||| event is Failed && step is ReadVersion && call == VersionCall::ReadVersion
                ||| event is Failed && step is UnloadCore && call == VersionCall::UnloadCore
            },
        },
{
}

} // verus!
