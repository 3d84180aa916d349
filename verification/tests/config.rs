//! The configuration, the arguments and the profiles.
use maa_run::args::{CommonArgs, ConnectionTestArgs};
use maa_run::config::{
    connection_label, AsstConfig, BehaviorConfig, ConnectionConfig, Preset, ResourceConfig,
};
use maa_run::connect::ensure_connection_supported;
use maa_run::maacore::{
    core_path, core_version, load_context, load_core, setup_core, LoadEvent, LoadStep, SetupStep,
    VersionCall, VersionEvent, VersionStep,
};
use maa_run::platform::Platform;
use maa_run::profile::{find_profile, first_search, Lookup, ProfileSearch, ProfileStep};
use maa_run::window::WindowError;

const PRESETS: [Preset; 6] = [
    Preset::Adb,
    Preset::MuMuPro,
    Preset::PlayCover,
    Preset::Waydroid,
    Preset::Androws,
    Preset::Win32,
];

fn config(preset: Preset, address: Option<&str>) -> AsstConfig {
    AsstConfig {
        connection: ConnectionConfig { preset, address: address.map(str::to_owned) },
        resource: ResourceConfig { user_resource: false },
        behavior: BehaviorConfig { auto_reconnect: true },
    }
}

#[test]
fn connection_probe_reports_the_configured_preset() {
    assert_eq!(connection_label(Preset::Adb), "ADB");
    assert_eq!(connection_label(Preset::MuMuPro), "MuMuPro");
    assert_eq!(connection_label(Preset::PlayCover), "PlayCover");
    assert_eq!(connection_label(Preset::Waydroid), "Waydroid");
    assert_eq!(connection_label(Preset::Androws), "Androws");
    assert_eq!(connection_label(Preset::Win32), "Win32");
}

#[test]
fn win32_is_rejected_before_loading_core_on_non_windows() {
    let config = ConnectionConfig { preset: Preset::Win32, address: None };

    assert_eq!(
        ensure_connection_supported(&config, Platform::Linux).unwrap_err().message(),
        "Win32 connection is only supported on Windows"
    );
}

#[test]
fn labels_tell_presets_apart() {
    for (i, left) in PRESETS.iter().enumerate() {
        for (j, right) in PRESETS.iter().enumerate() {
            assert_eq!(connection_label(*left) == connection_label(*right), i == j);
        }
    }
}

#[test]
fn windows_has_every_connection() {
    for preset in PRESETS {
        let connection = ConnectionConfig { preset, address: None };
        assert_eq!(ensure_connection_supported(&connection, Platform::Windows), Ok(()));
        for platform in [Platform::MacOs, Platform::Linux, Platform::Other] {
            let expected = if preset == Preset::Win32 {
                Err(WindowError::Unsupported)
            } else {
                Ok(())
            };
            assert_eq!(ensure_connection_supported(&connection, platform), expected);
        }
    }
}

#[test]
fn nothing_is_asked_for_by_default() {
    let args = CommonArgs::default();
    assert_eq!(args.addr, None);
    assert_eq!(args.profile, None);
    assert!(!args.user_resource && !args.dry_run && !args.no_summary && !args.no_auto_reconnect);
    let args = ConnectionTestArgs::default();
    assert_eq!(args.profile, None);
    assert!(!args.screencap && !args.json && !args.capabilities);
}

#[test]
fn arguments_take_the_place_of_the_configuration() {
    let args = CommonArgs {
        addr: Some("127.0.0.1:1717".to_owned()),
        user_resource: true,
        ..CommonArgs::default()
    };
    let mut applied = config(Preset::PlayCover, Some("emulator-5554"));
    args.apply_to(&mut applied);
    let mut expected = config(Preset::PlayCover, Some("127.0.0.1:1717"));
    expected.resource.user_resource = true;
    assert_eq!(applied, expected);

    args.apply_to(&mut applied);
    assert_eq!(applied, expected);
}

#[test]
fn silent_arguments_change_nothing() {
    let mut applied = config(Preset::Adb, Some("emulator-5554"));
    applied.resource.user_resource = true;
    CommonArgs::default().apply_to(&mut applied);
    let mut expected = config(Preset::Adb, Some("emulator-5554"));
    expected.resource.user_resource = true;
    assert_eq!(applied, expected);
}

#[test]
fn the_default_profile_goes_before_the_legacy_file() {
    let place = first_search(&None);
    assert_eq!(place, ProfileSearch::Default);
    assert_eq!(place.path(), ["profiles", "default"]);
    assert_eq!(find_profile(&place, Lookup::Found), ProfileStep::Take { deprecated: false });
    assert_eq!(find_profile(&place, Lookup::Failed), ProfileStep::Unreadable);

    let legacy = match find_profile(&place, Lookup::Missing) {
        ProfileStep::Search(next) => next,
        step => panic!("{step:?}"),
    };
    assert_eq!(legacy, ProfileSearch::Legacy);
    assert_eq!(legacy.path(), ["asst"]);
    assert_eq!(find_profile(&legacy, Lookup::Found), ProfileStep::Take { deprecated: true });
    assert_eq!(find_profile(&legacy, Lookup::Failed), ProfileStep::Unreadable);
    assert_eq!(find_profile(&legacy, Lookup::Missing), ProfileStep::TakeBuiltIn);
}

#[test]
fn a_named_profile_has_to_be_there() {
    let place = first_search(&Some("test".to_owned()));
    assert_eq!(place.path(), ["profiles", "test"]);
    assert_eq!(find_profile(&place, Lookup::Found), ProfileStep::Take { deprecated: false });
    assert_eq!(find_profile(&place, Lookup::Missing), ProfileStep::NamedNotFound);
    assert_eq!(find_profile(&place, Lookup::Failed), ProfileStep::NamedNotFound);
}

#[test]
fn core_is_loaded_once_and_from_its_directory_first() {
    assert_eq!(
        load_core(LoadStep::AskLoaded, LoadEvent::Answer { loaded: true }),
        LoadStep::Loaded
    );
    for directory in [Some("/opt/maa".to_owned()), None] {
        let step = load_core(LoadStep::AskLoaded, LoadEvent::Answer { loaded: false });
        assert_eq!(step, LoadStep::FindLibrary);
        let step = load_core(step, LoadEvent::Library(directory.clone()));
        assert_eq!(step, LoadStep::Load { directory: directory.clone() });
        assert_eq!(load_core(step, LoadEvent::Done), LoadStep::Loaded);
        assert_eq!(
            load_core(LoadStep::Load { directory }, LoadEvent::Failed),
            LoadStep::Failed
        );
    }
    assert_eq!(load_core(LoadStep::Loaded, LoadEvent::Failed), LoadStep::Loaded);
    assert_eq!(load_context(), "Failed to load MaaCore!");
}

#[test]
fn core_is_loaded_by_its_path_or_its_name() {
    assert_eq!(
        core_path(Some("/opt/maa"), "libMaaCore.so", Platform::Linux),
        "/opt/maa/libMaaCore.so"
    );
    assert_eq!(
        core_path(Some("C:\\maa"), "MaaCore.dll", Platform::Windows),
        "C:\\maa\\MaaCore.dll"
    );
    assert_eq!(core_path(None, "libMaaCore.so", Platform::Linux), "libMaaCore.so");
}

#[test]
fn core_is_set_up_in_order() {
    let mut steps = vec![SetupStep::EnsureStateDirectory];
    while let Some(next) = setup_core(*steps.last().unwrap()) {
        steps.push(next);
    }
    assert_eq!(
        steps,
        [
            SetupStep::EnsureStateDirectory,
            SetupStep::SetUserDirectory,
            SetupStep::ApplyStaticOptions,
            SetupStep::LoadResource,
        ]
    );
}

#[test]
fn the_version_that_was_read_is_handed_out() {
    let version = || "v5.20.0".to_owned();
    let step = core_version(VersionStep::LoadCore, VersionEvent::Done);
    assert_eq!(step, VersionStep::ReadVersion);
    let step = core_version(step, VersionEvent::Version(version()));
    assert_eq!(step, VersionStep::UnloadCore { version: version() });
    let step = core_version(step, VersionEvent::Done);
    assert_eq!(step, VersionStep::Finished { version: version() });
    assert_eq!(
        core_version(step, VersionEvent::Failed),
        VersionStep::Finished { version: version() }
    );
}

#[test]
fn a_call_that_fails_ends_the_question_for_the_version() {
    let steps = [
        (VersionStep::LoadCore, VersionCall::LoadCore),
        (VersionStep::ReadVersion, VersionCall::ReadVersion),
        (VersionStep::UnloadCore { version: "v5".to_owned() }, VersionCall::UnloadCore),
    ];
    for (step, call) in steps {
        assert_eq!(core_version(step, VersionEvent::Failed), VersionStep::Failed(call));
    }
    assert_eq!(VersionCall::LoadCore.context(), Some("Failed to load MaaCore!"));
    assert_eq!(VersionCall::ReadVersion.context(), Some("Failed to get MaaCore version!"));
    assert_eq!(VersionCall::UnloadCore.context(), None);
}
