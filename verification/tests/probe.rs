//! Testing a connection, from start to end.
use image::{DynamicImage, ImageFormat, Rgb, RgbImage};
use maa_run::args::ConnectionTestArgs;
use maa_run::config::{AsstConfig, BehaviorConfig, ConnectionConfig, Preset, ResourceConfig};
use maa_run::maacore::SetupStep;
use maa_run::payload::ConnectionProbeMetadata;
use maa_run::platform::Platform;
use maa_run::probe::{
    examine_capture, finish_capture, report, start_test, test_connection, Capture, Probe, ProbeCall, ProbeCode, ProbeError,
    ProbeEvent, ProbeOutcome, ProbeOutput, ProbeStep,
};
use maa_run::profile::ProfileSearch;
use maa_run::screenshot::{analyze_screenshot_quality, ScreenshotError};
use std::io::Cursor;

fn config(preset: Preset) -> AsstConfig {
    AsstConfig {
        connection: ConnectionConfig { preset, address: None },
        resource: ResourceConfig { user_resource: false },
        behavior: BehaviorConfig { auto_reconnect: true },
    }
}

fn args(screencap: bool, json: bool) -> ConnectionTestArgs {
    ConnectionTestArgs { screencap, json, ..ConnectionTestArgs::default() }
}

fn after(mut probe: Probe, events: Vec<ProbeEvent>) -> Probe {
    for event in events {
        probe = test_connection(probe, event);
    }
    probe
}

fn at(step: ProbeStep) -> Probe {
    Probe { args: args(true, true), platform: Platform::Linux, step }
}

fn connected(probe: Probe, preset: Preset) -> Probe {
    let mut events = vec![ProbeEvent::Profile(config(preset))];
    events.extend((0..7).map(|_| ProbeEvent::Done));
    after(probe, events)
}

fn png() -> Vec<u8> {
    let image = RgbImage::from_fn(4, 4, |x, _| Rgb([if x % 2 == 0 { 200 } else { 20 }; 3]));
    let mut output = Cursor::new(Vec::new());
    DynamicImage::ImageRgb8(image).write_to(&mut output, ImageFormat::Png).unwrap();
    output.into_inner()
}

fn failed(code: ProbeCode, error: ProbeError) -> ProbeStep {
    ProbeStep::Finished(ProbeOutcome::Failed { code, error })
}

fn json(outcome: &ProbeOutcome, platform: Platform) -> serde_json::Value {
    match report(outcome, true, platform) {
        ProbeOutput::Json(value) => value,
        _ => panic!("no JSON"),
    }
}

fn text(outcome: &ProbeOutcome, platform: Platform) -> String {
    match report(outcome, false, platform) {
        ProbeOutput::Text(text) => text,
        _ => panic!("no text"),
    }
}

#[test]
fn capabilities_take_no_step() {
    let asked = ConnectionTestArgs { capabilities: true, ..args(true, true) };
    let mut probe = start_test(asked, Platform::Windows);
    for event in [ProbeEvent::Done, ProbeEvent::Failed, ProbeEvent::Profile(config(Preset::Adb))] {
        assert_eq!(probe.step, ProbeStep::Finished(ProbeOutcome::Capabilities));
        probe = test_connection(probe, event);
    }
    assert_eq!(probe.step, ProbeStep::Finished(ProbeOutcome::Capabilities));
    assert_eq!(
        text(&ProbeOutcome::Capabilities, Platform::Windows),
        "Connection probe capability: arkconsole-win32-probe-v2 (schema 2)"
    );
    let payload = json(&ProbeOutcome::Capabilities, Platform::Windows);
    assert_eq!(payload["win32_supported"], true);
}

#[test]
fn every_step_is_taken_in_order() {
    let mut probe = start_test(args(true, true), Platform::Linux);
    assert_eq!(probe.step, ProbeStep::FindProfile(ProfileSearch::Default));
    probe = test_connection(probe, ProbeEvent::ProfileMissing);
    assert_eq!(probe.step, ProbeStep::FindProfile(ProfileSearch::Legacy));
    probe = test_connection(probe, ProbeEvent::ProfileMissing);
    assert_eq!(probe.step, ProbeStep::TakeBuiltInProfile);
    probe = test_connection(probe, ProbeEvent::Profile(config(Preset::Adb)));
    let steps = [
        ProbeStep::LoadCore(Preset::Adb),
        ProbeStep::SetupCore(Preset::Adb, SetupStep::EnsureStateDirectory),
        ProbeStep::SetupCore(Preset::Adb, SetupStep::SetUserDirectory),
        ProbeStep::SetupCore(Preset::Adb, SetupStep::ApplyStaticOptions),
        ProbeStep::SetupCore(Preset::Adb, SetupStep::LoadResource),
        ProbeStep::CreateAssistant(Preset::Adb),
        ProbeStep::ApplyInstanceOptions(Preset::Adb),
    ];
    for step in steps {
        assert_eq!(probe.step, step);
        probe = test_connection(probe, ProbeEvent::Done);
    }
    assert_eq!(probe.step, ProbeStep::Connect(Preset::Adb));
    let metadata = ConnectionProbeMetadata::default();
    probe = test_connection(probe, ProbeEvent::Connected(metadata));
    assert_eq!(probe.step, ProbeStep::Capture(Preset::Adb, metadata));
    let quality = analyze_screenshot_quality(&png()).unwrap();
    let capture = examine_capture(Some(&png()));
    assert_eq!(capture, Capture { length: png().len(), analysis: Ok(quality) });
    probe = test_connection(probe, ProbeEvent::Captured(capture));
    let outcome = ProbeOutcome::Succeeded {
        preset: Preset::Adb,
        screenshot_bytes: png().len(),
        quality: Some(quality),
        metadata,
    };
    assert_eq!(probe.step, ProbeStep::Finished(outcome));
    let outcome = finish_capture(Preset::Adb, metadata, examine_capture(Some(&png())));
    let payload = json(&outcome, Platform::Linux);
    assert_eq!(payload["ok"], true);
    assert_eq!(payload["connection"], "ADB");
    assert_eq!(payload["screenshot_bytes"], png().len());
    assert_eq!(payload["luma_variance"], 8100.0);
    assert_eq!(payload["non_black_ratio"], 1.0);
    assert_eq!(payload["capture_quality_ok"], true);
}

#[test]
fn no_screenshot_is_taken_unasked() {
    let probe = connected(start_test(args(false, false), Platform::MacOs), Preset::PlayCover);
    assert_eq!(probe.step, ProbeStep::Connect(Preset::PlayCover));
    let metadata = ConnectionProbeMetadata::default();
    let probe = test_connection(probe, ProbeEvent::Connected(metadata));
    let outcome = ProbeOutcome::Succeeded {
        preset: Preset::PlayCover,
        screenshot_bytes: 0,
        quality: None,
        metadata,
    };
    let finished = match probe.step {
        ProbeStep::Finished(finished) => finished,
        step => panic!("{step:?}"),
    };
    assert_eq!(finished, outcome);
    assert_eq!(
        text(&outcome, Platform::MacOs),
        "Connection test succeeded (PlayCover, screenshot bytes: 0)"
    );
}

#[test]
fn win32_is_not_tried_elsewhere() {
    let probe = start_test(args(false, true), Platform::Linux);
    let probe = test_connection(probe, ProbeEvent::Profile(config(Preset::Win32)));
    assert_eq!(
        probe.step,
        failed(ProbeCode::ConnectionPlatformUnsupported, ProbeError::Unsupported)
    );
    let probe = start_test(args(false, true), Platform::Windows);
    let probe = test_connection(probe, ProbeEvent::Profile(config(Preset::Win32)));
    assert_eq!(probe.step, ProbeStep::LoadCore(Preset::Win32));
}

#[test]
fn a_failure_is_told_by_how_far_the_test_came() {
    let metadata = ConnectionProbeMetadata::default();
    let cases = [
        (
            ProbeStep::FindProfile(ProfileSearch::Named("test".to_owned())),
            ProbeCall::FindNamedProfile,
            "profile_load_failed",
        ),
        (
            ProbeStep::FindProfile(ProfileSearch::Default),
            ProbeCall::FindProfile,
            "profile_load_failed",
        ),
        (ProbeStep::LoadCore(Preset::Adb), ProbeCall::LoadCore, "maa_core_load_failed"),
        (
            ProbeStep::SetupCore(Preset::Adb, SetupStep::LoadResource),
            ProbeCall::SetupCore(SetupStep::LoadResource),
            "maa_core_setup_failed",
        ),
        (
            ProbeStep::CreateAssistant(Preset::Adb),
            ProbeCall::CreateAssistant,
            "assistant_create_failed",
        ),
        (
            ProbeStep::ApplyInstanceOptions(Preset::Adb),
            ProbeCall::ApplyInstanceOptions,
            "assistant_create_failed",
        ),
        (ProbeStep::Connect(Preset::Win32), ProbeCall::Connect, "win32_attach_failed"),
        (ProbeStep::Connect(Preset::Adb), ProbeCall::Connect, "adb_connect_failed"),
        (ProbeStep::Connect(Preset::Waydroid), ProbeCall::Connect, "adb_connect_failed"),
        (
            ProbeStep::Capture(Preset::Adb, metadata),
            ProbeCall::Capture,
            "screenshot_capture_failed",
        ),
    ];
    for (step, call, expected) in cases {
        match test_connection(at(step), ProbeEvent::Failed).step {
            ProbeStep::Finished(ProbeOutcome::Failed { code, error }) => {
                assert_eq!(code.text(), expected);
                assert_eq!(error, ProbeError::Call(call));
                assert_eq!(error.message(), None);
                let payload = json(&ProbeOutcome::Failed { code, error }, Platform::Linux);
                assert_eq!(payload["ok"], false);
                assert_eq!(payload["error_code"], expected);
            }
            step => panic!("{step:?}"),
        }
    }
    assert_eq!(
        ProbeCode::ConnectionPlatformUnsupported.text(),
        "connection_platform_unsupported"
    );
}

#[test]
fn a_named_profile_that_is_missing_ends_the_test() {
    let asked = ConnectionTestArgs { profile: Some("test".to_owned()), ..args(false, false) };
    let probe = start_test(asked, Platform::Linux);
    assert_eq!(probe.step, ProbeStep::FindProfile(ProfileSearch::Named("test".to_owned())));
    assert_eq!(
        test_connection(probe, ProbeEvent::ProfileMissing).step,
        failed(ProbeCode::ProfileLoadFailed, ProbeError::Call(ProbeCall::FindNamedProfile))
    );
}

#[test]
fn a_failure_is_silent_in_words() {
    let outcome = ProbeOutcome::Failed {
        code: ProbeCode::AdbConnectFailed,
        error: ProbeError::Call(ProbeCall::Connect),
    };
    assert!(matches!(report(&outcome, false, Platform::Linux), ProbeOutput::Nothing));
}

#[test]
fn a_screenshot_that_cannot_be_used_fails_the_test() {
    let metadata = ConnectionProbeMetadata::default();
    let invalid = match analyze_screenshot_quality(b"not-a-png") {
        Err(ScreenshotError::InvalidPng(cause)) => cause,
        analysis => panic!("{analysis:?}"),
    };
    let cases: [(Option<&[u8]>, ScreenshotError, Option<&str>); 3] = [
        (None, ScreenshotError::Missing, None),
        (Some(b""), ScreenshotError::Empty, None),
        (
            Some(b"not-a-png"),
            ScreenshotError::InvalidPng(invalid.clone()),
            Some(invalid.as_str()),
        ),
    ];
    for (image, error, cause) in cases {
        let probe = at(ProbeStep::Capture(Preset::Adb, metadata));
        let message = error.message();
        let step = test_connection(probe, ProbeEvent::Captured(examine_capture(image))).step;
        match &step {
            ProbeStep::Finished(ProbeOutcome::Failed { error, .. }) => {
                assert_eq!(error.message(), Some(message));
                assert_eq!(error.cause(), cause);
            }
            step => panic!("{step:?}"),
        }
        assert_eq!(
            step,
            failed(ProbeCode::ScreenshotCaptureFailed, ProbeError::Screenshot(error))
        );
    }
    assert_eq!(
        finish_capture(
            Preset::Adb,
            metadata,
            Capture { length: 9, analysis: Err(ScreenshotError::EmptyPng) }
        ),
        ProbeOutcome::Failed {
            code: ProbeCode::ScreenshotCaptureFailed,
            error: ProbeError::Screenshot(ScreenshotError::EmptyPng),
        }
    );
}

#[test]
fn calls_of_a_test_say_what_failed() {
    assert_eq!(ProbeCall::FindNamedProfile.context(), Some("Failed to find profile file!"));
    assert_eq!(ProbeCall::FindProfile.context(), None);
    assert_eq!(ProbeCall::LoadCore.context(), Some("Failed to load MaaCore!"));
    assert_eq!(
        ProbeCall::SetupCore(SetupStep::SetUserDirectory).context(),
        Some("Failed to set user directory!")
    );
    assert_eq!(ProbeCall::SetupCore(SetupStep::LoadResource).context(), None);
    assert_eq!(ProbeCall::CreateAssistant.context(), Some("Failed to create Assistant"));
    assert_eq!(ProbeCall::Connect.context(), None);
    assert_eq!(
        ProbeError::Unsupported.message(),
        Some("Win32 connection is only supported on Windows")
    );
}

#[test]
fn a_test_that_is_over_stays_so() {
    let over = || failed(ProbeCode::AdbConnectFailed, ProbeError::Call(ProbeCall::Connect));
    for event in [
        ProbeEvent::Done,
        ProbeEvent::Failed,
        ProbeEvent::ProfileMissing,
        ProbeEvent::Captured(examine_capture(None)),
    ] {
        assert_eq!(test_connection(at(over()), event).step, over());
    }
}

#[test]
fn an_event_that_answers_nothing_leaves_the_step() {
    let probe = at(ProbeStep::LoadCore(Preset::Adb));
    let probe = test_connection(probe, ProbeEvent::Captured(examine_capture(None)));
    assert_eq!(probe.step, ProbeStep::LoadCore(Preset::Adb));
}
