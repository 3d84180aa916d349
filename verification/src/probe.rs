//! Testing a connection.
use crate::args::ConnectionTestArgs;
use crate::config::{connection_label, label_of, AsstConfig, Preset};
use crate::connect::{ensure_connection_supported, is_supported};
use crate::json::{json_of, Json};
use crate::maacore::{next_setup_step, setup_core, SetupStep};
use crate::payload::{
    capabilities_payload, connection_capabilities_payload, connection_probe_failure_payload,
    connection_probe_success_payload, failure_payload, is_stable_code,
    law_failures_expose_only_a_code, stable_code, success_payload, ConnectionProbeMetadata,
    CONNECTION_PROBE_SCHEMA_VERSION, WIN32_PROBE_CAPABILITY_VERSION,
};
use crate::platform::Platform;
use crate::profile::{
    find_profile, first_place, first_search, profile_step, Lookup, ProfileSearch, ProfileStep,
};
use crate::screenshot::{
    analyze_screenshot_quality, decoded_png, is_analysis_of, quality_of,
    require_screenshot_bytes, screenshot_error_cause, screenshot_error_message, ScreenshotError,
    ScreenshotQuality,
};
use crate::text::{digits, number_text};
use serde_json::Value;
use vstd::prelude::*;

verus! {

/// How far a test came before it failed, as it is reported.
#[derive(Clone, Copy, Debug, PartialEq, Eq, Structural)]
pub enum ProbeCode {
    ProfileLoadFailed,
    ConnectionPlatformUnsupported,
    MaaCoreLoadFailed,
    MaaCoreSetupFailed,
    AssistantCreateFailed,
    Win32AttachFailed,
    AdbConnectFailed,
    ScreenshotCaptureFailed,
}

/// A call that can fail.
#[derive(Clone, Copy, Debug, PartialEq, Eq, Structural)]
pub enum ProbeCall {
    FindNamedProfile,
    FindProfile,
    LoadCore,
    SetupCore(SetupStep),
    CreateAssistant,
    ApplyInstanceOptions,
    Connect,
    Capture,
}

/// Why a test failed.
#[derive(Debug, PartialEq, Eq)]
pub enum ProbeError {
    /// This call failed.
    Call(ProbeCall),
    /// There are no such connections on this platform.
    Unsupported,
    /// The screenshot cannot be used.
    Screenshot(ScreenshotError),
}

/// What a test has come to.
#[derive(Debug, PartialEq, Eq)]
pub enum ProbeOutcome {
    /// Only what a test can do was asked for.
    Capabilities,
    Succeeded {
        preset: Preset,
        screenshot_bytes: usize,
        quality: Option<ScreenshotQuality>,
        metadata: ConnectionProbeMetadata,
    },
    Failed { code: ProbeCode, error: ProbeError },
}

/// A step of a test.
#[derive(Debug, PartialEq, Eq)]
pub enum ProbeStep {
    /// Look for a profile in this place.
    FindProfile(ProfileSearch),
    TakeBuiltInProfile,
    LoadCore(Preset),
    SetupCore(Preset, SetupStep),
    CreateAssistant(Preset),
    ApplyInstanceOptions(Preset),
    Connect(Preset),
    /// Take a screenshot.
    Capture(Preset, ConnectionProbeMetadata),
    Finished(ProbeOutcome),
}

/// What came of taking a screenshot: its length, and what it shows.
#[derive(Debug, PartialEq, Eq)]
pub struct Capture {
    pub length: usize,
    pub analysis: Result<ScreenshotQuality, ScreenshotError>,
}

/// What came of a step of a test.
#[derive(Debug, PartialEq, Eq)]
pub enum ProbeEvent {
    Done,
    Failed,
    /// A profile was found, with this configuration.
    Profile(AsstConfig),
    ProfileMissing,
    Connected(ConnectionProbeMetadata),
    /// A screenshot was taken, and examined by [`examine_capture`].
    Captured(Capture),
}

/// How far a test has come.
#[derive(Debug, PartialEq, Eq)]
pub struct Probe {
    pub args: ConnectionTestArgs,
    pub platform: Platform,
    pub step: ProbeStep,
}

/// The text of an error code.
pub open spec fn code_text(code: ProbeCode) -> Seq<char> {
    match code {
        ProbeCode::ProfileLoadFailed => "profile_load_failed"@,
        ProbeCode::ConnectionPlatformUnsupported => "connection_platform_unsupported"@,
        ProbeCode::MaaCoreLoadFailed => "maa_core_load_failed"@,
        ProbeCode::MaaCoreSetupFailed => "maa_core_setup_failed"@,
        ProbeCode::AssistantCreateFailed => "assistant_create_failed"@,
        ProbeCode::Win32AttachFailed => "win32_attach_failed"@,
        ProbeCode::AdbConnectFailed => "adb_connect_failed"@,
        ProbeCode::ScreenshotCaptureFailed => "screenshot_capture_failed"@,
    }
}

impl ProbeCode {
    /// The text of this error code.
    pub fn text(&self) -> (text: &'static str)
        ensures
            text@ == code_text(*self),
    {
        match self {
            ProbeCode::ProfileLoadFailed => "profile_load_failed",
            ProbeCode::ConnectionPlatformUnsupported => "connection_platform_unsupported",
            ProbeCode::MaaCoreLoadFailed => "maa_core_load_failed",
            ProbeCode::MaaCoreSetupFailed => "maa_core_setup_failed",
            ProbeCode::AssistantCreateFailed => "assistant_create_failed",
            ProbeCode::Win32AttachFailed => "win32_attach_failed",
            ProbeCode::AdbConnectFailed => "adb_connect_failed",
            ProbeCode::ScreenshotCaptureFailed => "screenshot_capture_failed",
        }
    }
}

/// The end of a test that failed.
pub open spec fn probe_failed(code: ProbeCode, error: ProbeError) -> ProbeStep {
    ProbeStep::Finished(ProbeOutcome::Failed { code, error })
}

/// The error code of a connection of kind `preset` that does not stand.
pub open spec fn connect_code(preset: Preset) -> ProbeCode {
    if preset == Preset::Win32 {
        ProbeCode::Win32AttachFailed
    } else {
        ProbeCode::AdbConnectFailed
    }
}

/// What the failure of `step` ends in: the error code of how far the test has come.
pub open spec fn step_failed(step: ProbeStep) -> ProbeStep {
    match step {
        ProbeStep::FindProfile(ProfileSearch::Named(_)) => probe_failed(
            ProbeCode::ProfileLoadFailed,
            ProbeError::Call(ProbeCall::FindNamedProfile),
        ),
        ProbeStep::FindProfile(_) => probe_failed(
            ProbeCode::ProfileLoadFailed,
            ProbeError::Call(ProbeCall::FindProfile),
        ),
        ProbeStep::LoadCore(_) => probe_failed(
            ProbeCode::MaaCoreLoadFailed,
            ProbeError::Call(ProbeCall::LoadCore),
        ),
        ProbeStep::SetupCore(_, step) => probe_failed(
            ProbeCode::MaaCoreSetupFailed,
            ProbeError::Call(ProbeCall::SetupCore(step)),
        ),
        ProbeStep::CreateAssistant(_) => probe_failed(
            ProbeCode::AssistantCreateFailed,
            ProbeError::Call(ProbeCall::CreateAssistant),
        ),
        ProbeStep::ApplyInstanceOptions(_) => probe_failed(
            ProbeCode::AssistantCreateFailed,
            ProbeError::Call(ProbeCall::ApplyInstanceOptions),
        ),
        ProbeStep::Connect(preset) => probe_failed(
            connect_code(preset),
            ProbeError::Call(ProbeCall::Connect),
        ),
        ProbeStep::Capture(_, _) => probe_failed(
            ProbeCode::ScreenshotCaptureFailed,
            ProbeError::Call(ProbeCall::Capture),
        ),
        step => step,
    }
}

/// The step behind having the configuration: the connection has to be one that there is.
pub open spec fn probe_with_config(config: AsstConfig, platform: Platform) -> ProbeStep {
    if is_supported(config.connection.preset, platform) {
        ProbeStep::LoadCore(config.connection.preset)
    } else {
        probe_failed(ProbeCode::ConnectionPlatformUnsupported, ProbeError::Unsupported)
    }
}

/// Whether `capture` is what comes of the screenshot `image`: it has to be there, to hold a byte
/// and to be a PNG image that shows something to measure.
pub open spec fn is_capture_of(capture: Capture, image: Option<Seq<u8>>) -> bool {
    match image {
        None => capture.analysis == Err::<ScreenshotQuality, ScreenshotError>(
            ScreenshotError::Missing,
        ),
        Some(bytes) => {
            &&& capture.length == bytes.len()
            &&& if bytes.len() == 0 {
                capture.analysis == Err::<ScreenshotQuality, ScreenshotError>(
                    ScreenshotError::Empty,
                )
            } else {
                is_analysis_of(capture.analysis, decoded_png(bytes))
            }
        },
    }
}

/// What a screenshot makes of the test.
pub open spec fn captured(
    preset: Preset,
    metadata: ConnectionProbeMetadata,
    capture: Capture,
) -> ProbeOutcome {
    match capture.analysis {
        Ok(quality) => ProbeOutcome::Succeeded {
            preset,
            screenshot_bytes: capture.length,
            quality: Some(quality),
            metadata,
        },
        Err(error) => ProbeOutcome::Failed {
            code: ProbeCode::ScreenshotCaptureFailed,
            error: ProbeError::Screenshot(error),
        },
    }
}

/// The step that follows on `event`. An event that does not answer the step leaves it.
pub open spec fn next_probe_step(probe: Probe, event: ProbeEvent) -> ProbeStep {
    match (probe.step, event) {
        (step, ProbeEvent::Failed) => step_failed(step),
        (ProbeStep::FindProfile(place), ProbeEvent::ProfileMissing) => {
            match profile_step(place, Lookup::Missing) {
                ProfileStep::Search(next) => ProbeStep::FindProfile(next),
                ProfileStep::TakeBuiltIn => ProbeStep::TakeBuiltInProfile,
                _ => step_failed(ProbeStep::FindProfile(place)),
            }
        },
        (ProbeStep::FindProfile(_), ProbeEvent::Profile(config)) => {
            probe_with_config(config, probe.platform)
        },
        (ProbeStep::TakeBuiltInProfile, ProbeEvent::Profile(config)) => {
            probe_with_config(config, probe.platform)
        },
        (ProbeStep::LoadCore(preset), ProbeEvent::Done) => {
            ProbeStep::SetupCore(preset, SetupStep::EnsureStateDirectory)
        },
        (ProbeStep::SetupCore(preset, step), ProbeEvent::Done) => match next_setup_step(step) {
            Some(next) => ProbeStep::SetupCore(preset, next),
            None => ProbeStep::CreateAssistant(preset),
        },
        (ProbeStep::CreateAssistant(preset), ProbeEvent::Done) => {
            ProbeStep::ApplyInstanceOptions(preset)
        },
        (ProbeStep::ApplyInstanceOptions(preset), ProbeEvent::Done) => ProbeStep::Connect(preset),
        (ProbeStep::Connect(preset), ProbeEvent::Connected(metadata)) => {
            if probe.args.screencap {
                ProbeStep::Capture(preset, metadata)
            } else {
                ProbeStep::Finished(
                    ProbeOutcome::Succeeded {
                        preset,
                        screenshot_bytes: 0,
                        quality: None,
                        metadata,
                    },
                )
            }
        },
        (ProbeStep::Capture(preset, metadata), ProbeEvent::Captured(capture)) => {
            ProbeStep::Finished(captured(preset, metadata, capture))
        },
        (step, _) => step,
    }
}

/// The first step of a test: there is only one where only its capabilities are asked for.
pub open spec fn first_probe_step(args: ConnectionTestArgs) -> ProbeStep {
    if args.capabilities {
        ProbeStep::Finished(ProbeOutcome::Capabilities)
    } else {
        ProbeStep::FindProfile(first_place(args.profile))
    }
}

fn fail(code: ProbeCode, error: ProbeError) -> (step: ProbeStep)
    ensures
        step == probe_failed(code, error),
{
    ProbeStep::Finished(ProbeOutcome::Failed { code, error })
}

fn fail_step(step: ProbeStep) -> (next: ProbeStep)
    ensures
        next == step_failed(step),
{
    match step {
        ProbeStep::FindProfile(place) => {
            let call = match find_profile(&place, Lookup::Failed) {
                ProfileStep::NamedNotFound => ProbeCall::FindNamedProfile,
                _ => ProbeCall::FindProfile,
            };
            fail(ProbeCode::ProfileLoadFailed, ProbeError::Call(call))
        },
        ProbeStep::LoadCore(_) => {
            fail(ProbeCode::MaaCoreLoadFailed, ProbeError::Call(ProbeCall::LoadCore))
        },
        ProbeStep::SetupCore(_, step) => {
            fail(ProbeCode::MaaCoreSetupFailed, ProbeError::Call(ProbeCall::SetupCore(step)))
        },
        ProbeStep::CreateAssistant(_) => {
            fail(ProbeCode::AssistantCreateFailed, ProbeError::Call(ProbeCall::CreateAssistant))
        },
        ProbeStep::ApplyInstanceOptions(_) => fail(
            ProbeCode::AssistantCreateFailed,
            ProbeError::Call(ProbeCall::ApplyInstanceOptions),
        ),
        ProbeStep::Connect(preset) => {
            let code = match preset {
                Preset::Win32 => ProbeCode::Win32AttachFailed,
                _ => ProbeCode::AdbConnectFailed,
            };
            fail(code, ProbeError::Call(ProbeCall::Connect))
        },
        ProbeStep::Capture(_, _) => {
            fail(ProbeCode::ScreenshotCaptureFailed, ProbeError::Call(ProbeCall::Capture))
        },
        step => step,
    }
}

fn with_config(config: &AsstConfig, platform: Platform) -> (step: ProbeStep)
    ensures
        step == probe_with_config(*config, platform),
{
    match ensure_connection_supported(&config.connection, platform) {
        Ok(()) => ProbeStep::LoadCore(config.connection.preset()),
        Err(_) => fail(ProbeCode::ConnectionPlatformUnsupported, ProbeError::Unsupported),
    }
}

/// Examines a screenshot, if there is one.
pub fn examine_capture(image: Option<&[u8]>) -> (capture: Capture)
    ensures
        is_capture_of(
            capture,
            match image {
                Some(bytes) => Some(bytes@),
                None => None,
            },
        ),
        capture.analysis is Ok ==> capture.length > 0,
{
    match require_screenshot_bytes(image) {
        Ok(length) => match image {
            Some(bytes) => Capture { length, analysis: analyze_screenshot_quality(bytes) },
            None => Capture { length: 0, analysis: Err(ScreenshotError::Missing) },
        },
        Err(error) => Capture { length: 0, analysis: Err(error) },
    }
}

/// Decides what a screenshot makes of the test.
pub fn finish_capture(
    preset: Preset,
    metadata: ConnectionProbeMetadata,
    capture: Capture,
) -> (outcome: ProbeOutcome)
    ensures
        outcome == captured(preset, metadata, capture),
{
    match capture.analysis {
        Ok(quality) => ProbeOutcome::Succeeded {
            preset,
            screenshot_bytes: capture.length,
            quality: Some(quality),
            metadata,
        },
        Err(error) => ProbeOutcome::Failed {
            code: ProbeCode::ScreenshotCaptureFailed,
            error: ProbeError::Screenshot(error),
        },
    }
}

/// Starts a test.
pub fn start_test(args: ConnectionTestArgs, platform: Platform) -> (probe: Probe)
    ensures
        probe == test_started(args, platform),
{
    let step = if args.capabilities {
        ProbeStep::Finished(ProbeOutcome::Capabilities)
    } else {
        ProbeStep::FindProfile(first_search(&args.profile))
    };
    Probe { args, platform, step }
}

/// Tests a connection, step by step.
pub fn test_connection(probe: Probe, event: ProbeEvent) -> (next: Probe)
    ensures
        next == probe_next(probe, event),
{
    let Probe { args, platform, step } = probe;
    let step = match (step, event) {
        (step, ProbeEvent::Failed) => fail_step(step),
        (ProbeStep::FindProfile(place), ProbeEvent::ProfileMissing) => {
            match find_profile(&place, Lookup::Missing) {
                ProfileStep::Search(next) => ProbeStep::FindProfile(next),
                ProfileStep::TakeBuiltIn => ProbeStep::TakeBuiltInProfile,
                _ => fail_step(ProbeStep::FindProfile(place)),
            }
        },
        (ProbeStep::FindProfile(_), ProbeEvent::Profile(config)) => with_config(&config, platform),
        (ProbeStep::TakeBuiltInProfile, ProbeEvent::Profile(config)) => {
            with_config(&config, platform)
        },
        (ProbeStep::LoadCore(preset), ProbeEvent::Done) => {
            ProbeStep::SetupCore(preset, SetupStep::EnsureStateDirectory)
        },
        (ProbeStep::SetupCore(preset, step), ProbeEvent::Done) => match setup_core(step) {
            Some(next) => ProbeStep::SetupCore(preset, next),
            None => ProbeStep::CreateAssistant(preset),
        },
        (ProbeStep::CreateAssistant(preset), ProbeEvent::Done) => {
            ProbeStep::ApplyInstanceOptions(preset)
        },
        (ProbeStep::ApplyInstanceOptions(preset), ProbeEvent::Done) => ProbeStep::Connect(preset),
        (ProbeStep::Connect(preset), ProbeEvent::Connected(metadata)) => {
            if args.screencap {
                ProbeStep::Capture(preset, metadata)
            } else {
                ProbeStep::Finished(
                    ProbeOutcome::Succeeded {
                        preset,
                        screenshot_bytes: 0,
                        quality: None,
                        metadata,
                    },
                )
            }
        },
        (ProbeStep::Capture(preset, metadata), ProbeEvent::Captured(capture)) => {
            ProbeStep::Finished(finish_capture(preset, metadata, capture))
        },
        (step, _) => step,
    };
    Probe { args, platform, step }
}

/// What is said besides the cause where `call` failed.
pub open spec fn probe_call_context(call: ProbeCall) -> Option<Seq<char>> {
    match call {
        ProbeCall::FindNamedProfile => Some("Failed to find profile file!"@),
        ProbeCall::LoadCore => Some("Failed to load MaaCore!"@),
        ProbeCall::SetupCore(SetupStep::SetUserDirectory) => {
            Some("Failed to set user directory!"@)
        },
        ProbeCall::CreateAssistant => Some("Failed to create Assistant"@),
        _ => None,
    }
}

impl ProbeCall {
    /// Says what failed, where the cause alone would not.
    pub fn context(&self) -> (context: Option<&'static str>)
        ensures
            context is Some <==> probe_call_context(*self) is Some,
            context matches Some(context) ==> context@ == probe_call_context(*self)->0,
    {
        match self {
            ProbeCall::FindNamedProfile => Some("Failed to find profile file!"),
            ProbeCall::LoadCore => Some("Failed to load MaaCore!"),
            ProbeCall::SetupCore(SetupStep::SetUserDirectory) => {
                Some("Failed to set user directory!")
            },
            ProbeCall::CreateAssistant => Some("Failed to create Assistant"),
            _ => None,
        }
    }
}

impl ProbeError {
    /// The cause behind what went wrong, where no call failed and there is one.
    pub fn cause(&self) -> (cause: Option<&str>)
        ensures
            cause is Some <==> (*self matches ProbeError::Screenshot(error)
                && screenshot_error_cause(error) is Some),
            *self matches ProbeError::Screenshot(error) ==> (cause matches Some(cause) ==> cause@
                == screenshot_error_cause(error)->0),
    {
        match self {
            ProbeError::Screenshot(error) => error.cause(),
            _ => None,
        }
    }

    /// Says what went wrong, where no call failed.
    pub fn message(&self) -> (message: Option<&'static str>)
        ensures
            message is None <==> *self is Call,
            *self == ProbeError::Unsupported ==> message->0@
                == "Win32 connection is only supported on Windows"@,
            *self matches ProbeError::Screenshot(error) ==> message->0@
                == screenshot_error_message(error),
    {
        match self {
            ProbeError::Call(_) => None,
            ProbeError::Unsupported => Some("Win32 connection is only supported on Windows"),
            ProbeError::Screenshot(error) => Some(error.message()),
        }
    }
}

/// What a test prints.
pub enum ProbeOutput {
    Nothing,
    Json(Value),
    Text(String),
}

/// What is printed, by what it holds.
pub enum Printed {
    Nothing,
    Json(Json),
    Text(Seq<char>),
}

impl View for ProbeOutput {
    type V = Printed;

    open spec fn view(&self) -> Printed {
        match self {
            ProbeOutput::Nothing => Printed::Nothing,
            ProbeOutput::Json(value) => Printed::Json(json_of(*value)),
            ProbeOutput::Text(text) => Printed::Text(text@),
        }
    }
}

/// What is printed of `outcome`, in JSON or in words. A failure is printed in JSON alone.
pub open spec fn printed(outcome: ProbeOutcome, json: bool, platform: Platform) -> Printed {
    match outcome {
        ProbeOutcome::Capabilities => if json {
            Printed::Json(capabilities_payload(platform))
        } else {
            Printed::Text(
                "Connection probe capability: "@ + WIN32_PROBE_CAPABILITY_VERSION@ + " (schema "@
                    + digits(CONNECTION_PROBE_SCHEMA_VERSION as nat) + ")"@,
            )
        },
        ProbeOutcome::Succeeded { preset, screenshot_bytes, quality, metadata } => if json {
            Printed::Json(
                success_payload(label_of(preset), screenshot_bytes as u64, quality, metadata),
            )
        } else {
            Printed::Text(
                "Connection test succeeded ("@ + label_of(preset) + ", screenshot bytes: "@
                    + digits(screenshot_bytes as nat) + ")"@,
            )
        },
        ProbeOutcome::Failed { code, .. } => if json {
            Printed::Json(failure_payload(code_text(code)))
        } else {
            Printed::Nothing
        },
    }
}

/// What to print of `outcome`.
pub fn report(outcome: &ProbeOutcome, json: bool, platform: Platform) -> (output: ProbeOutput)
    ensures
        output@ == printed(*outcome, json, platform),
{
    match outcome {
        ProbeOutcome::Capabilities => if json {
            ProbeOutput::Json(connection_capabilities_payload(platform))
        } else {
            let schema = number_text(CONNECTION_PROBE_SCHEMA_VERSION as u64);
            ProbeOutput::Text(
                "Connection probe capability: ".to_owned().concat(
                    WIN32_PROBE_CAPABILITY_VERSION,
                ).concat(" (schema ").concat(schema.as_str()).concat(")"),
            )
        },
        ProbeOutcome::Succeeded { preset, screenshot_bytes, quality, metadata } => {
            let label = connection_label(*preset);
            if json {
                ProbeOutput::Json(
                    connection_probe_success_payload(
                        label,
                        *screenshot_bytes,
                        quality.as_ref(),
                        metadata,
                    ),
                )
            } else {
                let bytes = number_text(*screenshot_bytes as u64);
                ProbeOutput::Text(
                    "Connection test succeeded (".to_owned().concat(label).concat(
                        ", screenshot bytes: ",
                    ).concat(bytes.as_str()).concat(")"),
                )
            }
        },
        ProbeOutcome::Failed { code, .. } => if json {
            ProbeOutput::Json(connection_probe_failure_payload(code.text()))
        } else {
            ProbeOutput::Nothing
        },
    }
}

/// The start of a test.
pub open spec fn test_started(args: ConnectionTestArgs, platform: Platform) -> Probe {
    Probe { args, platform, step: first_probe_step(args) }
}

/// How far a test has come once `event` has come in.
pub open spec fn probe_next(probe: Probe, event: ProbeEvent) -> Probe {
    Probe { step: next_probe_step(probe, event), ..probe }
}

/// How far a test has come once `events` have come in, one after the other.
pub open spec fn probe_after(probe: Probe, events: Seq<ProbeEvent>) -> Probe
    decreases events.len(),
{
    if events.len() == 0 {
        probe
    } else {
        probe_next(probe_after(probe, events.drop_last()), events.last())
    }
}

/// A test keeps what it was asked for.
pub proof fn law_a_test_keeps_its_arguments(probe: Probe, events: Seq<ProbeEvent>)
    ensures
        probe_after(probe, events).args == probe.args,
        probe_after(probe, events).platform == probe.platform,
    decreases events.len(),
{
    if events.len() > 0 {
        law_a_test_keeps_its_arguments(probe, events.drop_last());
    }
}

/// A test that is over stays as it is.
pub proof fn law_the_end_of_a_test_is_final(probe: Probe, event: ProbeEvent)
    requires
        probe.step is Finished,
    ensures
        probe_next(probe, event) == probe,
{
}

/// Capabilities are reported at once: neither a profile nor MaaCore is loaded, whatever happens.
pub proof fn law_capabilities_take_no_step(
    args: ConnectionTestArgs,
    platform: Platform,
    events: Seq<ProbeEvent>,
)
    requires
        args.capabilities,
    ensures
        probe_after(test_started(args, platform), events).step == ProbeStep::Finished(
            ProbeOutcome::Capabilities,
        ),
    decreases events.len(),
{
    if events.len() > 0 {
        law_capabilities_take_no_step(args, platform, events.drop_last());
    }
}

/// The kind of connection that `step` is about, once it is known.
pub open spec fn preset_of(step: ProbeStep) -> Option<Preset> {
    match step {
        ProbeStep::LoadCore(preset) => Some(preset),
        ProbeStep::SetupCore(preset, _) => Some(preset),
        ProbeStep::CreateAssistant(preset) => Some(preset),
        ProbeStep::ApplyInstanceOptions(preset) => Some(preset),
        ProbeStep::Connect(preset) => Some(preset),
        ProbeStep::Capture(preset, _) => Some(preset),
        ProbeStep::Finished(ProbeOutcome::Succeeded { preset, .. }) => Some(preset),
        _ => None,
    }
}

/// MaaCore is loaded, and a connection tried, only for a kind of connection that there is on the
/// platform, whatever happens.
pub proof fn law_unsupported_connections_are_not_tried(
    args: ConnectionTestArgs,
    platform: Platform,
    events: Seq<ProbeEvent>,
)
    ensures
        preset_of(probe_after(test_started(args, platform), events).step) matches Some(preset)
            ==> is_supported(preset, platform),
    decreases events.len(),
{
    if events.len() > 0 {
        law_unsupported_connections_are_not_tried(args, platform, events.drop_last());
        law_a_test_keeps_its_arguments(test_started(args, platform), events.drop_last());
    }
}

/// A window that is configured elsewhere than on Windows ends the test as soon as it is read,
/// with a code of its own.
pub proof fn law_win32_is_not_tried_elsewhere(probe: Probe, config: AsstConfig)
    requires
        probe.step is FindProfile || probe.step is TakeBuiltInProfile,
        probe.platform != Platform::Windows,
        config.connection.preset == Preset::Win32,
    ensures
        probe_next(probe, ProbeEvent::Profile(config)).step == probe_failed(
            ProbeCode::ConnectionPlatformUnsupported,
            ProbeError::Unsupported,
        ),
{
}

/// Every error code of a test is reported as it is.
pub proof fn law_probe_codes_are_stable(code: ProbeCode)
    ensures
        is_stable_code(code_text(code)),
        stable_code(code_text(code)) == code_text(code),
{
    reveal_strlit("profile_load_failed");
    reveal_strlit("connection_platform_unsupported");
    reveal_strlit("maa_core_load_failed");
    reveal_strlit("maa_core_setup_failed");
    reveal_strlit("assistant_create_failed");
    reveal_strlit("win32_attach_failed");
    reveal_strlit("adb_connect_failed");
    reveal_strlit("screenshot_capture_failed");
}

/// Different error codes are written differently.
pub proof fn law_probe_codes_tell_failures_apart(left: ProbeCode, right: ProbeCode)
    ensures
        code_text(left) == code_text(right) <==> left == right,
{
    reveal_strlit("profile_load_failed");
    reveal_strlit("connection_platform_unsupported");
    reveal_strlit("maa_core_load_failed");
    reveal_strlit("maa_core_setup_failed");
    reveal_strlit("assistant_create_failed");
    reveal_strlit("win32_attach_failed");
    reveal_strlit("adb_connect_failed");
    reveal_strlit("screenshot_capture_failed");
    assert("profile_load_failed"@.len() == 19 && "win32_attach_failed"@.len() == 19);
    assert("profile_load_failed"@[0] == 'p' && "win32_attach_failed"@[0] == 'w');
    assert("connection_platform_unsupported"@.len() == 31);
    assert("maa_core_load_failed"@.len() == 20);
    assert("maa_core_setup_failed"@.len() == 21);
    assert("assistant_create_failed"@.len() == 23);
    assert("adb_connect_failed"@.len() == 18);
    assert("screenshot_capture_failed"@.len() == 25);
}

/// A call that fails ends the test, with the code of how far it has come.
pub proof fn law_a_failed_call_ends_the_test(probe: Probe)
    requires
        !(probe.step is Finished),
        !(probe.step is TakeBuiltInProfile),
    ensures
        probe_next(probe, ProbeEvent::Failed).step matches ProbeStep::Finished(
            ProbeOutcome::Failed { code, error },
        ) && error is Call && code == (match probe.step {
            ProbeStep::LoadCore(_) => ProbeCode::MaaCoreLoadFailed,
            ProbeStep::SetupCore(_, _) => ProbeCode::MaaCoreSetupFailed,
            ProbeStep::CreateAssistant(_) => ProbeCode::AssistantCreateFailed,
            ProbeStep::ApplyInstanceOptions(_) => ProbeCode::AssistantCreateFailed,
            ProbeStep::Connect(Preset::Win32) => ProbeCode::Win32AttachFailed,
            ProbeStep::Connect(_) => ProbeCode::AdbConnectFailed,
            ProbeStep::Capture(_, _) => ProbeCode::ScreenshotCaptureFailed,
            _ => ProbeCode::ProfileLoadFailed,
        }),
{
}

/// Whether `event` says that `step` was carried out.
pub open spec fn is_probe_answer(step: ProbeStep, event: ProbeEvent) -> bool {
    match step {
        ProbeStep::FindProfile(_) => event is Profile || event is ProfileMissing,
        ProbeStep::TakeBuiltInProfile => event is Profile,
        ProbeStep::Connect(_) => event is Connected,
        ProbeStep::Capture(_, _) => event is Captured,
        ProbeStep::Finished(_) => false,
        _ => event is Done,
    }
}

/// The place of a step in the order of a test.
pub open spec fn probe_place(step: ProbeStep) -> int {
    match step {
        ProbeStep::FindProfile(ProfileSearch::Legacy) => 1,
        ProbeStep::FindProfile(_) => 0,
        ProbeStep::TakeBuiltInProfile => 2,
        ProbeStep::LoadCore(_) => 3,
        ProbeStep::SetupCore(_, SetupStep::EnsureStateDirectory) => 4,
        ProbeStep::SetupCore(_, SetupStep::SetUserDirectory) => 5,
        ProbeStep::SetupCore(_, SetupStep::ApplyStaticOptions) => 6,
        ProbeStep::SetupCore(_, SetupStep::LoadResource) => 7,
        ProbeStep::CreateAssistant(_) => 8,
        ProbeStep::ApplyInstanceOptions(_) => 9,
        ProbeStep::Connect(_) => 10,
        ProbeStep::Capture(_, _) => 11,
        ProbeStep::Finished(_) => 12,
    }
}

/// A test only ever goes on: a step that was carried out is left for one behind it, so it ends
/// after at most twelve of them. What is neither an answer nor a failure changes nothing.
pub proof fn law_every_answer_moves_a_test_on(probe: Probe, event: ProbeEvent)
    ensures
        is_probe_answer(probe.step, event) ==> probe_place(probe.step) < probe_place(
            probe_next(probe, event).step,
        ) <= 12,
        !is_probe_answer(probe.step, event) && !(event is Failed) ==> probe_next(probe, event)
            == probe,
{
}

/// A test fails for a reason and for no other: a call failed, the named profile is not there, the
/// platform has no such connection, or the screenshot cannot be used.
pub proof fn law_tests_fail_for_a_reason(probe: Probe, event: ProbeEvent)
    requires
        !(probe.step is Finished),
        probe_next(probe, event).step matches ProbeStep::Finished(outcome) && outcome is Failed,
    ensures
        ({
            let error = probe_next(probe, event).step->Finished_0->error;
            ||| event is Failed && error is Call
            ||| event is ProfileMissing && error == ProbeError::Call(ProbeCall::FindNamedProfile)
                && (probe.step matches ProbeStep::FindProfile(place) && place is Named)
            ||| event matches ProbeEvent::Profile(config) && error == ProbeError::Unsupported
                && !is_supported(config.connection.preset, probe.platform)
            ||| event is Captured && error is Screenshot
        }),
{
}

/// A screenshot is taken where it is asked for and only there: if screenshots are examined as
/// [`examine_capture`] does, a test succeeds with one that is not empty and was measured, or with
/// none.
pub proof fn law_a_screenshot_is_taken_where_asked_for(
    args: ConnectionTestArgs,
    platform: Platform,
    events: Seq<ProbeEvent>,
)
    requires
        forall|i: int|
            0 <= i < events.len() ==> (#[trigger] events[i] matches ProbeEvent::Captured(capture)
                ==> capture.analysis is Ok ==> capture.length > 0),
    ensures
        ({
            let step = probe_after(test_started(args, platform), events).step;
            &&& step is Capture ==> args.screencap
            &&& step matches ProbeStep::Finished(
                ProbeOutcome::Succeeded { screenshot_bytes, quality, .. },
            ) ==> {
                &&& args.screencap <==> screenshot_bytes > 0
                &&& args.screencap <==> quality is Some
            }
        }),
    decreases events.len(),
{
    if events.len() > 0 {
        let before = events.drop_last();
        assert forall|i: int| 0 <= i < before.len() implies (
        #[trigger] before[i] matches ProbeEvent::Captured(capture) ==> capture.analysis is Ok
            ==> capture.length > 0) by {
            assert(before[i] == events[i]);
        }
        law_a_screenshot_is_taken_where_asked_for(args, platform, before);
        law_a_test_keeps_its_arguments(test_started(args, platform), before);
        assert(events.last() == events[events.len() - 1]);
    }
}

/// A test that failed prints in JSON its error code, and in words nothing: no path, no cause.
pub proof fn law_failures_print_only_their_code(
    code: ProbeCode,
    error: ProbeError,
    platform: Platform,
)
    ensures
        printed(ProbeOutcome::Failed { code, error }, false, platform) == Printed::Nothing,
        printed(ProbeOutcome::Failed { code, error }, true, platform) == Printed::Json(
            failure_payload(code_text(code)),
        ),
        failure_payload(code_text(code))->Object_0["error_code"@] == Json::Text(code_text(code)),
{
    law_probe_codes_are_stable(code);
    law_failures_expose_only_a_code(code_text(code));
}

/// Every step of a test has its reason: the step before it, what came of that, and what was asked
/// for. The kind of connection and what is known of it go from step to step as they came.
pub proof fn law_every_step_of_a_test_has_its_reason(probe: Probe, event: ProbeEvent)
    requires
        probe_next(probe, event).step != probe.step,
    ensures
        ({
            let step = probe.step;
            let asked = step is FindProfile || step is TakeBuiltInProfile;
            match probe_next(probe, event).step {
                ProbeStep::FindProfile(ProfileSearch::Legacy) => step == ProbeStep::FindProfile(
                    ProfileSearch::Default,
                ) && event is ProfileMissing,
                ProbeStep::FindProfile(_) => false,
                ProbeStep::TakeBuiltInProfile => step == ProbeStep::FindProfile(
                    ProfileSearch::Legacy,
                ) && event is ProfileMissing,
                ProbeStep::LoadCore(preset) => asked && (event matches ProbeEvent::Profile(config)
                    && config.connection.preset == preset) && (preset == Preset::Win32
                    ==> probe.platform == Platform::Windows),
                ProbeStep::SetupCore(preset, SetupStep::EnsureStateDirectory) => step
                    == ProbeStep::LoadCore(preset) && event is Done,
                ProbeStep::SetupCore(preset, SetupStep::SetUserDirectory) => step
                    == ProbeStep::SetupCore(preset, SetupStep::EnsureStateDirectory)
                    && event is Done,
                ProbeStep::SetupCore(preset, SetupStep::ApplyStaticOptions) => step
                    == ProbeStep::SetupCore(preset, SetupStep::SetUserDirectory) && event is Done,
                ProbeStep::SetupCore(preset, SetupStep::LoadResource) => step
                    == ProbeStep::SetupCore(preset, SetupStep::ApplyStaticOptions)
                    && event is Done,
                ProbeStep::CreateAssistant(preset) => step == ProbeStep::SetupCore(
                    preset,
                    SetupStep::LoadResource,
                ) && event is Done,
                ProbeStep::ApplyInstanceOptions(preset) => step == ProbeStep::CreateAssistant(
                    preset,
                ) && event is Done,
                ProbeStep::Connect(preset) => step == ProbeStep::ApplyInstanceOptions(preset)
                    && event is Done,
                ProbeStep::Capture(preset, metadata) => step == ProbeStep::Connect(preset)
                    && event == ProbeEvent::Connected(metadata) && probe.args.screencap,
                ProbeStep::Finished(ProbeOutcome::Capabilities) => false,
                ProbeStep::Finished(
                    ProbeOutcome::Succeeded { preset, screenshot_bytes, quality, metadata },
                ) => {
                    ||| step == ProbeStep::Connect(preset) && event == ProbeEvent::Connected(
                        metadata,
                    ) && !probe.args.screencap && screenshot_bytes == 0 && quality is None
                    ||| step == ProbeStep::Capture(preset, metadata) && (event
                        matches ProbeEvent::Captured(capture) && capture.length
                        == screenshot_bytes && (capture.analysis matches Ok(found) && quality
                        == Some(found)))
                },
                ProbeStep::Finished(ProbeOutcome::Failed { code, error }) => match (step, event) {
                    (ProbeStep::FindProfile(place), ProbeEvent::Failed) => code
                        == ProbeCode::ProfileLoadFailed && error == ProbeError::Call(
                        if place is Named {
                            ProbeCall::FindNamedProfile
                        } else {
                            ProbeCall::FindProfile
                        },
                    ),
                    (ProbeStep::FindProfile(place), ProbeEvent::ProfileMissing) => code
                        == ProbeCode::ProfileLoadFailed && error == ProbeError::Call(
                        ProbeCall::FindNamedProfile,
                    ) && place is Named,
                    (_, ProbeEvent::Profile(config)) => asked && code
                        == ProbeCode::ConnectionPlatformUnsupported && error
                        == ProbeError::Unsupported && config.connection.preset == Preset::Win32
                        && probe.platform != Platform::Windows,
                    (ProbeStep::LoadCore(_), ProbeEvent::Failed) => code
                        == ProbeCode::MaaCoreLoadFailed && error == ProbeError::Call(
                        ProbeCall::LoadCore,
                    ),
                    (ProbeStep::SetupCore(_, at), ProbeEvent::Failed) => code
                        == ProbeCode::MaaCoreSetupFailed && error == ProbeError::Call(
                        ProbeCall::SetupCore(at),
                    ),
                    (ProbeStep::CreateAssistant(_), ProbeEvent::Failed) => code
                        == ProbeCode::AssistantCreateFailed && error == ProbeError::Call(
                        ProbeCall::CreateAssistant,
                    ),
                    (ProbeStep::ApplyInstanceOptions(_), ProbeEvent::Failed) => code
                        == ProbeCode::AssistantCreateFailed && error == ProbeError::Call(
                        ProbeCall::ApplyInstanceOptions,
                    ),
                    (ProbeStep::Connect(preset), ProbeEvent::Failed) => error
                        == ProbeError::Call(ProbeCall::Connect) && code == (if preset
                        == Preset::Win32 {
                        ProbeCode::Win32AttachFailed
                    } else {
                        ProbeCode::AdbConnectFailed
                    }),
                    (ProbeStep::Capture(_, _), ProbeEvent::Failed) => code
                        == ProbeCode::ScreenshotCaptureFailed && error == ProbeError::Call(
                        ProbeCall::Capture,
                    ),
                    (ProbeStep::Capture(_, _), ProbeEvent::Captured(capture)) => code
                        == ProbeCode::ScreenshotCaptureFailed && (capture.analysis
                        matches Err(found) && error == ProbeError::Screenshot(found)),
                    _ => false,
                },
            }
        }),
        probe_next(probe, event).args == probe.args,
        probe_next(probe, event).platform == probe.platform,
{
}

/// What comes of a step of a test always counts, and nothing that answers another step does.
pub proof fn law_no_answer_in_a_test_is_lost(probe: Probe, event: ProbeEvent)
    ensures
        ({
            let answers = match probe.step {
                ProbeStep::FindProfile(_) => event is Profile || event is ProfileMissing
                    || event is Failed,
                ProbeStep::TakeBuiltInProfile => event is Profile,
                ProbeStep::Connect(_) => event is Connected || event is Failed,
                ProbeStep::Capture(_, _) => event is Captured || event is Failed,
                ProbeStep::Finished(_) => false,
                _ => event is Done || event is Failed,
            };
            &&& answers ==> probe_next(probe, event).step != probe.step
            &&& !answers ==> probe_next(probe, event) == probe
        }),
{
}

/// A test starts where it has to: with the profile that is named, or the default one, or, where
/// only the capabilities are asked for, at its end.
pub proof fn law_a_test_starts_with_its_profile(args: ConnectionTestArgs, platform: Platform)
    ensures
        ({
            let probe = test_started(args, platform);
            &&& probe.args == args
            &&& probe.platform == platform
            &&& args.capabilities ==> probe.step == ProbeStep::Finished(
                ProbeOutcome::Capabilities,
            )
            &&& !args.capabilities ==> (args.profile matches Some(name) ==> probe.step
                == ProbeStep::FindProfile(ProfileSearch::Named(name)))
            &&& !args.capabilities && args.profile is None ==> probe.step
                == ProbeStep::FindProfile(ProfileSearch::Default)
        }),
{
}

/// What a test that succeeds reports of the connection is what connecting handed in, and the kind
/// of connection is the one of the profile that was taken.
pub proof fn law_a_test_reports_its_connection(
    args: ConnectionTestArgs,
    platform: Platform,
    events: Seq<ProbeEvent>,
)
    ensures
        ({
            let start = test_started(args, platform);
            let connected = |metadata: ConnectionProbeMetadata, i: int|
                0 <= i < events.len() && probe_after(start, events.take(i)).step is Connect
                    && events[i] == ProbeEvent::Connected(metadata);
            let taken = |preset: Preset, i: int|
                0 <= i < events.len() && (probe_after(start, events.take(i)).step is FindProfile
                    || probe_after(start, events.take(i)).step is TakeBuiltInProfile) && (events[i]
                    matches ProbeEvent::Profile(config) && config.connection.preset == preset);
            match probe_after(start, events).step {
                ProbeStep::LoadCore(preset) => exists|i: int| #[trigger] taken(preset, i),
                ProbeStep::SetupCore(preset, _) => exists|i: int| #[trigger] taken(preset, i),
                ProbeStep::CreateAssistant(preset) => exists|i: int| #[trigger] taken(preset, i),
                ProbeStep::ApplyInstanceOptions(preset) => exists|i: int|
                    #[trigger] taken(preset, i),
                ProbeStep::Connect(preset) => exists|i: int| #[trigger] taken(preset, i),
                ProbeStep::Capture(preset, metadata) => (exists|i: int|
                    #[trigger] taken(preset, i)) && (exists|i: int|
                    #[trigger] connected(metadata, i)),
                ProbeStep::Finished(ProbeOutcome::Succeeded { preset, metadata, .. }) => (exists|
                    i: int,
                | #[trigger] taken(preset, i)) && (exists|i: int|
                    #[trigger] connected(metadata, i)),
                _ => true,
            }
        }),
    decreases events.len(),
{
    let start = test_started(args, platform);
    if events.len() > 0 {
        let before = events.drop_last();
        let last = events.len() - 1;
        let now = probe_after(start, before);
        let after = probe_after(start, events);
        law_a_test_reports_its_connection(args, platform, before);
        assert(events.take(last) =~= before);
        let connected = |metadata: ConnectionProbeMetadata, i: int|
            0 <= i < events.len() && probe_after(start, events.take(i)).step is Connect
                && events[i] == ProbeEvent::Connected(metadata);
        let taken = |preset: Preset, i: int|
            0 <= i < events.len() && (probe_after(start, events.take(i)).step is FindProfile
                || probe_after(start, events.take(i)).step is TakeBuiltInProfile) && (events[i]
                matches ProbeEvent::Profile(config) && config.connection.preset == preset);
        let connected_before = |metadata: ConnectionProbeMetadata, i: int|
            0 <= i < before.len() && probe_after(start, before.take(i)).step is Connect
                && before[i] == ProbeEvent::Connected(metadata);
        let taken_before = |preset: Preset, i: int|
            0 <= i < before.len() && (probe_after(start, before.take(i)).step is FindProfile
                || probe_after(start, before.take(i)).step is TakeBuiltInProfile) && (before[i]
                matches ProbeEvent::Profile(config) && config.connection.preset == preset);
        assert forall|metadata: ConnectionProbeMetadata, i: int| #[trigger] connected_before(
            metadata,
            i,
        ) implies connected(metadata, i) by {
            assert(before.take(i) =~= events.take(i));
        }
        assert forall|preset: Preset, i: int| #[trigger] taken_before(preset, i) implies taken(
            preset,
            i,
        ) by {
            assert(before.take(i) =~= events.take(i));
        }
        if after.step != now.step {
            law_every_step_of_a_test_has_its_reason(now, events.last());
            match after.step {
                ProbeStep::LoadCore(preset) => {
                    assert(taken(preset, last));
                },
                ProbeStep::Capture(preset, metadata) => {
                    assert(connected(metadata, last));
                    let i = choose|i: int| #[trigger] taken_before(preset, i);
                    assert(taken(preset, i));
                },
                ProbeStep::Finished(ProbeOutcome::Succeeded { preset, metadata, .. }) => {
                    let i = choose|i: int| #[trigger] taken_before(preset, i);
                    assert(taken(preset, i));
                    if now.step is Connect {
                        assert(connected(metadata, last));
                    } else {
                        let j = choose|j: int| #[trigger] connected_before(metadata, j);
                        assert(connected(metadata, j));
                    }
                },
                ProbeStep::SetupCore(preset, _) => {
                    let i = choose|i: int| #[trigger] taken_before(preset, i);
                    assert(taken(preset, i));
                },
                ProbeStep::CreateAssistant(preset) => {
                    let i = choose|i: int| #[trigger] taken_before(preset, i);
                    assert(taken(preset, i));
                },
                ProbeStep::ApplyInstanceOptions(preset) => {
                    let i = choose|i: int| #[trigger] taken_before(preset, i);
                    assert(taken(preset, i));
                },
                ProbeStep::Connect(preset) => {
                    let i = choose|i: int| #[trigger] taken_before(preset, i);
                    assert(taken(preset, i));
                },
                _ => {},
            }
        } else {
            let preset = preset_of(after.step);
            if preset is Some {
                let i = choose|i: int| #[trigger] taken_before(preset->0, i);
                assert(taken(preset->0, i));
            }
            match after.step {
                ProbeStep::Capture(_, metadata) => {
                    let i = choose|i: int| #[trigger] connected_before(metadata, i);
                    assert(connected(metadata, i));
                },
                ProbeStep::Finished(ProbeOutcome::Succeeded { metadata, .. }) => {
                    let i = choose|i: int| #[trigger] connected_before(metadata, i);
                    assert(connected(metadata, i));
                },
                _ => {},
            }
        }
    }
}

/// What is printed in words says what was found: the name of the connection and the length of the
/// screenshot in decimal, or the versions, or, of a failure, nothing.
pub proof fn law_words_say_what_was_found(outcome: ProbeOutcome, platform: Platform)
    ensures
        match outcome {
            ProbeOutcome::Capabilities => printed(outcome, false, platform) == Printed::Text(
                "Connection probe capability: "@ + "arkconsole-win32-probe-v2"@ + " (schema "@
                    + digits(2) + ")"@,
            ),
            ProbeOutcome::Succeeded { preset, screenshot_bytes, .. } => printed(
                outcome,
                false,
                platform,
            ) == Printed::Text(
                "Connection test succeeded ("@ + label_of(preset) + ", screenshot bytes: "@
                    + digits(screenshot_bytes as nat) + ")"@,
            ),
            ProbeOutcome::Failed { .. } => printed(outcome, false, platform) == Printed::Nothing,
        },
{
}

/// What is printed in JSON is the report of the outcome, with all that was found in it.
pub proof fn law_json_reports_the_outcome(outcome: ProbeOutcome, platform: Platform)
    ensures
        match outcome {
            ProbeOutcome::Capabilities => printed(outcome, true, platform) == Printed::Json(
                capabilities_payload(platform),
            ),
            ProbeOutcome::Succeeded { preset, screenshot_bytes, quality, metadata } => printed(
                outcome,
                true,
                platform,
            ) == Printed::Json(
                success_payload(label_of(preset), screenshot_bytes as u64, quality, metadata),
            ),
            ProbeOutcome::Failed { code, .. } => printed(outcome, true, platform)
                == Printed::Json(failure_payload(code_text(code))),
        },
{
}

/// What comes of a screenshot follows from it: that there is none, that it is empty, what is
/// wrong with it, or what it shows, and its length.
pub proof fn law_a_capture_is_of_its_screenshot(capture: Capture, image: Option<Seq<u8>>)
    requires
        is_capture_of(capture, image),
    ensures
        image is None ==> (capture.analysis matches Err(error) && error is Missing),
        image matches Some(bytes) ==> {
            &&& capture.length == bytes.len()
            &&& bytes.len() == 0 ==> (capture.analysis matches Err(error) && error is Empty)
            &&& bytes.len() > 0 ==> match decoded_png(bytes) {
                Err(text) => capture.analysis matches Err(ScreenshotError::InvalidPng(cause))
                    && cause@ == text,
                Ok((width, height, data)) => if width == 0 || height == 0 {
                    capture.analysis matches Err(error) && error is EmptyPng
                } else {
                    capture.analysis matches Ok(quality) && quality@ == quality_of(
                        width,
                        height,
                        data,
                    )
                },
            }
        },
{
}

/// What is said of a call of a test that failed is about that call, and of these calls alone is
/// anything said.
pub proof fn law_failed_calls_of_a_test_are_named(call: ProbeCall)
    ensures
        match call {
            ProbeCall::FindNamedProfile => probe_call_context(call) == Some(
                "Failed to find profile file!"@,
            ),
            ProbeCall::LoadCore => probe_call_context(call) == Some("Failed to load MaaCore!"@),
            ProbeCall::SetupCore(step) => if step == SetupStep::SetUserDirectory {
                probe_call_context(call) == Some("Failed to set user directory!"@)
            } else {
                probe_call_context(call) is None
            },
            ProbeCall::CreateAssistant => probe_call_context(call) == Some(
                "Failed to create Assistant"@,
            ),
            _ => probe_call_context(call) is None,
        },
{
}

/// A screenshot that shows something ends a test well, with its length, what it shows and what is
/// known of the connection, and any other ends it with what is wrong with it.
pub proof fn law_a_screenshot_ends_the_test(
    preset: Preset,
    metadata: ConnectionProbeMetadata,
    capture: Capture,
)
    ensures
        match captured(preset, metadata, capture) {
            ProbeOutcome::Succeeded {
                preset: kind,
                screenshot_bytes,
                quality,
                metadata: known,
            } => {
                &&& kind == preset
                &&& known == metadata
                &&& screenshot_bytes == capture.length
                &&& capture.analysis matches Ok(found)
                &&& quality == Some(found)
            },
            ProbeOutcome::Failed { code, error } => {
                &&& code == ProbeCode::ScreenshotCaptureFailed
                &&& capture.analysis matches Err(found)
                &&& error == ProbeError::Screenshot(found)
            },
            ProbeOutcome::Capabilities => false,
        },
{
}

} // verus!
