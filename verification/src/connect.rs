//! Connecting the assistant to the game.
use crate::config::{ConnectionConfig, Preset};
use crate::path::joined;
use crate::payload::{no_metadata, ConnectionProbeMetadata};
use crate::platform::Platform;
use crate::window::{
    control_unit_check, resolution, resolve_window, resolve_window_with_metadata,
    select_window_candidate, selection, validate_win32_control_unit_at, window_error_message,
    ClientRect, ResolvedWindow, WindowCandidate, WindowError, WindowSelector, WIN32_CONTROL_UNIT,
};
use vstd::prelude::*;

verus! {

/// Whether there are connections of kind `preset` on `platform`.
pub open spec fn is_supported(preset: Preset, platform: Platform) -> bool {
    preset == Preset::Win32 ==> platform == Platform::Windows
}

/// Checks that the connection is of a kind that there is on `platform`.
pub fn ensure_connection_supported(
    connection: &ConnectionConfig,
    platform: Platform,
) -> (checked: Result<(), WindowError>)
    ensures
        checked == (if is_supported(connection.preset, platform) {
            Ok::<(), WindowError>(())
        } else {
            Err(WindowError::Unsupported)
        }),
{
    match connection.preset() {
        Preset::Win32 => match platform {
            Platform::Windows => Ok(()),
            _ => Err(WindowError::Unsupported),
        },
        _ => Ok(()),
    }
}

/// By which methods a window is watched and controlled.
#[derive(Clone, Copy, Debug, PartialEq, Eq, Structural)]
pub struct InputMethods {
    pub screencap: u64,
    pub mouse: u64,
    pub keyboard: u64,
}

/// How to attach to a window.
#[derive(Debug, PartialEq, Eq)]
pub struct Win32Args {
    pub selector: WindowSelector,
    pub methods: InputMethods,
}

/// How to connect, as the configuration says.
#[derive(Debug, PartialEq, Eq)]
pub enum ConnectionArgs {
    Win32(Win32Args),
    Adb { adb_path: String, address: String, config: String },
}

/// A call that can fail.
#[derive(Clone, Copy, Debug, PartialEq, Eq, Structural)]
pub enum ConnectCall {
    ReadArgs,
    ListWindows,
    MeasureWindow,
    Attach,
    ConnectAdb,
}

/// Why no connection stands.
#[derive(Debug, PartialEq, Eq)]
pub enum ConnectError {
    /// This call failed.
    Call(ConnectCall),
    /// The window cannot be used.
    Window(WindowError),
}

/// A step of connecting.
#[derive(Debug, PartialEq, Eq)]
pub enum ConnectStep {
    /// Read from the configuration how to connect.
    ReadArgs,
    /// Look for the directory of MaaCore's library.
    FindLibrary(Win32Args),
    /// Look whether the control unit is beside MaaCore's library, which is in this directory.
    CheckControlUnit { args: Win32Args, directory: String },
    /// List the top-level windows.
    ListWindows(Win32Args),
    /// Read the client area of the window that was selected.
    MeasureWindow { candidate: WindowCandidate, methods: InputMethods },
    /// Attach to the window.
    Attach { window: ResolvedWindow, methods: InputMethods },
    /// Connect to the device.
    ConnectAdb { adb_path: String, address: String, config: String },
    /// The connection stands.
    Connected(ConnectionProbeMetadata),
    /// No connection stands.
    Failed(ConnectError),
}

/// What came of a step of connecting.
#[derive(Debug, PartialEq, Eq)]
pub enum ConnectEvent {
    Args(ConnectionArgs),
    /// The directory of MaaCore's library, if it was found.
    Library(Option<String>),
    /// Whether there is a file where the control unit has to be.
    ControlUnit { is_file: bool },
    Windows(Vec<WindowCandidate>),
    Measured(ClientRect),
    Done,
    Failed,
}

/// How far connecting has come.
#[derive(Debug, PartialEq, Eq)]
pub struct Connecting {
    pub platform: Platform,
    /// An address that is known better than that of the configuration.
    pub address: Option<String>,
    pub step: ConnectStep,
}

/// What is known of the connection to `window`.
pub open spec fn window_metadata(
    window: ResolvedWindow,
    methods: InputMethods,
) -> ConnectionProbeMetadata {
    ConnectionProbeMetadata {
        window_process_id: Some(window.process_id),
        window_client_width: Some(window.client_width),
        window_client_height: Some(window.client_height),
        screencap_method: Some(methods.screencap),
        mouse_method: Some(methods.mouse),
        keyboard_method: Some(methods.keyboard),
    }
}

/// The call of `step` that can fail, if it makes one.
pub open spec fn connect_call(step: ConnectStep) -> Option<ConnectCall> {
    match step {
        ConnectStep::ReadArgs => Some(ConnectCall::ReadArgs),
        ConnectStep::ListWindows(_) => Some(ConnectCall::ListWindows),
        ConnectStep::MeasureWindow { .. } => Some(ConnectCall::MeasureWindow),
        ConnectStep::Attach { .. } => Some(ConnectCall::Attach),
        ConnectStep::ConnectAdb { .. } => Some(ConnectCall::ConnectAdb),
        _ => None,
    }
}

/// What is said besides the cause where `call` failed.
pub open spec fn connect_call_context(call: ConnectCall) -> Option<Seq<char>> {
    match call {
        ConnectCall::ListWindows => Some("Failed to enumerate top-level windows"@),
        ConnectCall::MeasureWindow => Some("Failed to read window client size"@),
        _ => None,
    }
}

impl ConnectCall {
    /// Says what failed, where the cause alone would not.
    pub fn context(&self) -> (context: Option<&'static str>)
        ensures
            context is Some <==> connect_call_context(*self) is Some,
            context matches Some(context) ==> context@ == connect_call_context(*self)->0,
    {
        match self {
            ConnectCall::ListWindows => Some("Failed to enumerate top-level windows"),
            ConnectCall::MeasureWindow => Some("Failed to read window client size"),
            _ => None,
        }
    }
}

fn failing_call(step: &ConnectStep) -> (call: Option<ConnectCall>)
    ensures
        call == connect_call(*step),
{
    match step {
        ConnectStep::ReadArgs => Some(ConnectCall::ReadArgs),
        ConnectStep::ListWindows(_) => Some(ConnectCall::ListWindows),
        ConnectStep::MeasureWindow { .. } => Some(ConnectCall::MeasureWindow),
        ConnectStep::Attach { .. } => Some(ConnectCall::Attach),
        ConnectStep::ConnectAdb { .. } => Some(ConnectCall::ConnectAdb),
        _ => None,
    }
}

/// Whether `step` waits for an answer.
pub open spec fn is_open(step: ConnectStep) -> bool {
    !(step is Connected) && !(step is Failed)
}

/// The step that follows on `event`. An event that does not answer the step changes nothing.
pub open spec fn next_connect_step(connecting: Connecting, event: ConnectEvent) -> ConnectStep {
    match (connecting.step, event) {
        (ConnectStep::ReadArgs, ConnectEvent::Args(ConnectionArgs::Win32(args))) => {
            if connecting.platform == Platform::Windows {
                ConnectStep::FindLibrary(args)
            } else {
                ConnectStep::Failed(ConnectError::Window(WindowError::Unsupported))
            }
        },
        (
            ConnectStep::ReadArgs,
            ConnectEvent::Args(ConnectionArgs::Adb { adb_path, address, config }),
        ) => ConnectStep::ConnectAdb {
            adb_path,
            address: match connecting.address {
                Some(known) => known,
                None => address,
            },
            config,
        },
        (ConnectStep::FindLibrary(args), ConnectEvent::Library(directory)) => match directory {
            Some(directory) => ConnectStep::CheckControlUnit { args, directory },
            None => ConnectStep::Failed(ConnectError::Window(WindowError::LibraryNotFound)),
        },
        (
            ConnectStep::CheckControlUnit { args, directory },
            ConnectEvent::ControlUnit { is_file },
        ) => match control_unit_check(Some(directory), is_file, connecting.platform) {
            Ok(()) => ConnectStep::ListWindows(args),
            Err(error) => ConnectStep::Failed(ConnectError::Window(error)),
        },
        (ConnectStep::ListWindows(args), ConnectEvent::Windows(windows)) => {
            match selection(args.selector, windows@, connecting.platform) {
                Ok(candidate) => ConnectStep::MeasureWindow { candidate, methods: args.methods },
                Err(error) => ConnectStep::Failed(ConnectError::Window(error)),
            }
        },
        (ConnectStep::MeasureWindow { candidate, methods }, ConnectEvent::Measured(rect)) => {
            match resolution(candidate, rect) {
                Ok(window) => ConnectStep::Attach { window, methods },
                Err(error) => ConnectStep::Failed(ConnectError::Window(error)),
            }
        },
        (ConnectStep::Attach { window, methods }, ConnectEvent::Done) => {
            ConnectStep::Connected(window_metadata(window, methods))
        },
        (ConnectStep::ConnectAdb { .. }, ConnectEvent::Done) => {
            ConnectStep::Connected(no_metadata())
        },
        (step, ConnectEvent::Failed) => match connect_call(step) {
            Some(call) => ConnectStep::Failed(ConnectError::Call(call)),
            None => step,
        },
        (step, _) => step,
    }
}

/// Connects the assistant, step by step.
pub fn connect_assistant(connecting: Connecting, event: ConnectEvent) -> (next: Connecting)
    requires
        event matches ConnectEvent::Measured(rect) ==> rect.is_measurable(),
    ensures
        next == (Connecting {
            platform: connecting.platform,
            address: connecting.address,
            step: next_connect_step(connecting, event),
        }),
{
    let Connecting { platform, address: known, step } = connecting;
    match (step, event) {
        (ConnectStep::ReadArgs, ConnectEvent::Args(ConnectionArgs::Win32(args))) => {
            let step = match platform {
                Platform::Windows => ConnectStep::FindLibrary(args),
                _ => match resolve_window(&args.selector) {
                    Ok(()) => ConnectStep::Connected(ConnectionProbeMetadata::default()),
                    Err(error) => ConnectStep::Failed(ConnectError::Window(error)),
                },
            };
            Connecting { platform, address: known, step }
        },
        (
            ConnectStep::ReadArgs,
            ConnectEvent::Args(ConnectionArgs::Adb { adb_path, address, config }),
        ) => {
            let address = match &known {
                Some(known) => known.clone(),
                None => address,
            };
            let step = ConnectStep::ConnectAdb { adb_path, address, config };
            Connecting { platform, address: known, step }
        },
        (ConnectStep::FindLibrary(args), ConnectEvent::Library(directory)) => {
            let step = match directory {
                Some(directory) => ConnectStep::CheckControlUnit { args, directory },
                None => ConnectStep::Failed(ConnectError::Window(WindowError::LibraryNotFound)),
            };
            Connecting { platform, address: known, step }
        },
        (
            ConnectStep::CheckControlUnit { args, directory },
            ConnectEvent::ControlUnit { is_file },
        ) => {
            let step = match validate_win32_control_unit_at(Some(directory), is_file, platform) {
                Ok(()) => ConnectStep::ListWindows(args),
                Err(error) => ConnectStep::Failed(ConnectError::Window(error)),
            };
            Connecting { platform, address: known, step }
        },
        (ConnectStep::ListWindows(args), ConnectEvent::Windows(windows)) => {
            let selected = select_window_candidate(&args.selector, windows.as_slice(), platform);
            let step = match selected {
                Ok(candidate) => ConnectStep::MeasureWindow { candidate, methods: args.methods },
                Err(error) => ConnectStep::Failed(ConnectError::Window(error)),
            };
            Connecting { platform, address: known, step }
        },
        (ConnectStep::MeasureWindow { candidate, methods }, ConnectEvent::Measured(rect)) => {
            let step = match resolve_window_with_metadata(&candidate, rect) {
                Ok(window) => ConnectStep::Attach { window, methods },
                Err(error) => ConnectStep::Failed(ConnectError::Window(error)),
            };
            Connecting { platform, address: known, step }
        },
        (ConnectStep::Attach { window, methods }, ConnectEvent::Done) => {
            let metadata = ConnectionProbeMetadata {
                window_process_id: Some(window.process_id),
                window_client_width: Some(window.client_width),
                window_client_height: Some(window.client_height),
                screencap_method: Some(methods.screencap),
                mouse_method: Some(methods.mouse),
                keyboard_method: Some(methods.keyboard),
            };
            Connecting { platform, address: known, step: ConnectStep::Connected(metadata) }
        },
        (ConnectStep::ConnectAdb { .. }, ConnectEvent::Done) => {
            let step = ConnectStep::Connected(ConnectionProbeMetadata::default());
            Connecting { platform, address: known, step }
        },
        (step, ConnectEvent::Failed) => {
            let step = match failing_call(&step) {
                Some(call) => ConnectStep::Failed(ConnectError::Call(call)),
                None => step,
            };
            Connecting { platform, address: known, step }
        },
        (step, _) => Connecting { platform, address: known, step },
    }
}

/// How far connecting has come once `events` have come in, one after the other.
pub open spec fn connecting_after(connecting: Connecting, events: Seq<ConnectEvent>) -> Connecting
    decreases events.len(),
{
    if events.len() == 0 {
        connecting
    } else {
        let before = connecting_after(connecting, events.drop_last());
        Connecting { step: next_connect_step(before, events.last()), ..before }
    }
}

/// Whether `step` has to do with a window.
pub open spec fn is_window_step(step: ConnectStep) -> bool {
    ||| step is FindLibrary
    ||| step is CheckControlUnit
    ||| step is ListWindows
    ||| step is MeasureWindow
    ||| step is Attach
}

/// Nowhere but on Windows is a window looked for or attached to, whatever happens.
pub proof fn law_windows_are_attached_to_on_windows_alone(
    connecting: Connecting,
    events: Seq<ConnectEvent>,
)
    requires
        connecting.platform != Platform::Windows,
        connecting.step is ReadArgs,
    ensures
        !is_window_step(connecting_after(connecting, events).step),
        connecting_after(connecting, events).platform == connecting.platform,
    decreases events.len(),
{
    if events.len() > 0 {
        law_windows_are_attached_to_on_windows_alone(connecting, events.drop_last());
    }
}

/// A window is attached to only by a handle, and only where its client area has a pixel.
pub proof fn law_attached_windows_are_usable(connecting: Connecting, events: Seq<ConnectEvent>)
    requires
        connecting.step is ReadArgs,
        forall|i: int|
            0 <= i < events.len() ==> (#[trigger] events[i] matches ConnectEvent::Measured(rect)
                ==> rect.is_measurable()),
    ensures
        connecting_after(connecting, events).step matches ConnectStep::Attach { window, .. } ==> {
            &&& window.handle != 0
            &&& window.client_width > 0
            &&& window.client_height > 0
        },
    decreases events.len(),
{
    if events.len() > 0 {
        let before = events.drop_last();
        assert forall|i: int| 0 <= i < before.len() implies (
        #[trigger] before[i] matches ConnectEvent::Measured(rect) ==> rect.is_measurable()) by {
            assert(before[i] == events[i]);
        }
        law_attached_windows_are_usable(connecting, before);
        assert(events.last() == events[events.len() - 1]);
    }
}

/// What was configured and found is what is known of the connection in the end: the methods, and
/// the process and the size of the one window that is meant.
pub proof fn law_a_connection_echoes_window_and_methods(
    connecting: Connecting,
    args: Win32Args,
    windows: Vec<WindowCandidate>,
    rect: ClientRect,
)
    requires
        connecting.step == ConnectStep::ListWindows(args),
        selection(args.selector, windows@, connecting.platform) is Ok,
        rect.left < rect.right,
        rect.top < rect.bottom,
    ensures
        ({
            let window = selection(args.selector, windows@, connecting.platform)->Ok_0;
            let events = seq![
                ConnectEvent::Windows(windows),
                ConnectEvent::Measured(rect),
                ConnectEvent::Done,
            ];
            connecting_after(connecting, events).step == ConnectStep::Connected(
                ConnectionProbeMetadata {
                    window_process_id: Some(window.process_id),
                    window_client_width: Some((rect.right - rect.left) as u32),
                    window_client_height: Some((rect.bottom - rect.top) as u32),
                    screencap_method: Some(args.methods.screencap),
                    mouse_method: Some(args.methods.mouse),
                    keyboard_method: Some(args.methods.keyboard),
                },
            )
        }),
{
    reveal_with_fuel(connecting_after, 4);
    let events = seq![
        ConnectEvent::Windows(windows),
        ConnectEvent::Measured(rect),
        ConnectEvent::Done,
    ];
    assert(events.drop_last() =~= seq![
        ConnectEvent::Windows(windows),
        ConnectEvent::Measured(rect),
    ]);
    assert(events.drop_last().drop_last() =~= seq![ConnectEvent::Windows(windows)]);
    assert(events.drop_last().drop_last().drop_last() =~= seq![]);
}

/// Once a connection stands, or none can, nothing changes that.
pub proof fn law_the_end_of_connecting_is_final(connecting: Connecting, event: ConnectEvent)
    requires
        !is_open(connecting.step),
    ensures
        next_connect_step(connecting, event) == connecting.step,
{
}

/// A call that fails ends the attempt, and is named.
pub proof fn law_a_failed_call_ends_connecting(connecting: Connecting)
    requires
        connect_call(connecting.step) is Some,
    ensures
        next_connect_step(connecting, ConnectEvent::Failed) == ConnectStep::Failed(
            ConnectError::Call(connect_call(connecting.step)->0),
        ),
{
}

/// An address that is known takes the place of the configured one, and that one is taken where
/// none is known.
pub proof fn law_a_known_address_is_used(
    connecting: Connecting,
    adb_path: String,
    address: String,
    config: String,
)
    requires
        connecting.step is ReadArgs,
    ensures
        next_connect_step(
            connecting,
            ConnectEvent::Args(ConnectionArgs::Adb { adb_path, address, config }),
        ) == (ConnectStep::ConnectAdb {
            adb_path,
            address: connecting.address.unwrap_or(address),
            config,
        }),
{
}

/// Windows are listed only once the control unit was found beside MaaCore's library, and an
/// error names the path that was looked at.
pub proof fn law_windows_need_the_control_unit(
    connecting: Connecting,
    args: Win32Args,
    directory: Option<String>,
    is_file: bool,
)
    requires
        connecting.step == ConnectStep::FindLibrary(args),
    ensures
        ({
            let found = Connecting {
                step: next_connect_step(connecting, ConnectEvent::Library(directory)),
                ..connecting
            };
            let checked = next_connect_step(found, ConnectEvent::ControlUnit { is_file });
            &&& checked is ListWindows <==> directory is Some && is_file
            &&& checked matches ConnectStep::Failed(ConnectError::Window(error)) ==> error
                == control_unit_check(directory, is_file, connecting.platform)->Err_0
            &&& directory matches Some(directory) ==> !is_file ==> window_error_message(
                checked->Failed_0->Window_0,
            ) == "Win32 connection requires "@ + WIN32_CONTROL_UNIT@
                + " beside MaaCore.dll (not found at "@ + joined(
                directory@,
                WIN32_CONTROL_UNIT@,
                connecting.platform,
            ) + ")"@
        }),
{
}

/// Every step of connecting has its reason: the step before it and what came of that. The
/// arguments that were read go from step to step as they are, and the window that is measured is
/// the one that they select.
pub proof fn law_connecting_keeps_the_arguments(connecting: Connecting, event: ConnectEvent)
    requires
        next_connect_step(connecting, event) != connecting.step,
    ensures
        ({
            let step = connecting.step;
            let platform = connecting.platform;
            match next_connect_step(connecting, event) {
                ConnectStep::ReadArgs => false,
                ConnectStep::FindLibrary(args) => step is ReadArgs && event == ConnectEvent::Args(
                    ConnectionArgs::Win32(args),
                ) && platform == Platform::Windows,
                ConnectStep::CheckControlUnit { args, directory } => step
                    == ConnectStep::FindLibrary(args) && event == ConnectEvent::Library(
                    Some(directory),
                ),
                ConnectStep::ListWindows(args) => (step matches ConnectStep::CheckControlUnit {
                    args: checked,
                    ..
                } && checked == args) && event == (ConnectEvent::ControlUnit { is_file: true }),
                ConnectStep::MeasureWindow { candidate, methods } => (step
                    matches ConnectStep::ListWindows(args) && args.methods == methods && (event
                    matches ConnectEvent::Windows(windows) && selection(
                    args.selector,
                    windows@,
                    platform,
                ) == Ok::<WindowCandidate, WindowError>(candidate))),
                ConnectStep::Attach { window, methods } => (step
                    matches ConnectStep::MeasureWindow { candidate, methods: measured }
                    && measured == methods && window.handle == candidate.handle
                    && candidate.handle != 0 && window.process_id == candidate.process_id && (event
                    matches ConnectEvent::Measured(rect) && rect.left < rect.right && rect.top
                    < rect.bottom && (rect.right - rect.left <= u32::MAX ==> window.client_width
                    == rect.right - rect.left) && (rect.bottom - rect.top <= u32::MAX
                    ==> window.client_height == rect.bottom - rect.top))),
                ConnectStep::ConnectAdb { adb_path, address, config } => step is ReadArgs && (
                event matches ConnectEvent::Args(
                    ConnectionArgs::Adb { adb_path: path, address: read, config: kind },
                ) && path == adb_path && kind == config && address == (
                if connecting.address is Some {
                    connecting.address->0
                } else {
                    read
                })),
                ConnectStep::Connected(metadata) => event is Done && match step {
                    ConnectStep::Attach { window, methods } => {
                        &&& metadata.window_process_id == Some(window.process_id)
                        &&& metadata.window_client_width == Some(window.client_width)
                        &&& metadata.window_client_height == Some(window.client_height)
                        &&& metadata.screencap_method == Some(methods.screencap)
                        &&& metadata.mouse_method == Some(methods.mouse)
                        &&& metadata.keyboard_method == Some(methods.keyboard)
                    },
                    ConnectStep::ConnectAdb { .. } => {
                        &&& metadata.window_process_id is None
                        &&& metadata.window_client_width is None
                        &&& metadata.window_client_height is None
                        &&& metadata.screencap_method is None
                        &&& metadata.mouse_method is None
                        &&& metadata.keyboard_method is None
                    },
                    _ => false,
                },
                ConnectStep::Failed(ConnectError::Call(call)) => event is Failed && match step {
                    ConnectStep::ReadArgs => call == ConnectCall::ReadArgs,
                    ConnectStep::ListWindows(_) => call == ConnectCall::ListWindows,
                    ConnectStep::MeasureWindow { .. } => call == ConnectCall::MeasureWindow,
                    ConnectStep::Attach { .. } => call == ConnectCall::Attach,
                    ConnectStep::ConnectAdb { .. } => call == ConnectCall::ConnectAdb,
                    _ => false,
                },
                ConnectStep::Failed(ConnectError::Window(error)) => match (step, event) {
                    (
                        ConnectStep::ReadArgs,
                        ConnectEvent::Args(ConnectionArgs::Win32(_)),
                    ) => error == WindowError::Unsupported && platform != Platform::Windows,
                    (ConnectStep::FindLibrary(_), ConnectEvent::Library(None)) => error
                        == WindowError::LibraryNotFound,
                    (
                        ConnectStep::CheckControlUnit { directory, .. },
                        ConnectEvent::ControlUnit { is_file },
                    ) => !is_file && error == (WindowError::ControlUnitMissing {
                        directory,
                        platform,
                    }),
                    (ConnectStep::ListWindows(args), ConnectEvent::Windows(windows)) => selection(
                        args.selector,
                        windows@,
                        platform,
                    ) == Err::<WindowCandidate, WindowError>(error),
                    (
                        ConnectStep::MeasureWindow { candidate, .. },
                        ConnectEvent::Measured(rect),
                    ) => if candidate.handle == 0 {
                        error == WindowError::NullHandle
                    } else {
                        error == WindowError::EmptyClientArea && (rect.right <= rect.left
                            || rect.bottom <= rect.top)
                    },
                    _ => false,
                },
            }
        }),
{
}

/// What comes of a step of connecting always counts, and nothing that answers another step does.
pub proof fn law_no_answer_in_connecting_is_lost(connecting: Connecting, event: ConnectEvent)
    ensures
        ({
            let answers = match connecting.step {
                ConnectStep::ReadArgs => event is Args || event is Failed,
                ConnectStep::FindLibrary(_) => event is Library,
                ConnectStep::CheckControlUnit { .. } => event is ControlUnit,
                ConnectStep::ListWindows(_) => event is Windows || event is Failed,
                ConnectStep::MeasureWindow { .. } => event is Measured || event is Failed,
                ConnectStep::Attach { .. } => event is Done || event is Failed,
                ConnectStep::ConnectAdb { .. } => event is Done || event is Failed,
                _ => false,
            };
            &&& answers ==> next_connect_step(connecting, event) != connecting.step
            &&& !answers ==> next_connect_step(connecting, event) == connecting.step
        }),
{
}

/// However connecting goes, a window is measured and attached to only by the arguments that were
/// read: it is the one that their very selector selects among the windows that were listed, and
/// their very methods are used on it.
pub proof fn law_the_configured_window_is_attached_to(
    connecting: Connecting,
    events: Seq<ConnectEvent>,
)
    requires
        connecting.step is ReadArgs,
    ensures
        ({
            let after = connecting_after(connecting, events);
            let read = |args: Win32Args, i: int|
                0 <= i < events.len() && connecting_after(connecting, events.take(i)).step
                    is ReadArgs && events[i] == ConnectEvent::Args(ConnectionArgs::Win32(args));
            let listed = |args: Win32Args, j: int, candidate: WindowCandidate|
                0 <= j < events.len() && (events[j] matches ConnectEvent::Windows(windows)
                    && selection(args.selector, windows@, connecting.platform) == Ok::<
                    WindowCandidate,
                    WindowError,
                >(candidate));
            match after.step {
                ConnectStep::FindLibrary(args) => exists|i: int| #[trigger] read(args, i),
                ConnectStep::CheckControlUnit { args, .. } => exists|i: int|
                    #[trigger] read(args, i),
                ConnectStep::ListWindows(args) => exists|i: int| #[trigger] read(args, i),
                ConnectStep::MeasureWindow { candidate, methods } => exists|
                    args: Win32Args,
                    i: int,
                    j: int,
                |
                    #[trigger] read(args, i) && args.methods == methods && #[trigger] listed(
                        args,
                        j,
                        candidate,
                    ),
                ConnectStep::Attach { window, methods } => exists|
                    args: Win32Args,
                    i: int,
                    j: int,
                    candidate: WindowCandidate,
                |
                    #[trigger] read(args, i) && args.methods == methods && #[trigger] listed(
                        args,
                        j,
                        candidate,
                    ) && window.handle == candidate.handle && window.process_id
                        == candidate.process_id,
                _ => true,
            }
        }),
    decreases events.len(),
{
    if events.len() > 0 {
        let before = events.drop_last();
        let last = events.len() - 1;
        let now = connecting_after(connecting, before);
        let after = connecting_after(connecting, events);
        law_the_configured_window_is_attached_to(connecting, before);
        assert(events.take(last) =~= before);
        assert(now.platform == connecting.platform) by {
            lemma_connecting_keeps_platform(connecting, before);
        }
        assert forall|i: int| 0 <= i < before.len() implies #[trigger] before.take(i)
            == events.take(i) by {
            assert(before.take(i) =~= events.take(i));
        }
        let read = |args: Win32Args, i: int|
            0 <= i < events.len() && connecting_after(connecting, events.take(i)).step is ReadArgs
                && events[i] == ConnectEvent::Args(ConnectionArgs::Win32(args));
        let listed = |args: Win32Args, j: int, candidate: WindowCandidate|
            0 <= j < events.len() && (events[j] matches ConnectEvent::Windows(windows)
                && selection(args.selector, windows@, connecting.platform) == Ok::<
                WindowCandidate,
                WindowError,
            >(candidate));
        let read_before = |args: Win32Args, i: int|
            0 <= i < before.len() && connecting_after(connecting, before.take(i)).step is ReadArgs
                && before[i] == ConnectEvent::Args(ConnectionArgs::Win32(args));
        let listed_before = |args: Win32Args, j: int, candidate: WindowCandidate|
            0 <= j < before.len() && (before[j] matches ConnectEvent::Windows(windows)
                && selection(args.selector, windows@, connecting.platform) == Ok::<
                WindowCandidate,
                WindowError,
            >(candidate));
        assert forall|args: Win32Args, i: int| #[trigger] read_before(args, i) implies read(
            args,
            i,
        ) by {
            assert(before.take(i) == events.take(i));
        }
        assert forall|args: Win32Args, j: int, candidate: WindowCandidate| #[trigger]
            listed_before(args, j, candidate) implies listed(args, j, candidate) by {}
        if after.step == now.step {
            match after.step {
                ConnectStep::FindLibrary(args) => {
                    let i = choose|i: int| #[trigger] read_before(args, i);
                    assert(read(args, i));
                },
                ConnectStep::CheckControlUnit { args, .. } => {
                    let i = choose|i: int| #[trigger] read_before(args, i);
                    assert(read(args, i));
                },
                ConnectStep::ListWindows(args) => {
                    let i = choose|i: int| #[trigger] read_before(args, i);
                    assert(read(args, i));
                },
                ConnectStep::MeasureWindow { candidate, methods } => {
                    let (args, i, j) = choose|args: Win32Args, i: int, j: int|
                        #[trigger] read_before(args, i) && args.methods == methods
                            && #[trigger] listed_before(args, j, candidate);
                    assert(read(args, i) && listed(args, j, candidate));
                },
                ConnectStep::Attach { window, methods } => {
                    let (args, i, j, candidate) = choose|
                        args: Win32Args,
                        i: int,
                        j: int,
                        candidate: WindowCandidate,
                    |
                        #[trigger] read_before(args, i) && args.methods == methods
                            && #[trigger] listed_before(args, j, candidate) && window.handle
                            == candidate.handle && window.process_id == candidate.process_id;
                    assert(read(args, i) && listed(args, j, candidate));
                },
                _ => {},
            }
        } else {
            law_connecting_keeps_the_arguments(now, events.last());
            match after.step {
                ConnectStep::FindLibrary(args) => {
                    assert(read(args, last));
                },
                ConnectStep::CheckControlUnit { args, .. } => {
                    let i = choose|i: int| #[trigger] read_before(args, i);
                    assert(read(args, i));
                },
                ConnectStep::ListWindows(args) => {
                    let i = choose|i: int| #[trigger] read_before(args, i);
                    assert(read(args, i));
                },
                ConnectStep::MeasureWindow { candidate, methods } => {
                    let args = now.step->ListWindows_0;
                    let i = choose|i: int| #[trigger] read_before(args, i);
                    assert(read(args, i) && listed(args, last, candidate));
                },
                ConnectStep::Attach { window, methods } => {
                    let candidate = now.step->MeasureWindow_candidate;
                    let (args, i, j) = choose|args: Win32Args, i: int, j: int|
                        #[trigger] read_before(args, i) && args.methods == methods
                            && #[trigger] listed_before(args, j, candidate);
                    assert(read(args, i) && listed(args, j, candidate));
                },
                _ => {},
            }
        }
    }
}

proof fn lemma_connecting_keeps_platform(connecting: Connecting, events: Seq<ConnectEvent>)
    ensures
        connecting_after(connecting, events).platform == connecting.platform,
        connecting_after(connecting, events).address == connecting.address,
    decreases events.len(),
{
    if events.len() > 0 {
        lemma_connecting_keeps_platform(connecting, events.drop_last());
    }
}

/// A connection is supported exactly where it is not to a window or the platform is Windows.
pub proof fn law_windows_are_supported_on_windows(preset: Preset, platform: Platform)
    ensures
        is_supported(preset, platform) <==> preset != Preset::Win32 || platform
            == Platform::Windows,
{
}

/// Where listing or measuring windows fails, that is what is said, and of no other call is
/// anything said.
pub proof fn law_failed_calls_of_connecting_are_named(call: ConnectCall)
    ensures
        match connect_call_context(call) {
            Some(text) => {
                ||| call == ConnectCall::ListWindows && text
                    == "Failed to enumerate top-level windows"@
                ||| call == ConnectCall::MeasureWindow && text
                    == "Failed to read window client size"@
            },
            None => call != ConnectCall::ListWindows && call != ConnectCall::MeasureWindow,
        },
{
}

} // verus!
