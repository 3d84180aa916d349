//! Which window is meant, and connecting to it.
use maa_run::connect::{
    connect_assistant, ConnectCall, ConnectError, ConnectEvent, ConnectStep, Connecting, ConnectionArgs,
    InputMethods, Win32Args,
};
use maa_run::path::{join, paths_equal};
use maa_run::payload::ConnectionProbeMetadata;
use maa_run::platform::Platform;
use maa_run::window::{
    client_size, collect_window, control_unit_path, needs_program, process_executable,
    resolve_window, resolve_window_with_metadata, select_window, select_window_candidate,
    title_buffer_length, validate_win32_control_unit_at, ClientRect, ProcessImage, ResolvedPath,
    ResolvedWindow, WindowCandidate, WindowError, WindowSelector, WIN32_CONTROL_UNIT,
};

fn canonical(path: &str) -> ResolvedPath {
    ResolvedPath::Canonical(path.to_owned())
}

fn candidate(handle: isize, title: &str, process_id: u32) -> WindowCandidate {
    WindowCandidate {
        handle,
        title: title.to_owned(),
        process_id,
        executable: Some(canonical("C:\\Games\\Arknights.exe")),
        visible: true,
    }
}

fn selector(title: &str) -> WindowSelector {
    WindowSelector { title: title.to_owned(), process_id: None, executable: None }
}

fn methods() -> InputMethods {
    InputMethods { screencap: 2, mouse: 128, keyboard: 4 }
}

fn units(text: &str) -> Vec<u16> {
    text.encode_utf16().collect()
}

fn connecting(platform: Platform, step: ConnectStep) -> Connecting {
    Connecting { platform, address: None, step }
}

fn win32_args() -> Win32Args {
    Win32Args { selector: selector("Arknights"), methods: methods() }
}

fn adb_args() -> ConnectionArgs {
    ConnectionArgs::Adb {
        adb_path: "adb".to_owned(),
        address: "emulator-5554".to_owned(),
        config: "General".to_owned(),
    }
}

#[test]
fn the_only_window_of_a_title_is_selected() {
    let windows = [candidate(1, "Notepad", 10), candidate(2, "Arknights", 20)];
    let selected = select_window_candidate(&selector("Arknights"), &windows, Platform::Windows);
    assert_eq!(selected, Ok(candidate(2, "Arknights", 20)));
    assert_eq!(select_window(&selector("Arknights"), &windows, Platform::Windows), Ok(2));
}

#[test]
fn a_title_has_to_match_exactly() {
    let windows = [candidate(1, "Arknights ", 10), candidate(2, "arknights", 20)];
    assert_eq!(
        select_window(&selector("Arknights"), &windows, Platform::Windows),
        Err(WindowError::NoMatch("Arknights".to_owned()))
    );
}

#[test]
fn an_invisible_window_is_not_selected() {
    let hidden = WindowCandidate { visible: false, ..candidate(1, "Arknights", 10) };
    assert_eq!(
        select_window(&selector("Arknights"), &[hidden], Platform::Windows),
        Err(WindowError::NoMatch("Arknights".to_owned()))
    );
}

#[test]
fn several_windows_are_ambiguous_until_the_process_is_named() {
    let windows = [candidate(1, "Arknights", 10), candidate(2, "Arknights", 20)];
    let mut wanted = selector("Arknights");
    assert_eq!(
        select_window(&wanted, &windows, Platform::Windows),
        Err(WindowError::Ambiguous("Arknights".to_owned()))
    );
    wanted.process_id = Some(20);
    assert_eq!(select_window(&wanted, &windows, Platform::Windows), Ok(2));
    wanted.process_id = Some(30);
    assert_eq!(
        select_window(&wanted, &windows, Platform::Windows),
        Err(WindowError::NoMatch("Arknights".to_owned()))
    );
}

#[test]
fn the_program_is_compared_without_ascii_case_on_windows_alone() {
    let windows = [candidate(1, "Arknights", 10)];
    let mut wanted = selector("Arknights");
    wanted.executable = Some(canonical("c:\\games\\ARKNIGHTS.EXE"));
    assert_eq!(select_window(&wanted, &windows, Platform::Windows), Ok(1));
    assert_eq!(
        select_window(&wanted, &windows, Platform::Linux),
        Err(WindowError::NoMatch("Arknights".to_owned()))
    );
    wanted.executable = Some(canonical("C:\\Games\\Arknights.exe"));
    assert_eq!(select_window(&wanted, &windows, Platform::Linux), Ok(1));
}

#[test]
fn a_window_of_an_unknown_program_is_not_selected_by_program() {
    let unknown = WindowCandidate { executable: None, ..candidate(1, "Arknights", 10) };
    let unresolvable = WindowCandidate {
        executable: Some(ResolvedPath::Unresolvable("denied".to_owned())),
        ..candidate(2, "Arknights", 20)
    };
    let mut wanted = selector("Arknights");
    wanted.executable = Some(canonical("C:\\Games\\Arknights.exe"));
    assert_eq!(
        select_window(&wanted, &[unknown, unresolvable], Platform::Windows),
        Err(WindowError::NoMatch("Arknights".to_owned()))
    );
}

#[test]
fn a_program_is_looked_up_only_where_it_matters() {
    let mut wanted = selector("Arknights");
    assert!(!needs_program(&wanted, &candidate(1, "Arknights", 10)));
    wanted.executable = Some(canonical("C:\\Games\\Arknights.exe"));
    assert!(needs_program(&wanted, &candidate(1, "Arknights", 10)));
    assert!(!needs_program(&wanted, &candidate(1, "Notepad", 10)));
    let hidden = WindowCandidate { visible: false, ..candidate(1, "Arknights", 10) };
    assert!(!needs_program(&wanted, &hidden));
    wanted.process_id = Some(20);
    assert!(!needs_program(&wanted, &candidate(1, "Arknights", 10)));
    assert!(needs_program(&wanted, &candidate(1, "Arknights", 20)));
}

#[test]
fn a_configured_program_has_to_have_a_canonical_path() {
    let mut wanted = selector("Arknights");
    wanted.executable = Some(ResolvedPath::Unresolvable("not found".to_owned()));
    let error =
        select_window(&wanted, &[candidate(1, "Arknights", 10)], Platform::Windows).unwrap_err();
    assert_eq!(error, WindowError::ExecutableUnresolved("not found".to_owned()));
    assert_eq!(error.cause(), Some("not found"));
    assert_eq!(WindowError::NullHandle.cause(), None);
}

#[test]
fn a_window_without_a_handle_is_refused() {
    let windows = [candidate(0, "Arknights", 10)];
    assert_eq!(
        select_window(&selector("Arknights"), &windows, Platform::Windows),
        Err(WindowError::NullHandle)
    );
    let rect = ClientRect { left: 0, top: 0, right: 1, bottom: 1 };
    assert_eq!(
        resolve_window_with_metadata(&windows[0], rect),
        Err(WindowError::NullHandle)
    );
}

#[test]
fn selection_ignores_the_order_of_windows() {
    let windows =
        [candidate(1, "Notepad", 10), candidate(2, "Arknights", 20), candidate(3, "Paint", 30)];
    let mut reordered = windows.to_vec();
    reordered.reverse();
    let wanted = selector("Arknights");
    assert_eq!(
        select_window_candidate(&wanted, &windows, Platform::Windows),
        select_window_candidate(&wanted, &reordered, Platform::Windows)
    );
}

#[test]
fn paths_differ_by_more_than_ascii_case() {
    assert!(paths_equal("C:\\A\\b.exe", "c:\\a\\B.EXE", Platform::Windows));
    assert!(!paths_equal("C:\\A", "C:\\AB", Platform::Windows));
    assert!(!paths_equal("\u{c9}", "\u{e9}", Platform::Windows));
    assert!(!paths_equal("@", "`", Platform::Windows));
    assert!(!paths_equal("[", "{", Platform::Windows));
    assert!(paths_equal("/opt/game", "/opt/game", Platform::Linux));
    assert!(paths_equal("", "", Platform::Windows));
    assert!(!paths_equal("/opt/game", "/opt/Game", Platform::MacOs));
}

#[test]
fn window_errors_say_what_is_wrong() {
    assert_eq!(
        WindowError::Unsupported.message(),
        "Win32 connection is only supported on Windows"
    );
    assert_eq!(
        WindowError::ExecutableUnresolved("not found".to_owned()).message(),
        "Failed to canonicalize configured window_executable"
    );
    assert_eq!(
        WindowError::NoMatch("a \"b\"\n".to_owned()).message(),
        "No visible top-level window exactly matched title \"a \\\"b\\\"\\n\""
    );
    assert_eq!(
        WindowError::Ambiguous("Arknights".to_owned()).message(),
        "Multiple visible top-level windows exactly matched title \"Arknights\"; \
         set window_process_id or window_executable"
    );
    assert_eq!(WindowError::NullHandle.message(), "Matched window has a null handle");
    assert_eq!(
        WindowError::EmptyClientArea.message(),
        "Matched window has an empty client area"
    );
    assert_eq!(
        WindowError::LibraryNotFound.message(),
        "MaaCore library directory could not be located"
    );
    let missing = WindowError::ControlUnitMissing {
        directory: "D:\\maa".to_owned(),
        platform: Platform::Windows,
    };
    assert_eq!(
        missing.message(),
        "Win32 connection requires MaaWin32ControlUnit.dll beside MaaCore.dll \
         (not found at D:\\maa\\MaaWin32ControlUnit.dll)"
    );
}

#[test]
fn titles_are_read_as_utf16() {
    let mut windows = Vec::new();
    let mut title = units("\u{660e}\u{65e5}\u{1f600}");
    let copied = title.len() as i32;
    title.push(0);
    collect_window(&mut windows, 7, &title, copied, 10, Some(canonical("/game")), true);
    collect_window(&mut windows, 8, &[0xd800, 0x41, 0xdc00], 3, 11, None, false);
    collect_window(&mut windows, 9, &title, 0, 12, None, true);
    collect_window(&mut windows, 9, &title, -1, 12, None, true);
    assert_eq!(
        windows,
        [
            WindowCandidate {
                handle: 7,
                title: "\u{660e}\u{65e5}\u{1f600}".to_owned(),
                process_id: 10,
                executable: Some(canonical("/game")),
                visible: true,
            },
            WindowCandidate {
                handle: 8,
                title: "\u{fffd}A\u{fffd}".to_owned(),
                process_id: 11,
                executable: None,
                visible: false,
            },
        ]
    );
}

#[test]
fn a_title_takes_one_unit_more_than_it_has() {
    assert_eq!(title_buffer_length(-1), None);
    assert_eq!(title_buffer_length(0), None);
    assert_eq!(title_buffer_length(9), Some(10));
}

#[test]
fn a_program_is_known_where_its_process_can_be_asked() {
    let image = |queried| ProcessImage { queried, path: units("C:\\a.exe\0\0"), length: 8 };
    assert_eq!(process_executable(4, Some(&image(true))), Some("C:\\a.exe".to_owned()));
    assert_eq!(process_executable(4, Some(&image(false))), None);
    assert_eq!(process_executable(4, None), None);
    assert_eq!(process_executable(0, Some(&image(true))), None);
}

#[test]
fn a_client_area_has_to_have_a_pixel() {
    let rect = |left, top, right, bottom| ClientRect { left, top, right, bottom };
    assert_eq!(client_size(rect(0, 0, 1920, 1080)), Ok((1920, 1080)));
    assert_eq!(client_size(rect(-5, -7, 5, 7)), Ok((10, 14)));
    assert_eq!(client_size(rect(0, 0, 0, 1080)), Err(WindowError::EmptyClientArea));
    assert_eq!(client_size(rect(0, 0, 1920, 0)), Err(WindowError::EmptyClientArea));
    assert_eq!(client_size(rect(9, 0, 8, 1080)), Err(WindowError::EmptyClientArea));
    assert_eq!(client_size(rect(0, 0, i32::MAX, 1)), Ok((i32::MAX as u32, 1)));
}

#[test]
fn a_resolved_window_keeps_its_handle_and_process() {
    let rect = ClientRect { left: 0, top: 0, right: 1920, bottom: 1080 };
    assert_eq!(
        resolve_window_with_metadata(&candidate(5, "Arknights", 4242), rect),
        Ok(ResolvedWindow {
            handle: 5,
            process_id: 4242,
            client_width: 1920,
            client_height: 1080,
        })
    );
    assert_eq!(resolve_window(&selector("Arknights")), Err(WindowError::Unsupported));
}

#[test]
fn the_control_unit_has_to_be_a_file() {
    assert_eq!(WIN32_CONTROL_UNIT, "MaaWin32ControlUnit.dll");
    let directory = || Some("/maa".to_owned());
    let checked =
        |directory, is_file| validate_win32_control_unit_at(directory, is_file, Platform::Linux);
    assert_eq!(control_unit_path("/maa", Platform::Linux), "/maa/MaaWin32ControlUnit.dll");
    assert_eq!(checked(directory(), true), Ok(()));
    let error = checked(directory(), false).unwrap_err();
    assert_eq!(
        error.message(),
        "Win32 connection requires MaaWin32ControlUnit.dll beside MaaCore.dll \
         (not found at /maa/MaaWin32ControlUnit.dll)"
    );
    assert_eq!(checked(None, false), Err(WindowError::LibraryNotFound));
    assert_eq!(checked(None, true), Err(WindowError::LibraryNotFound));
}

#[test]
fn a_file_is_joined_as_its_platform_does() {
    for directory in ["", "/", "/a", "/a/", "a", "a//", ".", "C:", "\\"] {
        assert_eq!(
            join(directory, "file", Platform::Linux),
            std::path::Path::new(directory).join("file").to_str().unwrap()
        );
    }
    let joined = |directory| join(directory, "file", Platform::Windows);
    assert_eq!(joined("C:\\maa"), "C:\\maa\\file");
    assert_eq!(joined("C:\\maa\\"), "C:\\maa\\file");
    assert_eq!(joined("C:/maa/"), "C:/maa/file");
    assert_eq!(joined("C:"), "C:file");
    assert_eq!(joined(""), "file");
    assert_eq!(joined("maa"), "maa\\file");
}

#[test]
fn paths_are_compared_by_their_parts_elsewhere() {
    let paths = [
        "", "/", "//", ".", "./", "./.", "/.", "a", "a/", "a/.", "./a", "/a", "//a", "/a//b",
        "/a/b", "/a/./b", "/a/b/", "a/b", "..", "../a", ".a", "a.", "/a/../b", "/b", "\u{e9}/a",
    ];
    for left in paths {
        for right in paths {
            assert_eq!(
                paths_equal(left, right, Platform::Linux),
                std::path::Path::new(left) == std::path::Path::new(right),
                "{left:?} {right:?}"
            );
        }
    }
}

#[test]
fn attaching_to_a_window_echoes_it_and_its_methods() {
    let start = connecting(Platform::Windows, ConnectStep::ReadArgs);
    let next = connect_assistant(start, ConnectEvent::Args(ConnectionArgs::Win32(win32_args())));
    assert_eq!(next.step, ConnectStep::FindLibrary(win32_args()));
    let next = connect_assistant(next, ConnectEvent::Library(Some("C:\\maa".to_owned())));
    assert_eq!(
        next.step,
        ConnectStep::CheckControlUnit { args: win32_args(), directory: "C:\\maa".to_owned() }
    );
    let next = connect_assistant(next, ConnectEvent::ControlUnit { is_file: true });
    assert_eq!(next.step, ConnectStep::ListWindows(win32_args()));
    let windows = vec![candidate(1, "Notepad", 10), candidate(2, "Arknights", 4242)];
    let next = connect_assistant(next, ConnectEvent::Windows(windows));
    assert_eq!(
        next.step,
        ConnectStep::MeasureWindow {
            candidate: candidate(2, "Arknights", 4242),
            methods: methods(),
        }
    );
    let rect = ClientRect { left: 0, top: 0, right: 1920, bottom: 1080 };
    let next = connect_assistant(next, ConnectEvent::Measured(rect));
    let window =
        ResolvedWindow { handle: 2, process_id: 4242, client_width: 1920, client_height: 1080 };
    assert_eq!(next.step, ConnectStep::Attach { window, methods: methods() });
    let next = connect_assistant(next, ConnectEvent::Done);
    let expected = ConnectionProbeMetadata {
        window_process_id: Some(4242),
        window_client_width: Some(1920),
        window_client_height: Some(1080),
        screencap_method: Some(2),
        mouse_method: Some(128),
        keyboard_method: Some(4),
    };
    assert_eq!(next.step, ConnectStep::Connected(expected));
    let next = connect_assistant(next, ConnectEvent::Failed);
    assert_eq!(next.step, ConnectStep::Connected(expected));
}

#[test]
fn windows_are_attached_to_on_windows_alone() {
    for platform in [Platform::MacOs, Platform::Linux, Platform::Other] {
        let next = connect_assistant(
            connecting(platform, ConnectStep::ReadArgs),
            ConnectEvent::Args(ConnectionArgs::Win32(win32_args())),
        );
        assert_eq!(
            next.step,
            ConnectStep::Failed(ConnectError::Window(WindowError::Unsupported))
        );
    }
}

#[test]
fn a_device_is_connected_to_at_a_known_address() {
    let next = connect_assistant(
        connecting(Platform::Linux, ConnectStep::ReadArgs),
        ConnectEvent::Args(adb_args()),
    );
    assert_eq!(
        next.step,
        ConnectStep::ConnectAdb {
            adb_path: "adb".to_owned(),
            address: "emulator-5554".to_owned(),
            config: "General".to_owned(),
        }
    );
    let next = connect_assistant(next, ConnectEvent::Done);
    assert_eq!(next.step, ConnectStep::Connected(ConnectionProbeMetadata::default()));

    let known = Connecting {
        platform: Platform::Linux,
        address: Some("192.168.240.112:5555".to_owned()),
        step: ConnectStep::ReadArgs,
    };
    let next = connect_assistant(known, ConnectEvent::Args(adb_args()));
    assert_eq!(
        next.step,
        ConnectStep::ConnectAdb {
            adb_path: "adb".to_owned(),
            address: "192.168.240.112:5555".to_owned(),
            config: "General".to_owned(),
        }
    );
}

#[test]
fn what_is_wrong_with_a_window_ends_connecting() {
    let failed = |error| ConnectStep::Failed(ConnectError::Window(error));
    let next = connect_assistant(
        connecting(Platform::Windows, ConnectStep::FindLibrary(win32_args())),
        ConnectEvent::Library(None),
    );
    assert_eq!(next.step, failed(WindowError::LibraryNotFound));
    let next = connect_assistant(
        connecting(
            Platform::Windows,
            ConnectStep::CheckControlUnit { args: win32_args(), directory: "C:\\maa".to_owned() },
        ),
        ConnectEvent::ControlUnit { is_file: false },
    );
    assert_eq!(
        next.step,
        failed(WindowError::ControlUnitMissing {
            directory: "C:\\maa".to_owned(),
            platform: Platform::Windows,
        })
    );
    let next = connect_assistant(
        connecting(Platform::Windows, ConnectStep::ListWindows(win32_args())),
        ConnectEvent::Windows(Vec::new()),
    );
    assert_eq!(next.step, failed(WindowError::NoMatch("Arknights".to_owned())));
    let next = connect_assistant(
        connecting(
            Platform::Windows,
            ConnectStep::MeasureWindow {
                candidate: candidate(2, "Arknights", 1),
                methods: methods(),
            },
        ),
        ConnectEvent::Measured(ClientRect { left: 0, top: 0, right: 0, bottom: 0 }),
    );
    assert_eq!(next.step, failed(WindowError::EmptyClientArea));
}

#[test]
fn a_call_that_fails_ends_connecting() {
    let window = ResolvedWindow { handle: 2, process_id: 1, client_width: 1, client_height: 1 };
    let steps = [
        (ConnectStep::ReadArgs, ConnectCall::ReadArgs),
        (ConnectStep::ListWindows(win32_args()), ConnectCall::ListWindows),
        (
            ConnectStep::MeasureWindow {
                candidate: candidate(2, "Arknights", 1),
                methods: methods(),
            },
            ConnectCall::MeasureWindow,
        ),
        (ConnectStep::Attach { window, methods: methods() }, ConnectCall::Attach),
    ];
    for (step, call) in steps {
        let next = connect_assistant(connecting(Platform::Windows, step), ConnectEvent::Failed);
        assert_eq!(next.step, ConnectStep::Failed(ConnectError::Call(call)));
        let next = connect_assistant(next, ConnectEvent::Args(adb_args()));
        assert_eq!(next.step, ConnectStep::Failed(ConnectError::Call(call)));
    }
}

#[test]
fn calls_of_connecting_say_what_failed() {
    assert_eq!(
        ConnectCall::ListWindows.context(),
        Some("Failed to enumerate top-level windows")
    );
    assert_eq!(ConnectCall::MeasureWindow.context(), Some("Failed to read window client size"));
    assert_eq!(ConnectCall::ReadArgs.context(), None);
    assert_eq!(ConnectCall::Attach.context(), None);
    assert_eq!(ConnectCall::ConnectAdb.context(), None);
}

#[test]
fn windows_that_are_not_meant_may_come_and_go() {
    let wanted = selector("Arknights");
    let meant = || vec![candidate(2, "Arknights", 20)];
    let mut more = vec![candidate(1, "Notepad", 10)];
    more.extend(meant());
    more.push(WindowCandidate { visible: false, ..candidate(3, "Arknights", 30) });
    assert_eq!(
        select_window(&wanted, &more, Platform::Windows),
        select_window(&wanted, &meant(), Platform::Windows)
    );
}
