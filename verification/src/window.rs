//! Windows: which one a configuration means.
use crate::path::{is_same_path, join, joined, paths_equal};
use crate::platform::Platform;
use crate::text::{debug_text, decode_utf16, quoted, utf16_text};
use vstd::prelude::*;
use vstd::slice::slice_subrange;

verus! {

/// The library that controls windows, beside MaaCore's own.
pub const WIN32_CONTROL_UNIT: &'static str = "MaaWin32ControlUnit.dll";

/// What came of looking up the canonical form of a path.
#[derive(Debug, PartialEq, Eq)]
pub enum ResolvedPath {
    Canonical(String),
    /// There is none, for this cause.
    Unresolvable(String),
}

/// What is known of a top-level window.
#[derive(Debug, PartialEq, Eq)]
pub struct WindowCandidate {
    pub handle: isize,
    pub title: String,
    pub process_id: u32,
    /// The program that the window belongs to, where it is known.
    pub executable: Option<ResolvedPath>,
    pub visible: bool,
}

/// Which window is meant.
#[derive(Debug, PartialEq, Eq)]
pub struct WindowSelector {
    pub title: String,
    pub process_id: Option<u32>,
    pub executable: Option<ResolvedPath>,
}

/// Why a window cannot be used.
#[derive(Debug, PartialEq, Eq)]
pub enum WindowError {
    /// There are such windows on Windows alone.
    Unsupported,
    /// The configured program has no canonical path, for this cause.
    ExecutableUnresolved(String),
    /// No window has the title.
    NoMatch(String),
    /// Several windows have the title.
    Ambiguous(String),
    /// The window has no handle.
    NullHandle,
    /// The window's client area has no pixel.
    EmptyClientArea,
    /// It is not known where MaaCore's library is.
    LibraryNotFound,
    /// The control unit is not in this directory.
    ControlUnitMissing { directory: String, platform: Platform },
}

/// A window that can be attached to.
#[derive(Clone, Copy, Debug, PartialEq, Eq, Structural)]
pub struct ResolvedWindow {
    pub handle: isize,
    pub process_id: u32,
    pub client_width: u32,
    pub client_height: u32,
}

/// The edges of a window's client area.
#[derive(Clone, Copy, Debug, PartialEq, Eq, Structural)]
pub struct ClientRect {
    pub left: i32,
    pub top: i32,
    pub right: i32,
    pub bottom: i32,
}

impl Clone for ResolvedPath {
    fn clone(&self) -> (path: Self)
        ensures
            path == *self,
    {
        match self {
            ResolvedPath::Canonical(path) => ResolvedPath::Canonical(path.clone()),
            ResolvedPath::Unresolvable(cause) => ResolvedPath::Unresolvable(cause.clone()),
        }
    }
}

impl Clone for WindowCandidate {
    fn clone(&self) -> (candidate: Self)
        ensures
            candidate == *self,
    {
        WindowCandidate {
            handle: self.handle,
            title: self.title.clone(),
            process_id: self.process_id,
            executable: match &self.executable {
                Some(path) => Some(path.clone()),
                None => None,
            },
            visible: self.visible,
        }
    }
}

/// Whether `candidate` is visible and has the title, and the process where it is named: all that
/// `selector` asks for but the program.
pub open spec fn names(selector: WindowSelector, candidate: WindowCandidate) -> bool {
    &&& candidate.visible
    &&& candidate.title@ == selector.title@
    &&& selector.process_id matches Some(process_id) ==> candidate.process_id == process_id
}

/// Whether it takes the program of `candidate` to tell if `selector` means it.
pub open spec fn takes_program(selector: WindowSelector, candidate: WindowCandidate) -> bool {
    selector.executable is Some && names(selector, candidate)
}

/// Whether `candidate` is a window that `selector` means.
pub open spec fn selects(
    selector: WindowSelector,
    candidate: WindowCandidate,
    platform: Platform,
) -> bool {
    &&& names(selector, candidate)
    &&& selector.executable matches Some(expected) ==> {
        &&& candidate.executable matches Some(ResolvedPath::Canonical(path))
        &&& expected matches ResolvedPath::Canonical(expected)
        &&& is_same_path(path@, expected@, platform)
    }
}

/// The candidates that `selector` means, in their order.
pub open spec fn selected(
    selector: WindowSelector,
    candidates: Seq<WindowCandidate>,
    platform: Platform,
) -> Seq<WindowCandidate> {
    candidates.filter(|candidate: WindowCandidate| selects(selector, candidate, platform))
}

/// What comes of looking for the window that `selector` means: it has to be a single one.
pub open spec fn selection(
    selector: WindowSelector,
    candidates: Seq<WindowCandidate>,
    platform: Platform,
) -> Result<WindowCandidate, WindowError> {
    let found = selected(selector, candidates, platform);
    if let Some(ResolvedPath::Unresolvable(cause)) = selector.executable {
        Err(WindowError::ExecutableUnresolved(cause))
    } else if found.len() == 0 {
        Err(WindowError::NoMatch(selector.title))
    } else if found.len() > 1 {
        Err(WindowError::Ambiguous(selector.title))
    } else if found[0].handle == 0 {
        Err(WindowError::NullHandle)
    } else {
        Ok(found[0])
    }
}

fn is_named(selector: &WindowSelector, candidate: &WindowCandidate) -> (named: bool)
    ensures
        named == names(*selector, *candidate),
{
    if !candidate.visible || candidate.title != selector.title {
        return false;
    }
    match selector.process_id {
        Some(process_id) => candidate.process_id == process_id,
        None => true,
    }
}

/// Whether the program of `candidate` has to be looked up to tell if `selector` means it.
pub fn needs_program(selector: &WindowSelector, candidate: &WindowCandidate) -> (needed: bool)
    ensures
        needed == takes_program(*selector, *candidate),
{
    selector.executable.is_some() && is_named(selector, candidate)
}

fn is_selected(
    selector: &WindowSelector,
    candidate: &WindowCandidate,
    platform: Platform,
) -> (selected: bool)
    ensures
        selected == selects(*selector, *candidate, platform),
{
    if !is_named(selector, candidate) {
        return false;
    }
    match &selector.executable {
        None => true,
        Some(ResolvedPath::Unresolvable(_)) => false,
        Some(ResolvedPath::Canonical(expected)) => match &candidate.executable {
            Some(ResolvedPath::Canonical(path)) => {
                paths_equal(path.as_str(), expected.as_str(), platform)
            },
            _ => false,
        },
    }
}

/// The single visible window among `candidates` that `selector` means.
pub fn select_window_candidate(
    selector: &WindowSelector,
    candidates: &[WindowCandidate],
    platform: Platform,
) -> (selected: Result<WindowCandidate, WindowError>)
    ensures
        selected == selection(*selector, candidates@, platform),
{
    if let Some(ResolvedPath::Unresolvable(cause)) = &selector.executable {
        return Err(WindowError::ExecutableUnresolved(cause.clone()));
    }
    let ghost pred = |candidate: WindowCandidate| selects(*selector, candidate, platform);
    let mut first: Option<usize> = None;
    let mut several: bool = false;
    assert(candidates@.take(0).filter(pred).len() == 0) by {
        reveal(Seq::filter);
    }
    for i in 0..candidates.len()
        invariant
            pred == (|candidate: WindowCandidate| selects(*selector, candidate, platform)),
            ({
                let found = candidates@.take(i as int).filter(pred);
                &&& first is None <==> found.len() == 0
                &&& first matches Some(k) ==> k < i && found[0] == candidates@[k as int]
                &&& several <==> found.len() > 1
            }),
    {
        proof {
            lemma_filter_take(candidates@, pred, i as int);
        }
        if is_selected(selector, &candidates[i], platform) {
            if first.is_none() {
                first = Some(i);
            } else {
                several = true;
            }
        }
    }
    assert(candidates@.take(candidates@.len() as int) =~= candidates@);
    match first {
        None => Err(WindowError::NoMatch(selector.title.clone())),
        Some(k) => if several {
            Err(WindowError::Ambiguous(selector.title.clone()))
        } else if candidates[k].handle == 0 {
            Err(WindowError::NullHandle)
        } else {
            Ok(candidates[k].clone())
        },
    }
}

/// What comes of looking for the handle of the window that `selector` means.
pub open spec fn selected_handle(
    selector: WindowSelector,
    candidates: Seq<WindowCandidate>,
    platform: Platform,
) -> Result<isize, WindowError> {
    match selection(selector, candidates, platform) {
        Ok(candidate) => Ok(candidate.handle),
        Err(error) => Err(error),
    }
}

/// The handle of the single visible window among `candidates` that `selector` means.
pub fn select_window(
    selector: &WindowSelector,
    candidates: &[WindowCandidate],
    platform: Platform,
) -> (handle: Result<isize, WindowError>)
    ensures
        handle == selected_handle(*selector, candidates@, platform),
        handle == (match selection(*selector, candidates@, platform) {
            Ok(candidate) => Ok::<isize, WindowError>(candidate.handle),
            Err(error) => Err(error),
        }),
        handle matches Ok(handle) ==> handle != 0,
{
    match select_window_candidate(selector, candidates, platform) {
        Ok(candidate) => Ok(candidate.handle),
        Err(error) => Err(error),
    }
}

proof fn lemma_filter_take<A>(items: Seq<A>, pred: spec_fn(A) -> bool, i: int)
    requires
        0 <= i < items.len(),
    ensures
        items.take(i + 1).filter(pred) == if pred(items[i]) {
            items.take(i).filter(pred).push(items[i])
        } else {
            items.take(i).filter(pred)
        },
{
    reveal(Seq::filter);
    assert(items.take(i + 1).drop_last() =~= items.take(i));
}

/// How many UTF-16 units a title of `title_length` units and its end take, if there is a title.
pub open spec fn title_room(title_length: int) -> Option<int> {
    if title_length <= 0 {
        None
    } else {
        Some(title_length + 1)
    }
}

/// How many UTF-16 units a title of `title_length` units and its end take. A window without a
/// title is passed over.
pub fn title_buffer_length(title_length: i32) -> (length: Option<usize>)
    ensures
        (match length {
            Some(length) => Some(length as int),
            None => None,
        }) == title_room(title_length as int),
        length is None <==> title_length <= 0,
        length matches Some(length) ==> length == title_length + 1,
{
    if title_length <= 0 {
        None
    } else {
        Some(title_length as usize + 1)
    }
}

/// Whether `after` is what comes of adding a window to `before`, if `title` was read as its title.
pub open spec fn is_collected(
    before: Seq<WindowCandidate>,
    after: Seq<WindowCandidate>,
    handle: isize,
    title: Seq<u16>,
    process_id: u32,
    executable: Option<ResolvedPath>,
    visible: bool,
) -> bool {
    if title.len() == 0 {
        after == before
    } else {
        &&& after.len() == before.len() + 1
        &&& after.drop_last() == before
        &&& after.last().handle == handle
        &&& after.last().title@ == utf16_text(title)
        &&& after.last().process_id == process_id
        &&& after.last().executable == executable
        &&& after.last().visible == visible
    }
}

/// Adds a window to `candidates`, of whose title `copied` units were read into `title`. A window
/// of whose title nothing was read is passed over.
pub fn collect_window(
    candidates: &mut Vec<WindowCandidate>,
    handle: isize,
    title: &[u16],
    copied: i32,
    process_id: u32,
    executable: Option<ResolvedPath>,
    visible: bool,
)
    requires
        copied <= title@.len(),
    ensures
        is_collected(
            old(candidates)@,
            final(candidates)@,
            handle,
            if copied > 0 {
                title@.take(copied as int)
            } else {
                seq![]
            },
            process_id,
            executable,
            visible,
        ),
        copied <= 0 ==> final(candidates)@ == old(candidates)@,
        copied > 0 ==> {
            &&& final(candidates)@.len() == old(candidates)@.len() + 1
            &&& final(candidates)@.drop_last() == old(candidates)@
            &&& final(candidates)@.last().handle == handle
            &&& final(candidates)@.last().title@ == utf16_text(title@.take(copied as int))
            &&& final(candidates)@.last().process_id == process_id
            &&& final(candidates)@.last().executable == executable
            &&& final(candidates)@.last().visible == visible
        },
{
    if copied > 0 {
        let units = slice_subrange(title, 0, copied as usize);
        assert(units@ =~= title@.take(copied as int));
        candidates.push(
            WindowCandidate {
                handle,
                title: decode_utf16(units),
                process_id,
                executable,
                visible,
            },
        );
        assert(candidates@.drop_last() =~= old(candidates)@);
    }
}

/// What came of asking a process for the path of its program.
pub struct ProcessImage {
    pub queried: bool,
    pub path: Vec<u16>,
    pub length: u32,
}

/// The path of the program of process `process_id`, if it was asked for it as `image` says.
pub open spec fn program_text(process_id: u32, image: Option<ProcessImage>) -> Option<Seq<char>> {
    match image {
        Some(image) => if process_id != 0 && image.queried {
            Some(utf16_text(image.path@.take(image.length as int)))
        } else {
            None
        },
        None => None,
    }
}

/// The path of the program of process `process_id`, where it can be told: the process is a real
/// one, it could be opened, and it could be asked.
pub fn process_executable(process_id: u32, image: Option<&ProcessImage>) -> (path: Option<String>)
    requires
        image matches Some(image) ==> image.queried ==> image.length <= image.path@.len(),
    ensures
        (match path {
            Some(path) => Some(path@),
            None => None,
        }) == program_text(
            process_id,
            match image {
                Some(image) => Some(*image),
                None => None,
            },
        ),
        path is Some <==> process_id != 0 && image is Some && image->0.queried,
        path matches Some(path) ==> path@ == utf16_text(
            image->0.path@.take(image->0.length as int),
        ),
{
    if process_id == 0 {
        return None;
    }
    match image {
        Some(image) => if image.queried {
            let units = slice_subrange(image.path.as_slice(), 0, image.length as usize);
            assert(units@ =~= image.path@.take(image.length as int));
            Some(decode_utf16(units))
        } else {
            None
        },
        None => None,
    }
}

/// The size of a client area: it has to have a pixel.
pub open spec fn client_size_of(rect: ClientRect) -> Result<(u32, u32), WindowError> {
    if rect.left < rect.right && rect.top < rect.bottom {
        Ok(((rect.right - rect.left) as u32, (rect.bottom - rect.top) as u32))
    } else {
        Err(WindowError::EmptyClientArea)
    }
}

impl ClientRect {
    /// Its width and its height are in the range of `i32`.
    pub open spec fn is_measurable(self) -> bool {
        &&& i32::MIN <= self.right - self.left <= i32::MAX
        &&& i32::MIN <= self.bottom - self.top <= i32::MAX
    }
}

/// The width and the height of a client area.
pub fn client_size(rect: ClientRect) -> (size: Result<(u32, u32), WindowError>)
    requires
        rect.is_measurable(),
    ensures
        size == client_size_of(rect),
        size matches Ok(size) ==> {
            &&& 0 < size.0 == rect.right - rect.left
            &&& 0 < size.1 == rect.bottom - rect.top
        },
{
    let width: i32 = rect.right - rect.left;
    let height: i32 = rect.bottom - rect.top;
    if width <= 0 || height <= 0 {
        return Err(WindowError::EmptyClientArea);
    }
    Ok((width as u32, height as u32))
}

/// What comes of resolving the selected window `candidate`, of client area `rect`.
pub open spec fn resolution(
    candidate: WindowCandidate,
    rect: ClientRect,
) -> Result<ResolvedWindow, WindowError> {
    if candidate.handle == 0 {
        Err(WindowError::NullHandle)
    } else {
        match client_size_of(rect) {
            Ok((client_width, client_height)) => Ok(
                ResolvedWindow {
                    handle: candidate.handle,
                    process_id: candidate.process_id,
                    client_width,
                    client_height,
                },
            ),
            Err(error) => Err(error),
        }
    }
}

/// Resolves the selected window `candidate`, of client area `rect`.
pub fn resolve_window_with_metadata(
    candidate: &WindowCandidate,
    rect: ClientRect,
) -> (resolved: Result<ResolvedWindow, WindowError>)
    requires
        rect.is_measurable(),
    ensures
        resolved == resolution(*candidate, rect),
{
    if candidate.handle == 0 {
        return Err(WindowError::NullHandle);
    }
    match client_size(rect) {
        Ok((client_width, client_height)) => Ok(
            ResolvedWindow {
                handle: candidate.handle,
                process_id: candidate.process_id,
                client_width,
                client_height,
            },
        ),
        Err(error) => Err(error),
    }
}

/// Resolves a window where there are none: on every platform but Windows.
pub fn resolve_window(_selector: &WindowSelector) -> (resolved: Result<(), WindowError>)
    ensures
        resolved == Err::<(), WindowError>(WindowError::Unsupported),
{
    Err(WindowError::Unsupported)
}

/// The path at which the control unit is looked for: beside MaaCore's library, which is in
/// `directory`.
pub fn control_unit_path(directory: &str, platform: Platform) -> (path: String)
    ensures
        path@ == joined(directory@, WIN32_CONTROL_UNIT@, platform),
        path@ == joined(directory@, "MaaWin32ControlUnit.dll"@, platform),
{
    join(directory, WIN32_CONTROL_UNIT, platform)
}

/// What comes of checking the control unit, if MaaCore's library is in `directory`, and
/// `is_file` says whether there is a file at the path of the control unit beside it.
pub open spec fn control_unit_check(
    directory: Option<String>,
    is_file: bool,
    platform: Platform,
) -> Result<(), WindowError> {
    match directory {
        None => Err(WindowError::LibraryNotFound),
        Some(directory) => if is_file {
            Ok(())
        } else {
            Err(WindowError::ControlUnitMissing { directory, platform })
        },
    }
}

/// Checks that there is a file at [`control_unit_path`] of the directory of MaaCore's library, as
/// `is_file` says. It matters only where there is a directory.
pub fn validate_win32_control_unit_at(
    directory: Option<String>,
    is_file: bool,
    platform: Platform,
) -> (checked: Result<(), WindowError>)
    ensures
        checked == control_unit_check(directory, is_file, platform),
{
    match directory {
        None => Err(WindowError::LibraryNotFound),
        Some(directory) => if is_file {
            Ok(())
        } else {
            Err(WindowError::ControlUnitMissing { directory, platform })
        },
    }
}

/// What is said of `error`.
pub open spec fn window_error_message(error: WindowError) -> Seq<char> {
    match error {
        WindowError::Unsupported => "Win32 connection is only supported on Windows"@,
        WindowError::ExecutableUnresolved(_) => {
            "Failed to canonicalize configured window_executable"@
        },
        WindowError::NoMatch(title) => "No visible top-level window exactly matched title "@
            + debug_text(title@),
        WindowError::Ambiguous(title) => {
            "Multiple visible top-level windows exactly matched title "@ + debug_text(title@)
                + "; set window_process_id or window_executable"@
        },
        WindowError::NullHandle => "Matched window has a null handle"@,
        WindowError::EmptyClientArea => "Matched window has an empty client area"@,
        WindowError::LibraryNotFound => "MaaCore library directory could not be located"@,
        WindowError::ControlUnitMissing { directory, platform } => "Win32 connection requires "@
            + WIN32_CONTROL_UNIT@ + " beside MaaCore.dll (not found at "@ + joined(
            directory@,
            WIN32_CONTROL_UNIT@,
            platform,
        ) + ")"@,
    }
}

/// The cause behind `error`, where there is one.
pub open spec fn window_error_cause(error: WindowError) -> Option<Seq<char>> {
    match error {
        WindowError::ExecutableUnresolved(cause) => Some(cause@),
        _ => None,
    }
}

impl WindowError {
    /// The cause behind what is wrong, where there is one.
    pub fn cause(&self) -> (cause: Option<&str>)
        ensures
            cause is Some <==> window_error_cause(*self) is Some,
            cause matches Some(cause) ==> cause@ == window_error_cause(*self)->0,
    {
        match self {
            WindowError::ExecutableUnresolved(cause) => Some(cause.as_str()),
            _ => None,
        }
    }

    /// Says what is wrong.
    pub fn message(&self) -> (message: String)
        ensures
            message@ == window_error_message(*self),
    {
        match self {
            WindowError::Unsupported => {
                "Win32 connection is only supported on Windows".to_owned()
            },
            WindowError::ExecutableUnresolved(_) => {
                "Failed to canonicalize configured window_executable".to_owned()
            },
            WindowError::NoMatch(title) => {
                "No visible top-level window exactly matched title ".to_owned().concat(
                    quoted(title.as_str()).as_str(),
                )
            },
            WindowError::Ambiguous(title) => {
                "Multiple visible top-level windows exactly matched title ".to_owned().concat(
                    quoted(title.as_str()).as_str(),
                ).concat("; set window_process_id or window_executable")
            },
            WindowError::NullHandle => "Matched window has a null handle".to_owned(),
            WindowError::EmptyClientArea => "Matched window has an empty client area".to_owned(),
            WindowError::LibraryNotFound => {
                "MaaCore library directory could not be located".to_owned()
            },
            WindowError::ControlUnitMissing { directory, platform } => {
                let path = control_unit_path(directory.as_str(), *platform);
                "Win32 connection requires ".to_owned().concat(WIN32_CONTROL_UNIT).concat(
                    " beside MaaCore.dll (not found at ",
                ).concat(path.as_str()).concat(")")
            },
        }
    }
}

proof fn lemma_filter_none<A>(items: Seq<A>, pred: spec_fn(A) -> bool)
    ensures
        items.filter(pred).len() == 0 <==> forall|i: int|
            0 <= i < items.len() ==> !pred(#[trigger] items[i]),
    decreases items.len(),
{
    reveal(Seq::filter);
    if items.len() > 0 {
        let before = items.drop_last();
        lemma_filter_none(before, pred);
        if items.filter(pred).len() == 0 {
            assert forall|i: int| 0 <= i < items.len() implies !pred(#[trigger] items[i]) by {
                if i < before.len() {
                    assert(before[i] == items[i]);
                }
            }
        } else if !pred(items.last()) {
            let i = choose|i: int| 0 <= i < before.len() && pred(#[trigger] before[i]);
            assert(pred(items[i]));
        }
    }
}

/// Whether item `i` is the only one that meets `pred`.
spec fn is_only<A>(items: Seq<A>, pred: spec_fn(A) -> bool, i: int) -> bool {
    &&& 0 <= i < items.len()
    &&& pred(items[i])
    &&& forall|j: int| 0 <= j < items.len() && j != i ==> !pred(#[trigger] items[j])
}

proof fn lemma_filter_one<A>(items: Seq<A>, pred: spec_fn(A) -> bool) -> (only: int)
    requires
        items.filter(pred).len() == 1,
    ensures
        is_only(items, pred, only),
        items[only] == items.filter(pred)[0],
    decreases items.len(),
{
    reveal(Seq::filter);
    let before = items.drop_last();
    if pred(items.last()) {
        lemma_filter_none(before, pred);
        assert forall|j: int| 0 <= j < items.len() && j != items.len() - 1 implies !pred(
            #[trigger] items[j],
        ) by {
            assert(before[j] == items[j]);
        }
        items.len() - 1
    } else {
        let only = lemma_filter_one(before, pred);
        assert forall|j: int| 0 <= j < items.len() && j != only implies !pred(
            #[trigger] items[j],
        ) by {
            if j < before.len() {
                assert(before[j] == items[j]);
            }
        }
        only
    }
}

proof fn lemma_filter_only<A>(items: Seq<A>, pred: spec_fn(A) -> bool, only: int)
    requires
        is_only(items, pred, only),
    ensures
        items.filter(pred) == seq![items[only]],
    decreases items.len(),
{
    reveal(Seq::filter);
    let before = items.drop_last();
    if only == items.len() - 1 {
        assert forall|j: int| 0 <= j < before.len() implies !pred(#[trigger] before[j]) by {
            assert(before[j] == items[j]);
        }
        lemma_filter_none(before, pred);
        assert(items.filter(pred) =~= seq![items[only]]);
    } else {
        assert(!pred(items[items.len() - 1]));
        assert forall|j: int| 0 <= j < before.len() && j != only implies !pred(
            #[trigger] before[j],
        ) by {
            assert(before[j] == items[j]);
        }
        assert(before[only] == items[only]);
        lemma_filter_only(before, pred, only);
    }
}

/// Whether candidate `i` is the only one that `selector` means.
pub open spec fn is_only_match(
    selector: WindowSelector,
    candidates: Seq<WindowCandidate>,
    platform: Platform,
    i: int,
) -> bool {
    &&& 0 <= i < candidates.len()
    &&& selects(selector, candidates[i], platform)
    &&& forall|j: int|
        0 <= j < candidates.len() && j != i ==> !selects(
            selector,
            #[trigger] candidates[j],
            platform,
        )
}

/// A window is selected exactly where it is the only one that is meant, and has a handle.
pub proof fn law_the_only_match_is_selected(
    selector: WindowSelector,
    candidates: Seq<WindowCandidate>,
    platform: Platform,
    window: WindowCandidate,
)
    requires
        !(selector.executable matches Some(ResolvedPath::Unresolvable(_))),
    ensures
        selection(selector, candidates, platform) == Ok::<WindowCandidate, WindowError>(window)
            <==> window.handle != 0 && exists|i: int|
            #[trigger] is_only_match(selector, candidates, platform, i) && candidates[i] == window,
{
    let pred = |candidate: WindowCandidate| selects(selector, candidate, platform);
    if selection(selector, candidates, platform) == Ok::<WindowCandidate, WindowError>(window) {
        let only = lemma_filter_one(candidates, pred);
        assert forall|j: int| 0 <= j < candidates.len() && j != only implies !selects(
            selector,
            #[trigger] candidates[j],
            platform,
        ) by {
            assert(!pred(candidates[j]));
        }
        assert(is_only_match(selector, candidates, platform, only));
    }
    if window.handle != 0 && exists|i: int|
        #[trigger] is_only_match(selector, candidates, platform, i) && candidates[i] == window {
        let only = choose|i: int|
            #[trigger] is_only_match(selector, candidates, platform, i) && candidates[i] == window;
        lemma_filter_only(candidates, pred, only);
    }
}

/// Programs matter only where they have to be looked up: another program elsewhere selects the
/// same windows.
pub proof fn law_programs_matter_only_where_needed(
    selector: WindowSelector,
    candidate: WindowCandidate,
    executable: Option<ResolvedPath>,
    platform: Platform,
)
    requires
        !takes_program(selector, candidate),
    ensures
        selects(selector, WindowCandidate { executable, ..candidate }, platform) == selects(
            selector,
            candidate,
            platform,
        ),
{
}

/// A window that was selected is one of the candidates, is meant, and so is visible and has the
/// title, and has a handle.
pub proof fn law_a_selected_window_is_meant(
    selector: WindowSelector,
    candidates: Seq<WindowCandidate>,
    platform: Platform,
)
    requires
        selection(selector, candidates, platform) is Ok,
    ensures
        ({
            let window = selection(selector, candidates, platform)->Ok_0;
            &&& candidates.contains(window)
            &&& selects(selector, window, platform)
            &&& window.visible
            &&& window.title@ == selector.title@
            &&& window.handle != 0
        }),
{
    let pred = |candidate: WindowCandidate| selects(selector, candidate, platform);
    let only = lemma_filter_one(candidates, pred);
    assert(candidates.contains(candidates[only]));
}

proof fn lemma_filter_multiset<A>(items: Seq<A>, pred: spec_fn(A) -> bool)
    ensures
        items.filter(pred).to_multiset() == items.to_multiset().filter(pred),
    decreases items.len(),
{
    broadcast use vstd::seq_lib::group_to_multiset_ensures;

    reveal(Seq::filter);
    if items.len() == 0 {
        assert(items.filter(pred).to_multiset() =~= items.to_multiset().filter(pred));
    } else {
        let before = items.drop_last();
        lemma_filter_multiset(before, pred);
        assert(items =~= before.push(items.last()));
        assert(items.to_multiset() =~= before.to_multiset().insert(items.last()));
        if pred(items.last()) {
            assert(items.filter(pred).to_multiset() =~= before.filter(pred).to_multiset().insert(
                items.last(),
            ));
        }
        assert(items.filter(pred).to_multiset() =~= items.to_multiset().filter(pred));
    }
}

/// Which window is selected does not depend on the order in which the windows are listed.
pub proof fn law_selection_ignores_order(
    selector: WindowSelector,
    candidates: Seq<WindowCandidate>,
    reordered: Seq<WindowCandidate>,
    platform: Platform,
)
    requires
        candidates.to_multiset() == reordered.to_multiset(),
    ensures
        selection(selector, candidates, platform) == selection(selector, reordered, platform),
{
    broadcast use vstd::seq_lib::group_to_multiset_ensures;

    let pred = |candidate: WindowCandidate| selects(selector, candidate, platform);
    lemma_filter_multiset(candidates, pred);
    lemma_filter_multiset(reordered, pred);
    let found = candidates.filter(pred);
    let found_again = reordered.filter(pred);
    assert(found.len() == found_again.len()) by {
        assert(found.to_multiset().len() == found.len());
        assert(found_again.to_multiset().len() == found_again.len());
    }
    if found.len() == 1 {
        assert(found.contains(found[0]));
        assert(found_again.to_multiset().count(found[0]) > 0);
        assert(found_again.contains(found[0]));
    }
}

/// Naming the process of the window that was selected selects the same window.
pub proof fn law_naming_the_process_keeps_the_window(
    selector: WindowSelector,
    candidates: Seq<WindowCandidate>,
    platform: Platform,
)
    requires
        selection(selector, candidates, platform) is Ok,
    ensures
        selection(
            WindowSelector {
                title: selector.title,
                process_id: Some(selection(selector, candidates, platform)->Ok_0.process_id),
                executable: selector.executable,
            },
            candidates,
            platform,
        ) == selection(selector, candidates, platform),
{
    let window = selection(selector, candidates, platform)->Ok_0;
    let named = WindowSelector {
        title: selector.title,
        process_id: Some(window.process_id),
        executable: selector.executable,
    };
    let pred = |candidate: WindowCandidate| selects(selector, candidate, platform);
    let named_pred = |candidate: WindowCandidate| selects(named, candidate, platform);
    let only = lemma_filter_one(candidates, pred);
    assert forall|j: int| 0 <= j < candidates.len() && j != only implies !named_pred(
        #[trigger] candidates[j],
    ) by {
        assert(!pred(candidates[j]));
    }
    lemma_filter_only(candidates, named_pred, only);
}

/// Windows that are not meant may come and go: invisible ones, and those of another title, of
/// another process than the one that is named or of another program.
pub proof fn law_unmeant_windows_may_come_and_go(
    selector: WindowSelector,
    before: Seq<WindowCandidate>,
    unmeant: Seq<WindowCandidate>,
    after: Seq<WindowCandidate>,
    platform: Platform,
)
    requires
        forall|i: int|
            0 <= i < unmeant.len() ==> !selects(selector, #[trigger] unmeant[i], platform),
    ensures
        selection(selector, before + unmeant + after, platform) == selection(
            selector,
            before + after,
            platform,
        ),
        forall|candidate: WindowCandidate|
            !#[trigger] names(selector, candidate) ==> !selects(selector, candidate, platform),
{
    let pred = |candidate: WindowCandidate| selects(selector, candidate, platform);
    Seq::filter_distributes_over_add(before + unmeant, after, pred);
    Seq::filter_distributes_over_add(before, unmeant, pred);
    Seq::filter_distributes_over_add(before, after, pred);
    assert forall|i: int| 0 <= i < unmeant.len() implies !pred(#[trigger] unmeant[i]) by {
        assert(!selects(selector, unmeant[i], platform));
    }
    lemma_filter_none(unmeant, pred);
    assert(before.filter(pred) + unmeant.filter(pred) =~= before.filter(pred));
}

proof fn lemma_filter_several<A>(items: Seq<A>, pred: spec_fn(A) -> bool) -> (two: (int, int))
    requires
        items.filter(pred).len() > 1,
    ensures
        0 <= two.0 < two.1 < items.len(),
        pred(items[two.0]),
        pred(items[two.1]),
    decreases items.len(),
{
    reveal(Seq::filter);
    let before = items.drop_last();
    if before.filter(pred).len() > 1 {
        let two = lemma_filter_several(before, pred);
        assert(before[two.0] == items[two.0] && before[two.1] == items[two.1]);
        two
    } else {
        let only = lemma_filter_one(before, pred);
        assert(before[only] == items[only]);
        (only, items.len() - 1)
    }
}

/// What comes of looking for a window has its reason in the windows. A window is meant where it
/// is visible, has the title, is of the process where one is named, and is of the program where
/// one is named. The single one that is meant is selected, unless it has no handle; where none
/// or several are meant, and where the named program has no path, that is what is said.
pub proof fn law_every_selection_has_its_reason(
    selector: WindowSelector,
    candidates: Seq<WindowCandidate>,
    platform: Platform,
)
    ensures
        ({
            let meant = |window: WindowCandidate|
                {
                    &&& window.visible
                    &&& window.title@ == selector.title@
                    &&& selector.process_id is None || selector.process_id == Some(
                        window.process_id,
                    )
                    &&& selector.executable matches Some(ResolvedPath::Canonical(program)) ==> (
                    window.executable matches Some(ResolvedPath::Canonical(path)) && is_same_path(
                        path@,
                        program@,
                        platform,
                    ))
                };
            let resolved = !(selector.executable matches Some(ResolvedPath::Unresolvable(_)));
            match selection(selector, candidates, platform) {
                Ok(window) => resolved && window.handle != 0 && exists|i: int|
                    0 <= i < candidates.len() && #[trigger] candidates[i] == window && meant(window)
                        && forall|j: int|
                        0 <= j < candidates.len() && j != i ==> !meant(#[trigger] candidates[j]),
                Err(WindowError::NullHandle) => resolved && exists|i: int|
                    0 <= i < candidates.len() && (#[trigger] candidates[i]).handle == 0 && meant(
                        candidates[i],
                    ) && forall|j: int|
                        0 <= j < candidates.len() && j != i ==> !meant(#[trigger] candidates[j]),
                Err(WindowError::NoMatch(title)) => resolved && title == selector.title && forall|
                    i: int,
                |
                    0 <= i < candidates.len() ==> !meant(#[trigger] candidates[i]),
                Err(WindowError::Ambiguous(title)) => resolved && title == selector.title
                    && exists|i: int, j: int|
                    0 <= i < j < candidates.len() && meant(#[trigger] candidates[i]) && meant(
                        #[trigger] candidates[j],
                    ),
                Err(WindowError::ExecutableUnresolved(cause)) => selector.executable == Some(
                    ResolvedPath::Unresolvable(cause),
                ),
                Err(_) => false,
            }
        }),
{
    let meant = |window: WindowCandidate|
        {
            &&& window.visible
            &&& window.title@ == selector.title@
            &&& selector.process_id is None || selector.process_id == Some(window.process_id)
            &&& selector.executable matches Some(ResolvedPath::Canonical(program)) ==> (
            window.executable matches Some(ResolvedPath::Canonical(path)) && is_same_path(
                path@,
                program@,
                platform,
            ))
        };
    let pred = |candidate: WindowCandidate| selects(selector, candidate, platform);
    if !(selector.executable matches Some(ResolvedPath::Unresolvable(_))) {
        assert forall|i: int| 0 <= i < candidates.len() implies meant(#[trigger] candidates[i])
            == pred(candidates[i]) by {}
        let found = candidates.filter(pred);
        if found.len() == 0 {
            lemma_filter_none(candidates, pred);
        } else if found.len() > 1 {
            let two = lemma_filter_several(candidates, pred);
            assert(meant(candidates[two.0]) && meant(candidates[two.1]));
        } else {
            let only = lemma_filter_one(candidates, pred);
            assert forall|j: int| 0 <= j < candidates.len() && j != only implies !meant(
                #[trigger] candidates[j],
            ) by {
                assert(!pred(candidates[j]));
            }
            assert(meant(candidates[only]));
        }
    }
}

/// The program of a window is looked up exactly where one is named, and the window is visible,
/// has the title, and is of the process where one is named.
pub proof fn law_programs_are_looked_up_where_they_decide(
    selector: WindowSelector,
    candidate: WindowCandidate,
)
    ensures
        takes_program(selector, candidate) <==> selector.executable is Some && candidate.visible
            && candidate.title@ == selector.title@ && (selector.process_id is None
            || selector.process_id == Some(candidate.process_id)),
{
}

/// A client area is as wide as its right edge is from its left one and as high as its bottom edge
/// is from its top one, and has both or is none.
pub proof fn law_client_areas_have_their_size(rect: ClientRect)
    requires
        rect.right - rect.left <= i32::MAX,
        rect.bottom - rect.top <= i32::MAX,
    ensures
        match client_size_of(rect) {
            Ok((width, height)) => {
                &&& 0 < width && width == rect.right - rect.left
                &&& 0 < height && height == rect.bottom - rect.top
            },
            Err(error) => error is EmptyClientArea && (rect.right <= rect.left || rect.bottom
                <= rect.top),
        },
{
}

/// A window that is resolved is the one that was selected, with the size of its client area. It
/// has to have a handle, and then a client area.
pub proof fn law_resolved_windows_are_the_selected_ones(
    candidate: WindowCandidate,
    rect: ClientRect,
)
    requires
        rect.right - rect.left <= i32::MAX,
        rect.bottom - rect.top <= i32::MAX,
    ensures
        match resolution(candidate, rect) {
            Ok(window) => {
                &&& window.handle == candidate.handle
                &&& window.process_id == candidate.process_id
                &&& window.client_width == rect.right - rect.left
                &&& window.client_height == rect.bottom - rect.top
                &&& window.handle != 0 && window.client_width > 0 && window.client_height > 0
            },
            Err(WindowError::NullHandle) => candidate.handle == 0,
            Err(WindowError::EmptyClientArea) => candidate.handle != 0 && (rect.right <= rect.left
                || rect.bottom <= rect.top),
            Err(_) => false,
        },
{
}

/// The control unit is there exactly where MaaCore's library was found and the file beside it is
/// there. What is missing is said, with the directory in which it is missing.
pub proof fn law_the_control_unit_has_to_be_there(
    directory: Option<String>,
    is_file: bool,
    platform: Platform,
)
    ensures
        match control_unit_check(directory, is_file, platform) {
            Ok(_) => directory is Some && is_file,
            Err(WindowError::LibraryNotFound) => directory is None,
            Err(WindowError::ControlUnitMissing { directory: searched, platform: on }) => directory
                == Some(searched) && on == platform && !is_file,
            Err(_) => false,
        },
{
}

/// What is said of an error names what it is about: the title in quotes, or the path at which the
/// control unit is missing.
pub proof fn law_messages_name_what_they_are_about(
    title: String,
    directory: String,
    platform: Platform,
    cause: String,
)
    ensures
        window_error_message(WindowError::NoMatch(title))
            == "No visible top-level window exactly matched title "@ + debug_text(title@),
        window_error_message(WindowError::Ambiguous(title))
            == "Multiple visible top-level windows exactly matched title "@ + debug_text(title@)
            + "; set window_process_id or window_executable"@,
        window_error_message(WindowError::ControlUnitMissing { directory, platform })
            == "Win32 connection requires "@ + "MaaWin32ControlUnit.dll"@
            + " beside MaaCore.dll (not found at "@ + joined(
            directory@,
            "MaaWin32ControlUnit.dll"@,
            platform,
        ) + ")"@,
        window_error_message(WindowError::ExecutableUnresolved(cause))
            == "Failed to canonicalize configured window_executable"@,
        window_error_cause(WindowError::ExecutableUnresolved(cause)) == Some(cause@),
        forall|error: WindowError|
            #[trigger] window_error_cause(error) is Some ==> error is ExecutableUnresolved,
{
}

/// A title takes room for itself and its end, and without a title there is no room to make.
pub proof fn law_titles_have_room_for_their_end(title_length: int)
    ensures
        match title_room(title_length) {
            Some(room) => title_length > 0 && room == title_length + 1,
            None => title_length <= 0,
        },
{
}

/// Windows are collected in the order in which they are listed. Those before stay as they are, and
/// one with a title is added as it is.
pub proof fn law_windows_are_collected_as_they_are(
    before: Seq<WindowCandidate>,
    after: Seq<WindowCandidate>,
    handle: isize,
    title: Seq<u16>,
    process_id: u32,
    executable: Option<ResolvedPath>,
    visible: bool,
)
    requires
        is_collected(before, after, handle, title, process_id, executable, visible),
    ensures
        after.len() == before.len() + (if title.len() > 0 {
            1int
        } else {
            0
        }),
        forall|i: int| 0 <= i < before.len() ==> after[i] == #[trigger] before[i],
        title.len() > 0 ==> {
            let added = after[before.len() as int];
            &&& added.handle == handle
            &&& added.title@ == utf16_text(title)
            &&& added.process_id == process_id
            &&& added.executable == executable
            &&& added.visible == visible
        },
{
    if title.len() > 0 {
        assert forall|i: int| 0 <= i < before.len() implies after[i] == #[trigger] before[i] by {
            assert(after.drop_last()[i] == after[i]);
        }
    }
}

/// The program of a process is known exactly where it is a real one that answered, and is then
/// what was written of it, as long as it said.
pub proof fn law_programs_are_read_as_they_were_written(
    process_id: u32,
    image: Option<ProcessImage>,
)
    ensures
        program_text(process_id, image) is Some <==> process_id != 0 && image is Some
            && image->0.queried,
        program_text(process_id, image) matches Some(text) ==> text == utf16_text(
            image->0.path@.take(image->0.length as int),
        ),
{
}

/// The handle that is found is that of the window that is selected, and is never null.
pub proof fn law_handles_are_of_the_selected_window(
    selector: WindowSelector,
    candidates: Seq<WindowCandidate>,
    platform: Platform,
)
    ensures
        match selected_handle(selector, candidates, platform) {
            Ok(handle) => handle != 0 && (selection(selector, candidates, platform) matches Ok(
                window,
            ) && window.handle == handle),
            Err(error) => selection(selector, candidates, platform) == Err::<
                WindowCandidate,
                WindowError,
            >(error),
        },
{
}

} // verus!
