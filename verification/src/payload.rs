//! What a connection probe reports, as JSON.
use crate::decimal::ten_pow;
use crate::double::{number_in_decimal, Double};
use crate::json::{
    double_bits, insert, json_count, json_double, json_flag, json_list, json_null, json_object,
    json_of, json_text, new_object, Json,
};
use crate::platform::Platform;
use crate::rounding::{is_moderate, law_decimals_are_exact, scaled, unit};
use crate::screenshot::ScreenshotQuality;
use crate::text::{chars_of, digits};
use serde_json::Value;
use vstd::prelude::*;

verus! {

/// The version of the reports' fields.
pub const CONNECTION_PROBE_SCHEMA_VERSION: u32 = 2;

/// The version of what the probe can do.
pub const WIN32_PROBE_CAPABILITY_VERSION: &'static str = "arkconsole-win32-probe-v2";

/// The longest error code that is reported.
pub const LONGEST_ERROR_CODE: usize = 80;

/// What is known of a connection besides that it stands.
#[derive(Clone, Copy, Debug, PartialEq, Eq, Structural)]
pub struct ConnectionProbeMetadata {
    pub window_process_id: Option<u32>,
    pub window_client_width: Option<u32>,
    pub window_client_height: Option<u32>,
    pub screencap_method: Option<u64>,
    pub mouse_method: Option<u64>,
    pub keyboard_method: Option<u64>,
}

/// Nothing is known of the connection.
pub open spec fn no_metadata() -> ConnectionProbeMetadata {
    ConnectionProbeMetadata {
        window_process_id: None,
        window_client_width: None,
        window_client_height: None,
        screencap_method: None,
        mouse_method: None,
        keyboard_method: None,
    }
}

impl Default for ConnectionProbeMetadata {
    fn default() -> (metadata: Self)
        ensures
            metadata == no_metadata(),
    {
        ConnectionProbeMetadata {
            window_process_id: None,
            window_client_width: None,
            window_client_height: None,
            screencap_method: None,
            mouse_method: None,
            keyboard_method: None,
        }
    }
}

/// A count that may be unknown: null where it is.
pub open spec fn optional_count(count: Option<u64>) -> Json {
    match count {
        Some(count) => Json::Count(count),
        None => Json::Null,
    }
}

/// As [`optional_count`], of a narrower count.
pub open spec fn optional_small_count(count: Option<u32>) -> Json {
    match count {
        Some(count) => Json::Count(count as u64),
        None => Json::Null,
    }
}

/// A flag that may be unknown: null where it is.
pub open spec fn optional_flag(flag: Option<bool>) -> Json {
    match flag {
        Some(flag) => Json::Flag(flag),
        None => Json::Null,
    }
}

/// A measure that may be unknown: null where it is, and else the double read from its decimal.
pub open spec fn optional_measure(measure: Option<Double>) -> Json {
    match measure {
        Some(measure) => Json::Float(double_bits(number_in_decimal(measure@))),
        None => Json::Null,
    }
}

/// The report of a connection that stands.
pub open spec fn success_payload(
    connection: Seq<char>,
    screenshot_bytes: u64,
    quality: Option<ScreenshotQuality>,
    metadata: ConnectionProbeMetadata,
) -> Json {
    Json::Object(
        map![
            "ok"@ => Json::Flag(true),
            "schema_version"@ => Json::Count(CONNECTION_PROBE_SCHEMA_VERSION as u64),
            "capability_version"@ => Json::Text(WIN32_PROBE_CAPABILITY_VERSION@),
            "connection"@ => Json::Text(connection),
            "screenshot_bytes"@ => Json::Count(screenshot_bytes),
            "window_process_id"@ => optional_small_count(metadata.window_process_id),
            "window_client_width"@ => optional_small_count(metadata.window_client_width),
            "window_client_height"@ => optional_small_count(metadata.window_client_height),
            "screencap_method"@ => optional_count(metadata.screencap_method),
            "mouse_method"@ => optional_count(metadata.mouse_method),
            "keyboard_method"@ => optional_count(metadata.keyboard_method),
            "normalized_screenshot_width"@ => optional_small_count(
                match quality { Some(quality) => Some(quality.normalized_width), None => None },
            ),
            "normalized_screenshot_height"@ => optional_small_count(
                match quality { Some(quality) => Some(quality.normalized_height), None => None },
            ),
            "non_black_ratio"@ => optional_measure(
                match quality { Some(quality) => Some(quality.non_black_ratio), None => None },
            ),
            "luma_variance"@ => optional_measure(
                match quality { Some(quality) => Some(quality.luma_variance), None => None },
            ),
            "black_frame"@ => optional_flag(
                match quality { Some(quality) => Some(quality.black_frame), None => None },
            ),
            "capture_quality_ok"@ => optional_flag(
                match quality { Some(quality) => Some(quality.capture_quality_ok), None => None },
            ),
        ],
    )
}

/// Whether `c` may stand in an error code that is reported as it is.
pub open spec fn is_code_char(c: char) -> bool {
    'a' <= c <= 'z' || '0' <= c <= '9' || c == '_'
}

/// Whether `code` is an error code that is reported as it is.
pub open spec fn is_stable_code(code: Seq<char>) -> bool {
    &&& 0 < code.len() <= LONGEST_ERROR_CODE
    &&& forall|i: int| 0 <= i < code.len() ==> is_code_char(#[trigger] code[i])
}

/// The error code that is reported for `code`.
pub open spec fn stable_code(code: Seq<char>) -> Seq<char> {
    if is_stable_code(code) {
        code
    } else {
        "connection_probe_failed"@
    }
}

/// The report of a probe that failed.
pub open spec fn failure_payload(error_code: Seq<char>) -> Json {
    Json::Object(
        map![
            "ok"@ => Json::Flag(false),
            "schema_version"@ => Json::Count(CONNECTION_PROBE_SCHEMA_VERSION as u64),
            "capability_version"@ => Json::Text(WIN32_PROBE_CAPABILITY_VERSION@),
            "error_code"@ => Json::Text(stable_code(error_code)),
        ],
    )
}

/// The report of what the probe can do.
pub open spec fn capabilities_payload(platform: Platform) -> Json {
    Json::Object(
        map![
            "ok"@ => Json::Flag(true),
            "schema_version"@ => Json::Count(CONNECTION_PROBE_SCHEMA_VERSION as u64),
            "capability_version"@ => Json::Text(WIN32_PROBE_CAPABILITY_VERSION@),
            "win32_supported"@ => Json::Flag(platform == Platform::Windows),
            "probe_fields"@ => Json::List(
                seq![
                    Json::Text("raw_window_client_size"@),
                    Json::Text("method_echo"@),
                    Json::Text("capture_quality"@),
                    Json::Text("structured_error_code"@),
                ],
            ),
        ],
    )
}

fn count_value(count: Option<u64>) -> (value: Value)
    ensures
        json_of(value) == optional_count(count),
{
    match count {
        Some(count) => json_count(count),
        None => json_null(),
    }
}

fn small_count_value(count: Option<u32>) -> (value: Value)
    ensures
        json_of(value) == optional_small_count(count),
{
    match count {
        Some(count) => json_count(count as u64),
        None => json_null(),
    }
}

fn flag_value(flag: Option<bool>) -> (value: Value)
    ensures
        json_of(value) == optional_flag(flag),
{
    match flag {
        Some(flag) => json_flag(flag),
        None => json_null(),
    }
}

fn measure_value(measure: Option<Double>) -> (value: Value)
    ensures
        json_of(value) == optional_measure(measure),
{
    match measure {
        Some(measure) => {
            let text = measure.to_text();
            match json_double(text.as_str()) {
                Some(value) => value,
                None => json_null(),
            }
        },
        None => json_null(),
    }
}

/// Reports a connection that stands.
pub fn connection_probe_success_payload(
    connection: &str,
    screenshot_bytes: usize,
    quality: Option<&ScreenshotQuality>,
    metadata: &ConnectionProbeMetadata,
) -> (payload: Value)
    ensures
        json_of(payload) == success_payload(
            connection@,
            screenshot_bytes as u64,
            match quality {
                Some(quality) => Some(*quality),
                None => None,
            },
            *metadata,
        ),
{
    let (width, height): (Option<u32>, Option<u32>) = match quality {
        Some(quality) => (Some(quality.normalized_width), Some(quality.normalized_height)),
        None => (None, None),
    };
    let (ratio, variance): (Option<Double>, Option<Double>) = match quality {
        Some(quality) => (Some(quality.non_black_ratio), Some(quality.luma_variance)),
        None => (None, None),
    };
    let (black, usable) = match quality {
        Some(quality) => (Some(quality.black_frame), Some(quality.capture_quality_ok)),
        None => (None, None),
    };
    let mut report = new_object();
    insert(&mut report, "ok", json_flag(true));
    insert(
        &mut report,
        "schema_version",
        json_count(CONNECTION_PROBE_SCHEMA_VERSION as u64),
    );
    insert(&mut report, "capability_version", json_text(WIN32_PROBE_CAPABILITY_VERSION));
    insert(&mut report, "connection", json_text(connection));
    insert(&mut report, "screenshot_bytes", json_count(screenshot_bytes as u64));
    insert(&mut report, "window_process_id", small_count_value(metadata.window_process_id));
    insert(&mut report, "window_client_width", small_count_value(metadata.window_client_width));
    insert(&mut report, "window_client_height", small_count_value(metadata.window_client_height));
    insert(&mut report, "screencap_method", count_value(metadata.screencap_method));
    insert(&mut report, "mouse_method", count_value(metadata.mouse_method));
    insert(&mut report, "keyboard_method", count_value(metadata.keyboard_method));
    insert(&mut report, "normalized_screenshot_width", small_count_value(width));
    insert(&mut report, "normalized_screenshot_height", small_count_value(height));
    insert(&mut report, "non_black_ratio", measure_value(ratio));
    insert(&mut report, "luma_variance", measure_value(variance));
    insert(&mut report, "black_frame", flag_value(black));
    insert(&mut report, "capture_quality_ok", flag_value(usable));
    json_object(report)
}

/// The error code that is reported for `error_code`: itself where it is short and plain.
pub fn stable_error_code(error_code: &str) -> (code: &str)
    ensures
        code@ == stable_code(error_code@),
{
    let chars = chars_of(error_code);
    if chars.len() == 0 || chars.len() > LONGEST_ERROR_CODE {
        return "connection_probe_failed";
    }
    for i in 0..chars.len()
        invariant
            chars@ == error_code@,
            forall|j: int| 0 <= j < i ==> is_code_char(#[trigger] error_code@[j]),
    {
        let c: char = chars[i];
        if !('a' <= c && c <= 'z' || '0' <= c && c <= '9' || c == '_') {
            assert(!is_code_char(error_code@[i as int]));
            return "connection_probe_failed";
        }
    }
    error_code
}

/// Reports a probe that failed, by an error code and nothing else.
pub fn connection_probe_failure_payload(error_code: &str) -> (payload: Value)
    ensures
        json_of(payload) == failure_payload(error_code@),
{
    let mut report = new_object();
    insert(&mut report, "ok", json_flag(false));
    insert(
        &mut report,
        "schema_version",
        json_count(CONNECTION_PROBE_SCHEMA_VERSION as u64),
    );
    insert(&mut report, "capability_version", json_text(WIN32_PROBE_CAPABILITY_VERSION));
    insert(&mut report, "error_code", json_text(stable_error_code(error_code)));
    json_object(report)
}

/// Reports what the probe can do on `platform`.
pub fn connection_capabilities_payload(platform: Platform) -> (payload: Value)
    ensures
        json_of(payload) == capabilities_payload(platform),
{
    let mut names: Vec<Value> = Vec::new();
    names.push(json_text("raw_window_client_size"));
    names.push(json_text("method_echo"));
    names.push(json_text("capture_quality"));
    names.push(json_text("structured_error_code"));
    assert(names@.map_values(|item: Value| json_of(item)) =~= seq![
        Json::Text("raw_window_client_size"@),
        Json::Text("method_echo"@),
        Json::Text("capture_quality"@),
        Json::Text("structured_error_code"@),
    ]);
    let mut report = new_object();
    insert(&mut report, "ok", json_flag(true));
    insert(
        &mut report,
        "schema_version",
        json_count(CONNECTION_PROBE_SCHEMA_VERSION as u64),
    );
    insert(&mut report, "capability_version", json_text(WIN32_PROBE_CAPABILITY_VERSION));
    insert(&mut report, "win32_supported", json_flag(platform == Platform::Windows));
    insert(&mut report, "probe_fields", json_list(names));
    json_object(report)
}

/// Whatever error code is handed in, a short and plain one is reported, and that one is reported
/// as it is.
pub proof fn law_reported_codes_are_stable(code: Seq<char>)
    ensures
        is_stable_code(stable_code(code)),
        stable_code(stable_code(code)) == stable_code(code),
{
    reveal_strlit("connection_probe_failed");
}

/// The keys under which every report says how it went and by which version.
proof fn lemma_common_keys()
    ensures
        "ok"@.len() == 2,
        "schema_version"@.len() == 14,
        "capability_version"@.len() == 18,
{
    reveal_strlit("ok");
    reveal_strlit("schema_version");
    reveal_strlit("capability_version");
}

/// Whether `report` says that it went as `ok` says, and by which versions it is to be read.
pub open spec fn is_versioned(report: Json, ok: bool) -> bool {
    &&& report matches Json::Object(fields)
    &&& fields.contains_pair("ok"@, Json::Flag(ok))
    &&& fields.contains_pair(
        "schema_version"@,
        Json::Count(CONNECTION_PROBE_SCHEMA_VERSION as u64),
    )
    &&& fields.contains_pair(
        "capability_version"@,
        Json::Text(WIN32_PROBE_CAPABILITY_VERSION@),
    )
}

/// The report of a failure is versioned, and besides exposes a stable error code and nothing
/// else.
pub proof fn law_failures_expose_only_a_code(code: Seq<char>)
    ensures
        is_versioned(failure_payload(code), false),
        failure_payload(code)->Object_0.dom() == set![
            "ok"@,
            "schema_version"@,
            "capability_version"@,
            "error_code"@,
        ],
        failure_payload(code)->Object_0["error_code"@] == Json::Text(stable_code(code)),
{
    lemma_common_keys();
    reveal_strlit("error_code");
    assert(failure_payload(code)->Object_0.dom() =~= set![
        "ok"@,
        "schema_version"@,
        "capability_version"@,
        "error_code"@,
    ]);
}

/// The report of the capabilities is versioned, says on Windows alone that windows can be
/// attached to, and lists four groups of fields.
pub proof fn law_capabilities_are_versioned(platform: Platform)
    ensures
        is_versioned(capabilities_payload(platform), true),
        capabilities_payload(platform)->Object_0["win32_supported"@] == Json::Flag(
            platform == Platform::Windows,
        ),
        capabilities_payload(platform)->Object_0["probe_fields"@]->List_0.len() == 4,
{
    lemma_common_keys();
    reveal_strlit("win32_supported");
    reveal_strlit("probe_fields");
    assert("win32_supported"@.len() == 15 && "probe_fields"@.len() == 12);
}

/// The report of a connection that stands is versioned, names the connection and the length of
/// the screenshot, and echoes the window, the methods and the measures of the screenshot.
pub proof fn law_successes_echo_what_was_found(
    connection: Seq<char>,
    screenshot_bytes: u64,
    quality: ScreenshotQuality,
    metadata: ConnectionProbeMetadata,
)
    ensures
        is_versioned(
            success_payload(connection, screenshot_bytes, Some(quality), metadata),
            true,
        ),
        ({
            let fields = success_payload(
                connection,
                screenshot_bytes,
                Some(quality),
                metadata,
            )->Object_0;
            &&& fields["connection"@] == Json::Text(connection)
            &&& fields["screenshot_bytes"@] == Json::Count(screenshot_bytes)
            &&& fields["window_process_id"@] == optional_small_count(metadata.window_process_id)
            &&& fields["window_client_width"@] == optional_small_count(
                metadata.window_client_width,
            )
            &&& fields["window_client_height"@] == optional_small_count(
                metadata.window_client_height,
            )
            &&& fields["screencap_method"@] == optional_count(metadata.screencap_method)
            &&& fields["mouse_method"@] == optional_count(metadata.mouse_method)
            &&& fields["keyboard_method"@] == optional_count(metadata.keyboard_method)
            &&& fields["normalized_screenshot_width"@] == Json::Count(
                quality.normalized_width as u64,
            )
            &&& fields["normalized_screenshot_height"@] == Json::Count(
                quality.normalized_height as u64,
            )
            &&& fields["non_black_ratio"@] == optional_measure(Some(quality.non_black_ratio))
            &&& fields["luma_variance"@] == optional_measure(Some(quality.luma_variance))
            &&& fields["black_frame"@] == Json::Flag(quality.black_frame)
            &&& fields["capture_quality_ok"@] == Json::Flag(quality.capture_quality_ok)
        }),
{
    lemma_common_keys();
    lemma_success_keys();
}

/// Without a screenshot, what is measured on one is null, and everything else is as with one.
pub proof fn law_measures_are_null_without_a_screenshot(
    connection: Seq<char>,
    screenshot_bytes: u64,
    quality: ScreenshotQuality,
    metadata: ConnectionProbeMetadata,
)
    ensures
        is_versioned(success_payload(connection, screenshot_bytes, None, metadata), true),
        ({
            let fields = success_payload(connection, screenshot_bytes, None, metadata)->Object_0;
            let with = success_payload(
                connection,
                screenshot_bytes,
                Some(quality),
                metadata,
            )->Object_0;
            &&& fields["connection"@] == Json::Text(connection)
            &&& fields["screenshot_bytes"@] == Json::Count(screenshot_bytes)
            &&& fields["window_process_id"@] == optional_small_count(metadata.window_process_id)
            &&& fields["window_client_width"@] == optional_small_count(
                metadata.window_client_width,
            )
            &&& fields["window_client_height"@] == optional_small_count(
                metadata.window_client_height,
            )
            &&& fields["screencap_method"@] == optional_count(metadata.screencap_method)
            &&& fields["mouse_method"@] == optional_count(metadata.mouse_method)
            &&& fields["keyboard_method"@] == optional_count(metadata.keyboard_method)
            &&& fields.dom() == with.dom()
            &&& fields["normalized_screenshot_width"@] == Json::Null
            &&& fields["normalized_screenshot_height"@] == Json::Null
            &&& fields["non_black_ratio"@] == Json::Null
            &&& fields["luma_variance"@] == Json::Null
            &&& fields["black_frame"@] == Json::Null
            &&& fields["capture_quality_ok"@] == Json::Null
        }),
{
    lemma_common_keys();
    lemma_success_keys();
    law_successes_have_the_same_fields(connection, screenshot_bytes, None, metadata);
    law_successes_have_the_same_fields(connection, screenshot_bytes, Some(quality), metadata);
}

/// The report of a connection that stands has these seventeen fields, whatever was found.
pub proof fn law_successes_have_the_same_fields(
    connection: Seq<char>,
    screenshot_bytes: u64,
    quality: Option<ScreenshotQuality>,
    metadata: ConnectionProbeMetadata,
)
    ensures
        success_payload(connection, screenshot_bytes, quality, metadata)->Object_0.dom() == set![
            "ok"@,
            "schema_version"@,
            "capability_version"@,
            "connection"@,
            "screenshot_bytes"@,
            "window_process_id"@,
            "window_client_width"@,
            "window_client_height"@,
            "screencap_method"@,
            "mouse_method"@,
            "keyboard_method"@,
            "normalized_screenshot_width"@,
            "normalized_screenshot_height"@,
            "non_black_ratio"@,
            "luma_variance"@,
            "black_frame"@,
            "capture_quality_ok"@,
        ],
{
    let fields = success_payload(connection, screenshot_bytes, quality, metadata)->Object_0;
    assert(fields.dom() =~= set![
        "ok"@,
        "schema_version"@,
        "capability_version"@,
        "connection"@,
        "screenshot_bytes"@,
        "window_process_id"@,
        "window_client_width"@,
        "window_client_height"@,
        "screencap_method"@,
        "mouse_method"@,
        "keyboard_method"@,
        "normalized_screenshot_width"@,
        "normalized_screenshot_height"@,
        "non_black_ratio"@,
        "luma_variance"@,
        "black_frame"@,
        "capture_quality_ok"@,
    ]);
}

/// What tells the keys of a success apart that are of one length.
proof fn lemma_success_keys()
    ensures
        "connection"@.len() == 10,
        "screenshot_bytes"@.len() == 16,
        "screenshot_bytes"@[6] == 's',
        "window_process_id"@.len() == 17,
        "window_client_width"@.len() == 19,
        "window_client_height"@.len() == 20,
        "screencap_method"@.len() == 16,
        "screencap_method"@[6] == 'c',
        "mouse_method"@.len() == 12,
        "keyboard_method"@.len() == 15,
        "keyboard_method"@[0] == 'k',
        "normalized_screenshot_width"@.len() == 27,
        "normalized_screenshot_height"@.len() == 28,
        "non_black_ratio"@.len() == 15,
        "non_black_ratio"@[0] == 'n',
        "luma_variance"@.len() == 13,
        "black_frame"@.len() == 11,
        "capture_quality_ok"@.len() == 18,
        "capture_quality_ok"@[3] == 't',
        "capability_version"@[3] == 'a',
{
    reveal_strlit("connection");
    reveal_strlit("screenshot_bytes");
    reveal_strlit("window_process_id");
    reveal_strlit("window_client_width");
    reveal_strlit("window_client_height");
    reveal_strlit("screencap_method");
    reveal_strlit("mouse_method");
    reveal_strlit("keyboard_method");
    reveal_strlit("normalized_screenshot_width");
    reveal_strlit("normalized_screenshot_height");
    reveal_strlit("non_black_ratio");
    reveal_strlit("luma_variance");
    reveal_strlit("black_frame");
    reveal_strlit("capture_quality_ok");
    reveal_strlit("capability_version");
}

/// A report says whether it went well under `ok`, and its versions under their keys: two, and the
/// second of the probe's.
pub proof fn law_reports_say_their_versions(
    connection: Seq<char>,
    screenshot_bytes: u64,
    quality: Option<ScreenshotQuality>,
    metadata: ConnectionProbeMetadata,
    code: Seq<char>,
    platform: Platform,
)
    ensures
        ({
            let good = success_payload(connection, screenshot_bytes, quality, metadata);
            let bad = failure_payload(code);
            let able = capabilities_payload(platform);
            &&& good is Object && good->Object_0["ok"@] == Json::Flag(true)
            &&& bad is Object && bad->Object_0["ok"@] == Json::Flag(false)
            &&& able is Object && able->Object_0["ok"@] == Json::Flag(true)
            &&& good->Object_0["schema_version"@] == Json::Count(2)
            &&& bad->Object_0["schema_version"@] == Json::Count(2)
            &&& able->Object_0["schema_version"@] == Json::Count(2)
            &&& good->Object_0["capability_version"@] == Json::Text("arkconsole-win32-probe-v2"@)
            &&& bad->Object_0["capability_version"@] == Json::Text("arkconsole-win32-probe-v2"@)
            &&& able->Object_0["capability_version"@] == Json::Text("arkconsole-win32-probe-v2"@)
        }),
{
    lemma_common_keys();
    lemma_success_keys();
    reveal_strlit("error_code");
    reveal_strlit("win32_supported");
    reveal_strlit("probe_fields");
    assert("error_code"@.len() == 10);
    assert("win32_supported"@.len() == 15 && "probe_fields"@.len() == 12);
}

/// What is known of the connection is reported as it is known, and what is not known is null.
pub proof fn law_what_is_known_is_reported(
    connection: Seq<char>,
    screenshot_bytes: u64,
    quality: Option<ScreenshotQuality>,
    metadata: ConnectionProbeMetadata,
)
    ensures
        ({
            let fields = success_payload(
                connection,
                screenshot_bytes,
                quality,
                metadata,
            )->Object_0;
            &&& fields["connection"@] == Json::Text(connection)
            &&& fields["screenshot_bytes"@] == Json::Count(screenshot_bytes)
            &&& fields["window_process_id"@] == (match metadata.window_process_id {
                Some(id) => Json::Count(id as u64),
                None => Json::Null,
            })
            &&& fields["window_client_width"@] == (match metadata.window_client_width {
                Some(width) => Json::Count(width as u64),
                None => Json::Null,
            })
            &&& fields["window_client_height"@] == (match metadata.window_client_height {
                Some(height) => Json::Count(height as u64),
                None => Json::Null,
            })
            &&& fields["screencap_method"@] == (match metadata.screencap_method {
                Some(method) => Json::Count(method),
                None => Json::Null,
            })
            &&& fields["mouse_method"@] == (match metadata.mouse_method {
                Some(method) => Json::Count(method),
                None => Json::Null,
            })
            &&& fields["keyboard_method"@] == (match metadata.keyboard_method {
                Some(method) => Json::Count(method),
                None => Json::Null,
            })
        }),
{
    lemma_common_keys();
    lemma_success_keys();
}

/// What a screenshot shows is reported as it was measured, and is null without one. A measure is
/// the double that is read from a decimal of exactly its value.
pub proof fn law_what_is_measured_is_reported(
    connection: Seq<char>,
    screenshot_bytes: u64,
    quality: Option<ScreenshotQuality>,
    metadata: ConnectionProbeMetadata,
)
    ensures
        ({
            let fields = success_payload(
                connection,
                screenshot_bytes,
                quality,
                metadata,
            )->Object_0;
            match quality {
                None => {
                    &&& fields["normalized_screenshot_width"@] == Json::Null
                    &&& fields["normalized_screenshot_height"@] == Json::Null
                    &&& fields["non_black_ratio"@] == Json::Null
                    &&& fields["luma_variance"@] == Json::Null
                    &&& fields["black_frame"@] == Json::Null
                    &&& fields["capture_quality_ok"@] == Json::Null
                },
                Some(quality) => {
                    &&& fields["normalized_screenshot_width"@] == Json::Count(
                        quality.normalized_width as u64,
                    )
                    &&& fields["normalized_screenshot_height"@] == Json::Count(
                        quality.normalized_height as u64,
                    )
                    &&& fields["non_black_ratio"@] is Float
                    &&& fields["luma_variance"@] is Float
                    &&& fields["black_frame"@] == Json::Flag(quality.black_frame)
                    &&& fields["capture_quality_ok"@] == Json::Flag(quality.capture_quality_ok)
                },
            }
        }),
        quality matches Some(quality) ==> is_moderate(quality.non_black_ratio@) ==> exists|
            whole: nat,
            places: nat,
        |
            success_payload(connection, screenshot_bytes, Some(quality), metadata)->Object_0[
                "non_black_ratio"@] == Json::Float(
                double_bits(#[trigger] digits(whole) + "e-"@ + #[trigger] digits(places)),
            ) && whole * unit() == scaled(quality.non_black_ratio@) * ten_pow(places),
        quality matches Some(quality) ==> is_moderate(quality.luma_variance@) ==> exists|
            whole: nat,
            places: nat,
        |
            success_payload(connection, screenshot_bytes, Some(quality), metadata)->Object_0[
                "luma_variance"@] == Json::Float(
                double_bits(#[trigger] digits(whole) + "e-"@ + #[trigger] digits(places)),
            ) && whole * unit() == scaled(quality.luma_variance@) * ten_pow(places),
{
    lemma_common_keys();
    lemma_success_keys();
    if let Some(quality) = quality {
        if is_moderate(quality.non_black_ratio@) {
            law_decimals_are_exact(quality.non_black_ratio@);
        }
        if is_moderate(quality.luma_variance@) {
            law_decimals_are_exact(quality.luma_variance@);
        }
    }
}

/// An error code is reported as it is exactly where it has one to eighty characters and each is
/// a lower case letter, a digit or an underscore. Every other is reported as one and the same.
pub proof fn law_plain_codes_are_reported_as_they_are(code: Seq<char>)
    ensures
        ({
            let plain = 1 <= code.len() <= 80 && forall|i: int|
                0 <= i < code.len() ==> {
                    ||| 'a' <= #[trigger] code[i] <= 'z'
                    ||| '0' <= code[i] <= '9'
                    ||| code[i] == '_'
                };
            let reported = failure_payload(code)->Object_0["error_code"@];
            &&& plain ==> stable_code(code) == code && reported == Json::Text(code)
            &&& !plain ==> stable_code(code) == "connection_probe_failed"@ && reported
                == Json::Text("connection_probe_failed"@)
        }),
        failure_payload(code)->Object_0.dom() == set![
            "ok"@,
            "schema_version"@,
            "capability_version"@,
            "error_code"@,
        ],
{
    law_failures_expose_only_a_code(code);
    let plain = 1 <= code.len() <= 80 && forall|i: int|
        0 <= i < code.len() ==> {
            ||| 'a' <= #[trigger] code[i] <= 'z'
            ||| '0' <= code[i] <= '9'
            ||| code[i] == '_'
        };
    if plain {
        assert forall|i: int| 0 <= i < code.len() implies is_code_char(#[trigger] code[i]) by {}
    } else if is_stable_code(code) {
        assert forall|i: int| 0 <= i < code.len() implies {
            ||| 'a' <= #[trigger] code[i] <= 'z'
            ||| '0' <= code[i] <= '9'
            ||| code[i] == '_'
        } by {
            assert(is_code_char(code[i]));
        }
    }
}

/// The probe can attach to windows on Windows alone, and on every platform reports these groups
/// of fields, in this order.
pub proof fn law_capabilities_are_listed(platform: Platform)
    ensures
        ({
            let fields = capabilities_payload(platform)->Object_0;
            &&& fields["win32_supported"@] == Json::Flag(platform == Platform::Windows)
            &&& fields["probe_fields"@] == Json::List(
                seq![
                    Json::Text("raw_window_client_size"@),
                    Json::Text("method_echo"@),
                    Json::Text("capture_quality"@),
                    Json::Text("structured_error_code"@),
                ],
            )
            &&& fields.dom() == set![
                "ok"@,
                "schema_version"@,
                "capability_version"@,
                "win32_supported"@,
                "probe_fields"@,
            ]
        }),
{
    lemma_common_keys();
    reveal_strlit("win32_supported");
    reveal_strlit("probe_fields");
    assert("win32_supported"@.len() == 15 && "probe_fields"@.len() == 12);
    assert(capabilities_payload(platform)->Object_0.dom() =~= set![
        "ok"@,
        "schema_version"@,
        "capability_version"@,
        "win32_supported"@,
        "probe_fields"@,
    ]);
}

/// Where nothing is known of a connection, each of its fields says so.
pub proof fn law_nothing_is_known_by_default()
    ensures
        no_metadata().window_process_id is None,
        no_metadata().window_client_width is None,
        no_metadata().window_client_height is None,
        no_metadata().screencap_method is None,
        no_metadata().mouse_method is None,
        no_metadata().keyboard_method is None,
{
}

} // verus!
