//! What a connection probe reports.
use maa_run::double::Double;
use maa_run::payload::{
    connection_capabilities_payload, connection_probe_failure_payload,
    connection_probe_success_payload, stable_error_code, ConnectionProbeMetadata,
    CONNECTION_PROBE_SCHEMA_VERSION, WIN32_PROBE_CAPABILITY_VERSION,
};
use maa_run::platform::Platform;
use maa_run::screenshot::ScreenshotQuality;

fn sample_quality() -> ScreenshotQuality {
    ScreenshotQuality {
        normalized_width: 1280,
        normalized_height: 720,
        non_black_ratio: Double::ratio(3, 4).unwrap(),
        luma_variance: Double::ratio(85, 2).unwrap(),
        black_frame: false,
        capture_quality_ok: true,
    }
}

#[test]
fn win32_probe_json_contract_is_versioned_and_echoes_methods() {
    let quality = sample_quality();
    let metadata = ConnectionProbeMetadata {
        window_process_id: Some(4242),
        window_client_width: Some(1920),
        window_client_height: Some(1080),
        screencap_method: Some(2),
        mouse_method: Some(128),
        keyboard_method: Some(4),
    };
    let payload = connection_probe_success_payload("Win32", 4096, Some(&quality), &metadata);

    assert_eq!(payload["ok"], true);
    assert_eq!(payload["schema_version"], CONNECTION_PROBE_SCHEMA_VERSION);
    assert_eq!(payload["capability_version"], WIN32_PROBE_CAPABILITY_VERSION);
    assert_eq!(payload["window_client_width"], 1920);
    assert_eq!(payload["window_client_height"], 1080);
    assert_eq!(payload["normalized_screenshot_width"], 1280);
    assert_eq!(payload["normalized_screenshot_height"], 720);
    assert_eq!(payload["screencap_method"], 2);
    assert_eq!(payload["mouse_method"], 128);
    assert_eq!(payload["keyboard_method"], 4);
    assert_eq!(payload["black_frame"], false);
    assert_eq!(payload["capture_quality_ok"], true);

    assert_eq!(payload["connection"], "Win32");
    assert_eq!(payload["screenshot_bytes"], 4096);
    assert_eq!(payload["window_process_id"], 4242);
    assert_eq!(payload["non_black_ratio"], 0.75);
    assert_eq!(payload["luma_variance"], 42.5);
    assert_eq!(payload.as_object().unwrap().len(), 17);
}

#[test]
fn probe_failure_json_exposes_only_a_stable_error_code() {
    let payload = connection_probe_failure_payload("win32_attach_failed");
    assert_eq!(payload["ok"], false);
    assert_eq!(payload["schema_version"], CONNECTION_PROBE_SCHEMA_VERSION);
    assert_eq!(payload["capability_version"], WIN32_PROBE_CAPABILITY_VERSION);
    assert_eq!(payload["error_code"], "win32_attach_failed");
    assert!(payload.get("detail").is_none());
    assert!(payload.get("path").is_none());

    let sanitized = connection_probe_failure_payload("bad:C:\\Users\\name");
    assert_eq!(sanitized["error_code"], "connection_probe_failed");
}

#[test]
fn capabilities_are_reported_without_loading_a_profile() {
    for platform in [Platform::Windows, Platform::MacOs, Platform::Linux, Platform::Other] {
        let payload = connection_capabilities_payload(platform);
        assert_eq!(payload["ok"], true);
        assert_eq!(payload["schema_version"], 2);
        assert_eq!(payload["capability_version"], WIN32_PROBE_CAPABILITY_VERSION);
        assert_eq!(payload["win32_supported"], platform == Platform::Windows);
        assert_eq!(payload["probe_fields"].as_array().unwrap().len(), 4);
    }
}

#[test]
fn reports_are_written_as_plain_json() {
    assert_eq!(
        connection_probe_failure_payload("adb_connect_failed").to_string(),
        "{\"capability_version\":\"arkconsole-win32-probe-v2\",\
         \"error_code\":\"adb_connect_failed\",\"ok\":false,\"schema_version\":2}"
    );
    assert_eq!(
        connection_capabilities_payload(Platform::Linux).to_string(),
        "{\"capability_version\":\"arkconsole-win32-probe-v2\",\"ok\":true,\
         \"probe_fields\":[\"raw_window_client_size\",\"method_echo\",\"capture_quality\",\
         \"structured_error_code\"],\"schema_version\":2,\"win32_supported\":false}"
    );
}

#[test]
fn what_is_not_known_is_null() {
    let payload =
        connection_probe_success_payload("ADB", 0, None, &ConnectionProbeMetadata::default());
    let object = payload.as_object().unwrap();
    let known = ["ok", "schema_version", "capability_version", "connection", "screenshot_bytes"];
    for (key, value) in object {
        assert_eq!(value.is_null(), !known.contains(&key.as_str()), "{key}");
    }
    assert_eq!(object.len(), 17);
    assert_eq!(payload["connection"], "ADB");
    assert_eq!(payload["screenshot_bytes"], 0);
}

#[test]
fn measures_are_the_nearest_doubles() {
    let cases: [(u64, u64, f64); 6] = [
        (1, 3, 1.0 / 3.0),
        (2, 3, 2.0 / 3.0),
        (1, 1000, 0.001),
        (999, 1000, 0.999),
        (1, 7, 1.0 / 7.0),
        (0, 5, 0.0),
    ];
    for (numerator, denominator, expected) in cases {
        let quality = ScreenshotQuality {
            non_black_ratio: Double::ratio(numerator, denominator).unwrap(),
            ..sample_quality()
        };
        let payload = connection_probe_success_payload(
            "ADB",
            1,
            Some(&quality),
            &ConnectionProbeMetadata::default(),
        );
        assert_eq!(payload["non_black_ratio"].as_f64().unwrap(), expected);
        assert!(payload["non_black_ratio"].is_f64());
    }
}

#[test]
fn codes_are_short_and_plain() {
    let longest = "a".repeat(80);
    assert_eq!(stable_error_code(&longest), longest);
    assert_eq!(stable_error_code(&"a".repeat(81)), "connection_probe_failed");
    assert_eq!(stable_error_code(""), "connection_probe_failed");
    assert_eq!(stable_error_code("az_09"), "az_09");
    assert_eq!(stable_error_code("Upper"), "connection_probe_failed");
    assert_eq!(stable_error_code("with space"), "connection_probe_failed");
    assert_eq!(stable_error_code("\u{e9}t\u{e9}"), "connection_probe_failed");
    assert_eq!(stable_error_code(stable_error_code("No!")), "connection_probe_failed");
}
