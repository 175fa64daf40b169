//! Explanations of errors.

use openaudio::messages::{error_cause, friendly_error, hardware_api_name, ErrorCause};

#[test]
fn device_errors_are_explained() {
    assert_eq!(
        friendly_error("hr = 0x8889000A"),
        "That device is already in use by another app. Close other audio apps and try again."
    );
    assert_eq!(
        friendly_error("no default input device"),
        "No microphone/input device was found. Check that it is connected and enabled in Windows \
         Sound settings."
    );
    assert_eq!(
        friendly_error("there is no default output device here"),
        "No speaker/output device was found. Check that it is connected and enabled in Windows \
         Sound settings."
    );
}

#[test]
fn explanations_that_quote_the_error_keep_it_whole() {
    assert_eq!(
        friendly_error("Resampling isn't implemented for 96 kHz"),
        "Format mismatch between the incoming stream and the output device: Resampling isn't \
         implemented for 96 kHz"
    );
    assert_eq!(
        friendly_error("device may not support WASAPI loopback"),
        "That device does not support WASAPI loopback capture: device may not support WASAPI \
         loopback"
    );
    assert_eq!(
        friendly_error("counts must match exactly"),
        "Channel/device count mismatch: counts must match exactly"
    );
    assert_eq!(
        friendly_error("devices must share one sample rate"),
        "Sample-rate mismatch across channels: devices must share one sample rate"
    );
    assert_eq!(
        friendly_error("ASIO driver 'X' not found"),
        "The selected ASIO driver was not found. Confirm the console driver is installed: ASIO \
         driver 'X' not found"
    );
}

#[test]
fn set_up_errors_are_explained() {
    assert_eq!(
        friendly_error("couldn't find SAR's default.json"),
        "Could not find SAR's configuration file. Configure SAR through its own interface at \
         least once, then try again."
    );
    assert_eq!(
        friendly_error("ASIO host unavailable"),
        "ASIO is unavailable. Build the application with --features asio and confirm \
         CPAL_ASIO_DIR is configured."
    );
    assert_eq!(
        friendly_error("ASIO support is not compiled in"),
        "ASIO is not enabled in this build. Rebuild with --features asio after configuring \
         CPAL_ASIO_DIR."
    );
    for raw in ["Address already in use (os error 98)", "bind failed: os error 10048"] {
        assert_eq!(
            friendly_error(raw),
            "The requested network port is already in use. Stop the old OpenAudio process or \
             choose another port."
        );
    }
}

#[test]
fn unknown_errors_are_shown_as_they_came() {
    assert_eq!(friendly_error("something else"), "something else");
    assert_eq!(friendly_error(""), "");
    assert_eq!(friendly_error("ASIO driver stalled"), "ASIO driver stalled");
    assert_eq!(friendly_error("driver not found"), "driver not found");
}

#[test]
fn the_first_known_cause_prevails() {
    let raw = "0x8889000A and no default input device";
    assert_eq!(error_cause(raw), ErrorCause::DeviceInUse);
    assert_eq!(
        friendly_error("ASIO driver not found: not compiled in"),
        "The selected ASIO driver was not found. Confirm the console driver is installed: ASIO \
         driver not found: not compiled in"
    );
}

#[test]
fn audio_systems_are_named_after_the_platform() {
    assert_eq!(hardware_api_name("windows"), "WASAPI");
    assert_eq!(hardware_api_name("macos"), "CoreAudio");
    assert_eq!(hardware_api_name("linux"), "Hardware");
    assert_eq!(hardware_api_name("freebsd"), "Hardware");
}
