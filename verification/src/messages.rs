//! Plain-language explanations of the errors that the audio layer reports.

use crate::text::{chars_contain, chars_of, contains_text, join2, same_text};
use vstd::prelude::*;

verus! {

/// What went wrong, as far as the text of an error tells.
#[derive(Clone, Copy, Debug, PartialEq, Eq, Structural)]
pub enum ErrorCause {
    /// Another application holds the device.
    DeviceInUse,
    /// There is no microphone or other input.
    NoInputDevice,
    /// There is no speaker or other output.
    NoOutputDevice,
    /// Stream and device differ in format.
    FormatMismatch,
    /// The device cannot be captured in loopback.
    NoLoopback,
    /// Channels and devices differ in number.
    ChannelMismatch,
    /// Channels differ in sample rate.
    SampleRateMismatch,
    /// The configuration of the SAR driver is missing.
    NoSarConfiguration,
    /// The ASIO host cannot be reached.
    NoAsioHost,
    /// The selected ASIO driver is not installed.
    NoAsioDriver,
    /// The build has no ASIO support.
    AsioNotBuilt,
    /// A network port is taken.
    PortInUse,
    /// None of the known causes.
    Unknown,
}

/// The first known cause whose mark stands in the text of an error.
pub open spec fn cause(raw: Seq<char>) -> ErrorCause {
    if contains_text(raw, "0x8889000A"@) {
        ErrorCause::DeviceInUse
    } else if contains_text(raw, "no default input device"@) {
        ErrorCause::NoInputDevice
    } else if contains_text(raw, "no default output device"@) {
        ErrorCause::NoOutputDevice
    } else if contains_text(raw, "Resampling isn't implemented"@) {
        ErrorCause::FormatMismatch
    } else if contains_text(raw, "device may not support WASAPI loopback"@) {
        ErrorCause::NoLoopback
    } else if contains_text(raw, "must match exactly"@) {
        ErrorCause::ChannelMismatch
    } else if contains_text(raw, "must share one sample rate"@) {
        ErrorCause::SampleRateMismatch
    } else if contains_text(raw, "couldn't find SAR's default.json"@) {
        ErrorCause::NoSarConfiguration
    } else if contains_text(raw, "ASIO host unavailable"@) {
        ErrorCause::NoAsioHost
    } else if contains_text(raw, "ASIO driver"@) && contains_text(raw, "not found"@) {
        ErrorCause::NoAsioDriver
    } else if contains_text(raw, "not compiled in"@) {
        ErrorCause::AsioNotBuilt
    } else if contains_text(raw, "Address already in use"@) || contains_text(
        raw,
        "os error 10048"@,
    ) {
        ErrorCause::PortInUse
    } else {
        ErrorCause::Unknown
    }
}

pub const DEVICE_IN_USE: &'static str = "That device is already in use by another app. Close other audio apps and try again.";

pub const NO_INPUT_DEVICE: &'static str = "No microphone/input device was found. Check that it is connected and enabled in Windows Sound settings.";

pub const NO_OUTPUT_DEVICE: &'static str = "No speaker/output device was found. Check that it is connected and enabled in Windows Sound settings.";

pub const FORMAT_MISMATCH: &'static str = "Format mismatch between the incoming stream and the output device: ";

pub const NO_LOOPBACK: &'static str = "That device does not support WASAPI loopback capture: ";

pub const CHANNEL_MISMATCH: &'static str = "Channel/device count mismatch: ";

pub const SAMPLE_RATE_MISMATCH: &'static str = "Sample-rate mismatch across channels: ";

pub const NO_SAR_CONFIGURATION: &'static str = "Could not find SAR's configuration file. Configure SAR through its own interface at least once, then try again.";

pub const NO_ASIO_HOST: &'static str = "ASIO is unavailable. Build the application with --features asio and confirm CPAL_ASIO_DIR is configured.";

pub const NO_ASIO_DRIVER: &'static str = "The selected ASIO driver was not found. Confirm the console driver is installed: ";

pub const ASIO_NOT_BUILT: &'static str = "ASIO is not enabled in this build. Rebuild with --features asio after configuring CPAL_ASIO_DIR.";

pub const PORT_IN_USE: &'static str = "The requested network port is already in use. Stop the old OpenAudio process or choose another port.";

/// The explanation of a cause.  Some explanations end with the error itself.
pub open spec fn explanation(cause: ErrorCause, raw: Seq<char>) -> Seq<char> {
    match cause {
        ErrorCause::DeviceInUse => DEVICE_IN_USE@,
        ErrorCause::NoInputDevice => NO_INPUT_DEVICE@,
        ErrorCause::NoOutputDevice => NO_OUTPUT_DEVICE@,
        ErrorCause::FormatMismatch => FORMAT_MISMATCH@ + raw,
        ErrorCause::NoLoopback => NO_LOOPBACK@ + raw,
        ErrorCause::ChannelMismatch => CHANNEL_MISMATCH@ + raw,
        ErrorCause::SampleRateMismatch => SAMPLE_RATE_MISMATCH@ + raw,
        ErrorCause::NoSarConfiguration => NO_SAR_CONFIGURATION@,
        ErrorCause::NoAsioHost => NO_ASIO_HOST@,
        ErrorCause::NoAsioDriver => NO_ASIO_DRIVER@ + raw,
        ErrorCause::AsioNotBuilt => ASIO_NOT_BUILT@,
        ErrorCause::PortInUse => PORT_IN_USE@,
        ErrorCause::Unknown => raw,
    }
}

/// The text that the user sees for an error.
pub open spec fn friendly(raw: Seq<char>) -> Seq<char> {
    explanation(cause(raw), raw)
}

/// Finds the cause of an error.
pub fn error_cause(raw: &str) -> (found: ErrorCause)
    ensures
        found == cause(raw@),
{
    let chars = chars_of(raw);
    if chars_contain(&chars, "0x8889000A") {
        ErrorCause::DeviceInUse
    } else if chars_contain(&chars, "no default input device") {
        ErrorCause::NoInputDevice
    } else if chars_contain(&chars, "no default output device") {
        ErrorCause::NoOutputDevice
    } else if chars_contain(&chars, "Resampling isn't implemented") {
        ErrorCause::FormatMismatch
    } else if chars_contain(&chars, "device may not support WASAPI loopback") {
        ErrorCause::NoLoopback
    } else if chars_contain(&chars, "must match exactly") {
        ErrorCause::ChannelMismatch
    } else if chars_contain(&chars, "must share one sample rate") {
        ErrorCause::SampleRateMismatch
    } else if chars_contain(&chars, "couldn't find SAR's default.json") {
        ErrorCause::NoSarConfiguration
    } else if chars_contain(&chars, "ASIO host unavailable") {
        ErrorCause::NoAsioHost
    } else if chars_contain(&chars, "ASIO driver") && chars_contain(&chars, "not found") {
        ErrorCause::NoAsioDriver
    } else if chars_contain(&chars, "not compiled in") {
        ErrorCause::AsioNotBuilt
    } else if chars_contain(&chars, "Address already in use") || chars_contain(
        &chars,
        "os error 10048",
    ) {
        ErrorCause::PortInUse
    } else {
        ErrorCause::Unknown
    }
}

/// Explains an error in terms that the user can act on; an error of unknown
/// cause is handed back as it is.
pub fn friendly_error(raw: &str) -> (text: String)
    ensures
        text@ == friendly(raw@),
{
    match error_cause(raw) {
        ErrorCause::DeviceInUse => DEVICE_IN_USE.to_string(),
        ErrorCause::NoInputDevice => NO_INPUT_DEVICE.to_string(),
        ErrorCause::NoOutputDevice => NO_OUTPUT_DEVICE.to_string(),
        ErrorCause::FormatMismatch => join2(FORMAT_MISMATCH, raw),
        ErrorCause::NoLoopback => join2(NO_LOOPBACK, raw),
        ErrorCause::ChannelMismatch => join2(CHANNEL_MISMATCH, raw),
        ErrorCause::SampleRateMismatch => join2(SAMPLE_RATE_MISMATCH, raw),
        ErrorCause::NoSarConfiguration => NO_SAR_CONFIGURATION.to_string(),
        ErrorCause::NoAsioHost => NO_ASIO_HOST.to_string(),
        ErrorCause::NoAsioDriver => join2(NO_ASIO_DRIVER, raw),
        ErrorCause::AsioNotBuilt => ASIO_NOT_BUILT.to_string(),
        ErrorCause::PortInUse => PORT_IN_USE.to_string(),
        ErrorCause::Unknown => raw.to_string(),
    }
}

/// The name of the system audio interface, by operating system.
pub open spec fn api_name(os: Seq<char>) -> Seq<char> {
    if os == "windows"@ {
        "WASAPI"@
    } else if os == "macos"@ {
        "CoreAudio"@
    } else {
        "Hardware"@
    }
}

/// The name under which sessions on ordinary audio devices are shown.  `os` is
/// the name of the operating system that the program was built for.
pub fn hardware_api_name(os: &str) -> (name: &'static str)
    ensures
        name@ == api_name(os@),
{
    if same_text(os, "windows") {
        "WASAPI"
    } else if same_text(os, "macos") {
        "CoreAudio"
    } else {
        "Hardware"
    }
}

/// An error that carries none of the known marks reaches the user unchanged.
pub proof fn lemma_unknown_error_is_kept(raw: Seq<char>)
    requires
        cause(raw) == ErrorCause::Unknown,
    ensures
        friendly(raw) == raw,
{
}

/// An explanation that leaves out what happened is one of a known cause; for a
/// cause that has details the error itself is shown behind the explanation.
pub proof fn lemma_details_are_kept(raw: Seq<char>)
    ensures
        cause(raw) == ErrorCause::FormatMismatch || cause(raw) == ErrorCause::NoLoopback || cause(raw)
            == ErrorCause::ChannelMismatch || cause(raw) == ErrorCause::SampleRateMismatch || cause(
            raw,
        ) == ErrorCause::NoAsioDriver || cause(raw) == ErrorCause::Unknown ==> contains_text(
            friendly(raw),
            raw,
        ),
{
    let none = Seq::<char>::empty();
    assert(none + raw + none =~= raw);
    crate::text::lemma_what_is_found(none, raw, none);
    assert(FORMAT_MISMATCH@ + raw + none =~= FORMAT_MISMATCH@ + raw);
    crate::text::lemma_what_is_found(FORMAT_MISMATCH@, raw, none);
    assert(NO_LOOPBACK@ + raw + none =~= NO_LOOPBACK@ + raw);
    crate::text::lemma_what_is_found(NO_LOOPBACK@, raw, none);
    assert(CHANNEL_MISMATCH@ + raw + none =~= CHANNEL_MISMATCH@ + raw);
    crate::text::lemma_what_is_found(CHANNEL_MISMATCH@, raw, none);
    assert(SAMPLE_RATE_MISMATCH@ + raw + none =~= SAMPLE_RATE_MISMATCH@ + raw);
    crate::text::lemma_what_is_found(SAMPLE_RATE_MISMATCH@, raw, none);
    assert(NO_ASIO_DRIVER@ + raw + none =~= NO_ASIO_DRIVER@ + raw);
    crate::text::lemma_what_is_found(NO_ASIO_DRIVER@, raw, none);
}

/// Wherever the mark of a device that is in use stands in an error, the error is
/// explained by it; an error of unknown cause has none of the marks.
pub proof fn lemma_marks_are_recognized(front: Seq<char>, back: Seq<char>, raw: Seq<char>)
    ensures
        cause(front + "0x8889000A"@ + back) == ErrorCause::DeviceInUse,
        cause(front + "Address already in use"@ + back) != ErrorCause::Unknown,
        cause(front + "os error 10048"@ + back) != ErrorCause::Unknown,
        cause(front + "ASIO host unavailable"@ + back) != ErrorCause::Unknown,
        cause(front + "not compiled in"@ + back) != ErrorCause::Unknown,
        cause(raw) == ErrorCause::NoAsioDriver ==> contains_text(raw, "ASIO driver"@)
            && contains_text(raw, "not found"@),
        cause(raw) == ErrorCause::PortInUse ==> contains_text(raw, "Address already in use"@)
            || contains_text(raw, "os error 10048"@),
{
    crate::text::lemma_what_is_found(front, "0x8889000A"@, back);
    crate::text::lemma_what_is_found(front, "Address already in use"@, back);
    crate::text::lemma_what_is_found(front, "os error 10048"@, back);
    crate::text::lemma_what_is_found(front, "ASIO host unavailable"@, back);
    crate::text::lemma_what_is_found(front, "not compiled in"@, back);
}

/// What is recognized first where an error has several marks.
pub open spec fn precedence(cause: ErrorCause) -> int {
    match cause {
        ErrorCause::DeviceInUse => 1,
        ErrorCause::NoInputDevice => 2,
        ErrorCause::NoOutputDevice => 3,
        ErrorCause::FormatMismatch => 4,
        ErrorCause::NoLoopback => 5,
        ErrorCause::ChannelMismatch => 6,
        ErrorCause::SampleRateMismatch => 7,
        ErrorCause::NoSarConfiguration => 8,
        ErrorCause::NoAsioHost => 9,
        ErrorCause::NoAsioDriver => 10,
        ErrorCause::AsioNotBuilt => 11,
        ErrorCause::PortInUse => 12,
        ErrorCause::Unknown => 13,
    }
}

/// The cause of an error is one whose mark stands in it, and of several the one
/// that is recognized first.
pub proof fn lemma_causes_have_marks(raw: Seq<char>)
    ensures
        contains_text(raw, "0x8889000A"@) ==> precedence(cause(raw)) <= 1,
        contains_text(raw, "no default input device"@) ==> precedence(cause(raw)) <= 2,
        contains_text(raw, "no default output device"@) ==> precedence(cause(raw)) <= 3,
        contains_text(raw, "Resampling isn't implemented"@) ==> precedence(cause(raw)) <= 4,
        contains_text(raw, "device may not support WASAPI loopback"@) ==> precedence(cause(raw))
            <= 5,
        contains_text(raw, "must match exactly"@) ==> precedence(cause(raw)) <= 6,
        contains_text(raw, "must share one sample rate"@) ==> precedence(cause(raw)) <= 7,
        contains_text(raw, "couldn't find SAR's default.json"@) ==> precedence(cause(raw)) <= 8,
        contains_text(raw, "ASIO host unavailable"@) ==> precedence(cause(raw)) <= 9,
        contains_text(raw, "ASIO driver"@) && contains_text(raw, "not found"@) ==> precedence(
            cause(raw),
        ) <= 10,
        contains_text(raw, "not compiled in"@) ==> precedence(cause(raw)) <= 11,
        contains_text(raw, "Address already in use"@) || contains_text(raw, "os error 10048"@)
            ==> precedence(cause(raw)) <= 12,
        cause(raw) == ErrorCause::DeviceInUse ==> contains_text(raw, "0x8889000A"@),
        cause(raw) == ErrorCause::NoInputDevice ==> contains_text(raw, "no default input device"@),
        cause(raw) == ErrorCause::NoOutputDevice ==> contains_text(
            raw,
            "no default output device"@,
        ),
        cause(raw) == ErrorCause::FormatMismatch ==> contains_text(
            raw,
            "Resampling isn't implemented"@,
        ),
        cause(raw) == ErrorCause::NoLoopback ==> contains_text(
            raw,
            "device may not support WASAPI loopback"@,
        ),
        cause(raw) == ErrorCause::ChannelMismatch ==> contains_text(raw, "must match exactly"@),
        cause(raw) == ErrorCause::SampleRateMismatch ==> contains_text(
            raw,
            "must share one sample rate"@,
        ),
        cause(raw) == ErrorCause::NoSarConfiguration ==> contains_text(
            raw,
            "couldn't find SAR's default.json"@,
        ),
        cause(raw) == ErrorCause::NoAsioHost ==> contains_text(raw, "ASIO host unavailable"@),
        cause(raw) == ErrorCause::AsioNotBuilt ==> contains_text(raw, "not compiled in"@),
{
}

/// What is shown for a cause that tells enough does not depend on the error, and
/// names what is wrong; for the others it begins with what is wrong.
pub proof fn lemma_explanations(raw: Seq<char>)
    ensures
        explanation(ErrorCause::DeviceInUse, raw)
            == "That device is already in use by another app. Close other audio apps and try again."@,
        explanation(ErrorCause::NoInputDevice, raw)
            == "No microphone/input device was found. Check that it is connected and enabled in Windows Sound settings."@,
        explanation(ErrorCause::NoOutputDevice, raw)
            == "No speaker/output device was found. Check that it is connected and enabled in Windows Sound settings."@,
        explanation(ErrorCause::NoSarConfiguration, raw)
            == "Could not find SAR's configuration file. Configure SAR through its own interface at least once, then try again."@,
        explanation(ErrorCause::NoAsioHost, raw)
            == "ASIO is unavailable. Build the application with --features asio and confirm CPAL_ASIO_DIR is configured."@,
        explanation(ErrorCause::AsioNotBuilt, raw)
            == "ASIO is not enabled in this build. Rebuild with --features asio after configuring CPAL_ASIO_DIR."@,
        explanation(ErrorCause::PortInUse, raw)
            == "The requested network port is already in use. Stop the old OpenAudio process or choose another port."@,
        crate::text::starts_with_text(
            explanation(ErrorCause::FormatMismatch, raw),
            "Format mismatch between the incoming stream and the output device: "@,
        ),
        crate::text::starts_with_text(
            explanation(ErrorCause::NoLoopback, raw),
            "That device does not support WASAPI loopback capture: "@,
        ),
        crate::text::starts_with_text(
            explanation(ErrorCause::ChannelMismatch, raw),
            "Channel/device count mismatch: "@,
        ),
        crate::text::starts_with_text(
            explanation(ErrorCause::SampleRateMismatch, raw),
            "Sample-rate mismatch across channels: "@,
        ),
        crate::text::starts_with_text(
            explanation(ErrorCause::NoAsioDriver, raw),
            "The selected ASIO driver was not found. Confirm the console driver is installed: "@,
        ),
        explanation(ErrorCause::Unknown, raw) == raw,
        friendly(raw) == explanation(cause(raw), raw),
{
    let none = Seq::<char>::empty();
    crate::text::lemma_what_is_found(none, FORMAT_MISMATCH@, raw);
    crate::text::lemma_what_is_found(none, NO_LOOPBACK@, raw);
    crate::text::lemma_what_is_found(none, CHANNEL_MISMATCH@, raw);
    crate::text::lemma_what_is_found(none, SAMPLE_RATE_MISMATCH@, raw);
    crate::text::lemma_what_is_found(none, NO_ASIO_DRIVER@, raw);
}

/// Only Windows and macOS have a name for their audio interface.
pub proof fn lemma_api_names(os: Seq<char>)
    ensures
        api_name("windows"@) == "WASAPI"@,
        api_name("macos"@) == "CoreAudio"@,
        os != "windows"@ && os != "macos"@ ==> api_name(os) == "Hardware"@,
{
    reveal_strlit("windows");
    reveal_strlit("macos");
    assert("windows"@.len() != "macos"@.len());
}

} // verus!
