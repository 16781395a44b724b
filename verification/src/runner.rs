//! The choices and checks of the host runner that drives compiled fixtures:
//! which fixture and mode a command line names, and whether a call into a
//! fixture succeeded.

use vstd::prelude::*;

verus! {

/// The fixtures the host runner knows how to drive.
#[derive(Clone, Copy, Debug, PartialEq, Eq, Structural)]
pub enum FixtureKind {
    Plmpeg,
    Binjgb,
    LibjpegTurboMjpeg,
    H264Mp4,
    Cgltf,
}

/// How the host runner feeds its input to a fixture.
#[derive(Clone, Copy, Debug, PartialEq, Eq, Structural)]
pub enum RunnerMode {
    Baseline,
    Stream,
}

/// Why the host runner stopped.
#[derive(Debug)]
pub enum RunnerError {
    /// The command line names a fixture that is not known.
    UnsupportedFixture(String),
    /// The command line names a mode that is not known.
    UnsupportedMode(String),
    /// A fixture does not export what the runner needs.
    NotFound(String),
    /// A call into a fixture reported a failure.
    Failed(String),
}

/// Whether `a` and `b` hold the same text.
fn same_text(a: &str, b: &str) -> (same: bool)
    ensures
        same == (a@ == b@),
{
    a.to_owned() == b.to_owned()
}

/// The fixture that `name` selects, if any.
pub open spec fn fixture_named(name: Seq<char>) -> Option<FixtureKind> {
    if name == "plmpeg"@ {
        Some(FixtureKind::Plmpeg)
    } else if name == "binjgb"@ || name == "gbc"@ {
        Some(FixtureKind::Binjgb)
    } else if name == "libjpeg-turbo-mjpeg"@ || name == "libjpegturbo-mjpeg"@ || name == "mjpeg"@ {
        Some(FixtureKind::LibjpegTurboMjpeg)
    } else if name == "h264mp4"@ {
        Some(FixtureKind::H264Mp4)
    } else if name == "cgltf"@ {
        Some(FixtureKind::Cgltf)
    } else {
        None
    }
}

/// The mode that `name` selects, if any.
pub open spec fn mode_named(name: Seq<char>) -> Option<RunnerMode> {
    if name == "baseline"@ {
        Some(RunnerMode::Baseline)
    } else if name == "stream"@ {
        Some(RunnerMode::Stream)
    } else {
        None
    }
}

/// Reads the fixture that a command line names.
pub fn parse_fixture(fixture: &str) -> (kind: Result<FixtureKind, RunnerError>)
    ensures
        match fixture_named(fixture@) {
            Some(expected) => kind matches Ok(found) && found == expected,
            None => kind matches Err(RunnerError::UnsupportedFixture(text)) && text@ == fixture@,
        },
{
    if same_text(fixture, "plmpeg") {
        Ok(FixtureKind::Plmpeg)
    } else if same_text(fixture, "binjgb") || same_text(fixture, "gbc") {
        Ok(FixtureKind::Binjgb)
    } else if same_text(fixture, "libjpeg-turbo-mjpeg") || same_text(fixture, "libjpegturbo-mjpeg")
        || same_text(fixture, "mjpeg") {
        Ok(FixtureKind::LibjpegTurboMjpeg)
    } else if same_text(fixture, "h264mp4") {
        Ok(FixtureKind::H264Mp4)
    } else if same_text(fixture, "cgltf") {
        Ok(FixtureKind::Cgltf)
    } else {
        Err(RunnerError::UnsupportedFixture(fixture.to_owned()))
    }
}

/// Reads the mode that a command line names.
pub fn parse_mode(mode: &str) -> (kind: Result<RunnerMode, RunnerError>)
    ensures
        match mode_named(mode@) {
            Some(expected) => kind matches Ok(found) && found == expected,
            None => kind matches Err(RunnerError::UnsupportedMode(text)) && text@ == mode@,
        },
{
    if same_text(mode, "baseline") {
        Ok(RunnerMode::Baseline)
    } else if same_text(mode, "stream") {
        Ok(RunnerMode::Stream)
    } else {
        Err(RunnerError::UnsupportedMode(mode.to_owned()))
    }
}

/// Returns the export a fixture was asked for, or an error with `message`
/// when it does not have it.
pub fn required_func<'func, T>(value: Option<&'func T>, message: &str) -> (found: Result<&'func T, RunnerError>)
    ensures
        match value {
            Some(inner) => found matches Ok(result) && result == inner,
            None => found matches Err(RunnerError::NotFound(text)) && text@ == message@,
        },
{
    match value {
        Some(inner) => Ok(inner),
        None => Err(RunnerError::NotFound(message.to_owned())),
    }
}

/// Checks the status a fixture call returned: one means success, anything
/// else fails with `message`.
pub fn ensure_success(value: i32, message: &str) -> (checked: Result<(), RunnerError>)
    ensures
        value == 1 ==> checked is Ok,
        value != 1 ==> (checked matches Err(RunnerError::Failed(text)) && text@ == message@),
{
    if value == 1 {
        return Ok(());
    }
    Err(RunnerError::Failed(message.to_owned()))
}

} // verus!
