//! The error produced by the driver surface.
//!
//! The driver is *handle-agnostic*: its reads and writes take any file, a pipe's
//! included, so a pipe's completions reach this surface. That is why the four
//! pipe conditions are **named** here rather than demoted to [`Error::Other`]: a
//! caller can learn that its pipe broke.

use vstd::prelude::*;
use vstd::string::StringExecFns;

verus! {

/// An error of the ring itself.
#[derive(Debug, Clone, Copy, PartialEq, Eq, Structural)]
pub enum RingError {
    /// The submission queue has no room. The remedy is to submit what is queued.
    QueueFull,
    /// The host's ring version is below what was asked for.
    UnsupportedVersion,
    /// The host's ring lacks a feature flag.
    UnsupportedFeature,
    /// The host does not implement an operation.
    UnsupportedOp,
}

/// A buffer that does not satisfy its contract.
#[derive(Debug, Clone, Copy, PartialEq, Eq, Structural)]
pub enum BufError {
    /// The operation names more bytes than the buffer can give.
    TooSmall {
        /// How many bytes the operation names.
        requested: u64,
        /// How many bytes the buffer offers.
        available: u64,
    },
}

/// An operation builder was not given a field it requires.
#[derive(Debug, Clone, Copy)]
pub struct MissingField {
    /// The field's name.
    pub field: &'static str,
}

/// What a platform result code means to this crate.
#[derive(Debug, Clone, Copy, PartialEq, Eq, Structural)]
pub enum Condition {
    /// The submission queue is full.
    QueueFull,
    /// All pipe instances are busy.
    PipeBusy,
    /// The pipe's peer closed its end.
    PipeBroken,
    /// The pipe has no peer connected.
    PipeNoPeer,
    /// The pipe is listening and has not yet been connected to.
    PipeListening,
    /// Anything else, with its result code.
    Other(i32),
}

/// The ring's "submission queue full", `0x80460002`.
pub const SUBMISSION_QUEUE_FULL: i32 = -0x7FB9_FFFE;

/// "All pipe instances are busy", `0x800700E7`.
pub const PIPE_BUSY: i32 = -0x7FF8_FF19;

/// "The pipe has been ended", `0x8007006D`.
pub const BROKEN_PIPE: i32 = -0x7FF8_FF93;

/// "The pipe is being closed", `0x800700E8`.
pub const NO_DATA: i32 = -0x7FF8_FF18;

/// "No process is on the other end of the pipe", `0x800700E9`.
pub const PIPE_NOT_CONNECTED: i32 = -0x7FF8_FF17;

/// "Waiting for a process to open the other end of the pipe", `0x80070218`.
pub const PIPE_LISTENING: i32 = -0x7FF8_FDE8;

impl Condition {
    /// What a result code means.
    pub open spec fn spec_of_code(code: i32) -> Condition {
        if code == SUBMISSION_QUEUE_FULL {
            Condition::QueueFull
        } else if code == PIPE_BUSY {
            Condition::PipeBusy
        } else if code == BROKEN_PIPE || code == NO_DATA {
            Condition::PipeBroken
        } else if code == PIPE_NOT_CONNECTED {
            Condition::PipeNoPeer
        } else if code == PIPE_LISTENING {
            Condition::PipeListening
        } else {
            Condition::Other(code)
        }
    }

    /// Returns what a result code means.
    pub fn of_code(code: i32) -> (condition: Condition)
        ensures
            condition == Condition::spec_of_code(code),
    {
        match code {
            SUBMISSION_QUEUE_FULL => Condition::QueueFull,
            PIPE_BUSY => Condition::PipeBusy,
            BROKEN_PIPE => Condition::PipeBroken,
            NO_DATA => Condition::PipeBroken,
            PIPE_NOT_CONNECTED => Condition::PipeNoPeer,
            PIPE_LISTENING => Condition::PipeListening,
            other => Condition::Other(other),
        }
    }
}

/// An error produced by the driver surface, including registered I/O.
#[derive(Debug, Clone)]
#[non_exhaustive]
pub enum Error {
    /// The ring itself failed.
    Ring(RingError),
    /// A buffer did not satisfy its contract.
    Buf(BufError),
    /// The runtime is shutting down and will not accept new work.
    ShuttingDown,
    /// The operation was abandoned because the runtime shut down under it.
    AbandonedAtShutdown,
    /// Shutdown could not complete because operations remain outstanding.
    ShutdownStalled {
        /// How many operations were still outstanding.
        outstanding: usize,
    },
    /// An operation was submitted without a field it requires.
    MissingField {
        /// The field's name.
        field: &'static str,
    },
    /// The driver is already tracking as many operations as it can.
    ///
    /// The remedy is to **complete** outstanding operations. Submitting more
    /// cannot help, which is what distinguishes this from
    /// [`RingError::QueueFull`], whose remedy is the opposite.
    TooManyOperations,
    /// No buffer is registered at the given index.
    InvalidRegisteredIndex {
        /// The index that was named.
        index: u32,
    },
    /// A range fell outside the registered buffer it named.
    RegisteredRangeOutOfBounds {
        /// The registered buffer's index.
        index: u32,
        /// Offset requested.
        offset: u64,
        /// Length requested.
        length: u64,
        /// The buffer's extent.
        extent: u64,
    },
    /// The registered buffer is checked out by an operation in flight.
    BufferCheckedOut {
        /// The registered buffer's index.
        index: u32,
    },
    /// The registration was replaced before this operation could use it.
    RegistrationSuperseded,
    /// The registration has not completed yet.
    RegistrationPending,
    /// All pipe instances are busy.
    PipeBusy,
    /// The pipe's peer closed its end.
    PipeBroken,
    /// The pipe has no peer connected.
    PipeNoPeer,
    /// The pipe is listening and has not yet been connected to.
    PipeListening,
    /// A platform error this type does not name.
    Other(PlatformError),
}

/// A platform error, with its text as it stood when the error was raised.
///
/// The text can come from error information that the platform keeps for the thread
/// until somebody asks, so it is not asked for again.
#[derive(Debug, Clone)]
pub struct PlatformError {
    /// The platform's result code.
    pub code: i32,
    /// What the platform had to say of it.
    pub text: String,
}

/// The error that an error came from.
#[derive(Debug, Clone, Copy)]
pub enum Source {
    /// The ring's own error.
    Ring(RingError),
    /// The buffer's own error.
    Buf(BufError),
    /// The platform's result code.
    Platform(i32),
}

impl Error {
    /// Whether this error stands for a platform condition: by name, or with the code
    /// and a text that tells it.
    pub open spec fn stands_for(self, condition: Condition) -> bool {
        match condition {
            Condition::QueueFull => self == Error::Ring(RingError::QueueFull),
            Condition::PipeBusy => self == Error::PipeBusy,
            Condition::PipeBroken => self == Error::PipeBroken,
            Condition::PipeNoPeer => self == Error::PipeNoPeer,
            Condition::PipeListening => self == Error::PipeListening,
            Condition::Other(code) => self matches Error::Other(platform) && platform.code == code
                && platform.wf(),
        }
    }

    /// Returns the error that stands for a platform condition.
    pub fn of_condition(condition: Condition) -> (error: Error)
        ensures
            error.stands_for(condition),
    {
        match condition {
            Condition::QueueFull => Error::Ring(RingError::QueueFull),
            Condition::PipeBusy => Error::PipeBusy,
            Condition::PipeBroken => Error::PipeBroken,
            Condition::PipeNoPeer => Error::PipeNoPeer,
            Condition::PipeListening => Error::PipeListening,
            Condition::Other(code) => Error::Other(PlatformError::of_code(code)),
        }
    }

    /// Returns the error that a result code stands for.
    pub fn of_code(code: i32) -> (error: Error)
        ensures
            error.stands_for(Condition::spec_of_code(code)),
    {
        Error::of_condition(Condition::of_code(code))
    }
}

impl PlatformError {
    /// The text tells the code.
    pub open spec fn wf(self) -> bool {
        tells_code(self.text@, self.code)
    }

    /// Takes a result code over, with what the platform has to say of it now.
    pub fn of_code(code: i32) -> (error: PlatformError)
        ensures
            error.code == code,
            error.wf(),
    {
        PlatformError { code, text: platform_text(code) }
    }
}

impl From<RingError> for Error {
    fn from(value: RingError) -> (error: Error) {
        Error::Ring(value)
    }
}

impl vstd::std_specs::convert::FromSpecImpl<RingError> for Error {
    open spec fn obeys_from_spec() -> bool {
        true
    }

    open spec fn from_spec(value: RingError) -> Error {
        Error::Ring(value)
    }
}

impl From<BufError> for Error {
    fn from(value: BufError) -> (error: Error) {
        Error::Buf(value)
    }
}

impl vstd::std_specs::convert::FromSpecImpl<BufError> for Error {
    open spec fn obeys_from_spec() -> bool {
        true
    }

    open spec fn from_spec(value: BufError) -> Error {
        Error::Buf(value)
    }
}

impl From<MissingField> for Error {
    /// Widens a builder's missing-field report into this surface's error.
    fn from(value: MissingField) -> (error: Error) {
        let MissingField { field } = value;
        Error::MissingField { field }
    }
}

impl vstd::std_specs::convert::FromSpecImpl<MissingField> for Error {
    open spec fn obeys_from_spec() -> bool {
        true
    }

    open spec fn from_spec(value: MissingField) -> Error {
        Error::MissingField { field: value.field }
    }
}

/// The character for a decimal digit.
pub open spec fn digit(d: int) -> char {
    (48 + d) as char
}

/// The decimal representation of a number.
pub open spec fn decimal(n: nat) -> Seq<char>
    decreases n,
{
    if n < 10 {
        seq![digit(n as int)]
    } else {
        decimal(n / 10).push(digit((n % 10) as int))
    }
}

/// Renders a number in decimal.
fn decimal_of(n: u64) -> (text: String)
    ensures
        text@ == decimal(n as nat),
    decreases n,
{
    let mut text: String = if n < 10 {
        String::new()
    } else {
        decimal_of(n / 10)
    };
    let last: &str = match n % 10 {
        0 => "0",
        1 => "1",
        2 => "2",
        3 => "3",
        4 => "4",
        5 => "5",
        6 => "6",
        7 => "7",
        8 => "8",
        _ => "9",
    };
    proof {
        reveal_strlit("0");
        reveal_strlit("1");
        reveal_strlit("2");
        reveal_strlit("3");
        reveal_strlit("4");
        reveal_strlit("5");
        reveal_strlit("6");
        reveal_strlit("7");
        reveal_strlit("8");
        reveal_strlit("9");
        assert(last@ =~= seq![digit((n % 10) as int)]);
    }
    text.append(last);
    assert(text@ =~= decimal(n as nat));
    text
}

/// The character for an upper-case hexadecimal digit.
pub open spec fn hex_digit(d: int) -> char {
    if d < 10 {
        (48 + d) as char
    } else {
        (55 + d) as char
    }
}

/// The last `width` hexadecimal digits of a number.
pub open spec fn hex_digits(n: nat, width: nat) -> Seq<char>
    decreases width,
{
    if width == 0 {
        Seq::empty()
    } else {
        hex_digits(n / 16, (width - 1) as nat).push(hex_digit((n % 16) as int))
    }
}

/// The result code that the platform's error type keeps for an error without one,
/// and shows as zero.
pub const EMPTY_CODE: i32 = 0x535F_4F4B;

/// A result code as the platform writes it: its 32 bits in hexadecimal.
pub open spec fn code_text(code: i32) -> Seq<char> {
    let bits = if code < 0 {
        code + 0x1_0000_0000
    } else {
        code as int
    };
    "0x"@ + hex_digits(bits as nat, 8)
}

/// Whether a text tells a result code: it is the code, or ends with the code in
/// parentheses.
pub open spec fn tells_code(text: Seq<char>, code: i32) -> bool {
    let shown = code_text(
        if code == EMPTY_CODE {
            0
        } else {
            code
        },
    );
    text == shown || (" ("@ + shown + ")"@).is_suffix_of(text)
}

/// What a result code means as a result: `HRESULT::ok` of `windows-result`, with what
/// its error displays.
///
/// The contract claims that a code succeeds exactly when it is not negative, and of a
/// failure's text what it claims of [`platform_text`]'s.
#[verifier::external_body]
pub(crate) fn code_result(code: i32) -> (result: Result<(), PlatformError>)
    ensures
        ended_as(code, result),
{
    match windows_result::HRESULT(code).ok() {
        Ok(()) => Ok(()),
        Err(error) => Err(PlatformError { code, text: error.to_string() }),
    }
}

/// Whether a result is what a result code means.
pub open spec fn ended_as(code: i32, result: Result<(), PlatformError>) -> bool {
    if code >= 0 {
        result == Ok::<(), PlatformError>(())
    } else {
        result matches Err(error) && error.code == code && error.wf()
    }
}

/// The platform's text for a result code: what `windows_result::Error`, made from the
/// code by `From<HRESULT>`, displays.
///
/// The contract claims that the code is displayed alone, or in parentheses behind a
/// message. The message comes from the error information that is pending for the
/// thread, and else from the host's tables, so nothing is stated of it.
#[verifier::external_body]
fn platform_text(code: i32) -> (text: String)
    ensures
        tells_code(text@, code),
{
    windows_result::Error::from(windows_result::HRESULT(code)).to_string()
}

impl RingError {
    /// What [`RingError::message`] renders.
    pub open spec fn spec_message(self) -> Seq<char> {
        match self {
            RingError::QueueFull => "submit the queued entries: the submission queue is full"@,
            RingError::UnsupportedVersion => "unsupported ring version"@,
            RingError::UnsupportedFeature => "unsupported ring feature"@,
            RingError::UnsupportedOp => "unsupported ring operation"@,
        }
    }

    /// Renders the error for a reader.
    pub fn message(&self) -> (text: String)
        ensures
            text@ == self.spec_message(),
    {
        match self {
            RingError::QueueFull =>
                "submit the queued entries: the submission queue is full".to_owned(),
            RingError::UnsupportedVersion => "unsupported ring version".to_owned(),
            RingError::UnsupportedFeature => "unsupported ring feature".to_owned(),
            RingError::UnsupportedOp => "unsupported ring operation".to_owned(),
        }
    }
}

impl BufError {
    /// What [`BufError::message`] renders.
    pub open spec fn spec_message(self) -> Seq<char> {
        match self {
            BufError::TooSmall { requested, available } => "buffer of "@ + decimal(available as nat)
                + " byte(s) is too small for "@ + decimal(requested as nat),
        }
    }

    /// Renders the error for a reader.
    pub fn message(&self) -> (text: String)
        ensures
            text@ == self.spec_message(),
    {
        match self {
            BufError::TooSmall { requested, available } => {
                let mut text = "buffer of ".to_owned();
                text.append(decimal_of(*available).as_str());
                text.append(" byte(s) is too small for ");
                text.append(decimal_of(*requested).as_str());
                text
            },
        }
    }
}

impl Error {
    /// What [`Error::message`] renders.
    pub open spec fn spec_message(self) -> Seq<char> {
        match self {
            Error::Ring(error) => error.spec_message(),
            Error::Buf(error) => error.spec_message(),
            Error::ShuttingDown => "the driver is shutting down"@,
            Error::AbandonedAtShutdown =>
                "the operation was abandoned at shutdown before the platform ran it"@,
            Error::ShutdownStalled { outstanding } => "shutdown is still draining, with "@
                + decimal(outstanding as nat) + " operation(s) outstanding"@,
            Error::MissingField { field } => "required field `"@ + field@ + "` was not set"@,
            Error::TooManyOperations =>
                "the driver is tracking as many operations as it can; complete outstanding operations rather than submitting more"@,
            Error::InvalidRegisteredIndex { index } => "registered index "@ + decimal(index as nat)
                + " does not refer to a registration"@,
            Error::RegisteredRangeOutOfBounds { index, offset, length, extent } =>
                "registered buffer "@ + decimal(index as nat) + " range "@ + decimal(offset as nat)
                    + ".."@ + decimal(saturating_sum(offset, length)) + " exceeds its extent of "@
                    + decimal(extent as nat),
            Error::BufferCheckedOut { index } => "registered buffer "@ + decimal(index as nat)
                + " is already checked out"@,
            Error::RegistrationSuperseded =>
                "the registration this collection came from has been superseded"@,
            Error::RegistrationPending =>
                "a registration request is in flight, so no buffer may be checked out"@,
            Error::PipeBusy => "every pipe instance is already serving a client"@,
            Error::PipeBroken => "the peer closed its end of the pipe"@,
            Error::PipeNoPeer => "the pipe has no peer connected"@,
            Error::PipeListening => "the pipe instance is still waiting for a client"@,
            Error::Other(platform) => platform.text@,
        }
    }

    /// Renders the error for a reader.
    pub fn message(&self) -> (text: String)
        ensures
            text@ == self.spec_message(),
    {
        match self {
            Error::Ring(error) => error.message(),
            Error::Buf(error) => error.message(),
            Error::ShuttingDown => "the driver is shutting down".to_owned(),
            Error::AbandonedAtShutdown =>
                "the operation was abandoned at shutdown before the platform ran it".to_owned(),
            Error::ShutdownStalled { outstanding } => {
                let mut text = "shutdown is still draining, with ".to_owned();
                text.append(decimal_of(*outstanding as u64).as_str());
                text.append(" operation(s) outstanding");
                text
            },
            Error::MissingField { field } => {
                let mut text = "required field `".to_owned();
                text.append(field);
                text.append("` was not set");
                text
            },
            Error::TooManyOperations =>
                "the driver is tracking as many operations as it can; complete outstanding operations rather than submitting more".to_owned(),
            Error::InvalidRegisteredIndex { index } => {
                let mut text = "registered index ".to_owned();
                text.append(decimal_of(*index as u64).as_str());
                text.append(" does not refer to a registration");
                text
            },
            Error::RegisteredRangeOutOfBounds { index, offset, length, extent } => {
                let mut text = "registered buffer ".to_owned();
                text.append(decimal_of(*index as u64).as_str());
                text.append(" range ");
                text.append(decimal_of(*offset).as_str());
                text.append("..");
                text.append(decimal_of(offset.saturating_add(*length)).as_str());
                text.append(" exceeds its extent of ");
                text.append(decimal_of(*extent).as_str());
                text
            },
            Error::BufferCheckedOut { index } => {
                let mut text = "registered buffer ".to_owned();
                text.append(decimal_of(*index as u64).as_str());
                text.append(" is already checked out");
                text
            },
            Error::RegistrationSuperseded =>
                "the registration this collection came from has been superseded".to_owned(),
            Error::RegistrationPending =>
                "a registration request is in flight, so no buffer may be checked out".to_owned(),
            Error::PipeBusy => "every pipe instance is already serving a client".to_owned(),
            Error::PipeBroken => "the peer closed its end of the pipe".to_owned(),
            Error::PipeNoPeer => "the pipe has no peer connected".to_owned(),
            Error::PipeListening => "the pipe instance is still waiting for a client".to_owned(),
            Error::Other(platform) => platform.text.as_str().to_owned(),
        }
    }

    /// Returns the error this one wraps, if it wraps one.
    pub fn source(&self) -> (source: Option<Source>)
        ensures
            source == match *self {
                Error::Ring(error) => Some(Source::Ring(error)),
                Error::Buf(error) => Some(Source::Buf(error)),
                Error::Other(platform) => Some(Source::Platform(platform.code)),
                _ => None,
            },
    {
        match self {
            Error::Ring(error) => Some(Source::Ring(*error)),
            Error::Buf(error) => Some(Source::Buf(*error)),
            Error::Other(platform) => Some(Source::Platform(platform.code)),
            _ => None,
        }
    }
}

/// The sum of two numbers, held at the largest that fits.
pub open spec fn saturating_sum(a: u64, b: u64) -> nat {
    if a + b > u64::MAX {
        u64::MAX as nat
    } else {
        (a + b) as nat
    }
}

} // verus!
