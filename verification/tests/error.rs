//! How errors read.

use win_ioring::error::{
    BufError, Condition, Error, MissingField, PlatformError, RingError, Source, EMPTY_CODE,
};

const E_FAIL: i32 = 0x8000_4005_u32 as i32;

#[test]
fn display_is_non_empty_and_distinct_for_every_runtime_error_variant() {
    let variants: Vec<Error> = vec![
        Error::Ring(RingError::QueueFull),
        Error::Buf(BufError::TooSmall { requested: 10, available: 4 }),
        Error::ShuttingDown,
        Error::AbandonedAtShutdown,
        Error::ShutdownStalled { outstanding: 3 },
        Error::MissingField { field: "handle" },
        Error::TooManyOperations,
        Error::InvalidRegisteredIndex { index: 3 },
        Error::RegisteredRangeOutOfBounds { index: 0, offset: 8, length: 16, extent: 16 },
        Error::BufferCheckedOut { index: 2 },
        Error::RegistrationSuperseded,
        Error::RegistrationPending,
        Error::PipeBusy,
        Error::PipeBroken,
        Error::PipeNoPeer,
        Error::PipeListening,
        Error::of_code(E_FAIL),
    ];
    let mut seen: Vec<String> = Vec::new();
    for v in variants {
        let rendered = v.message();
        assert!(!rendered.is_empty(), "empty message for {v:?}");
        assert!(
            !seen.contains(&rendered),
            "two variants of Error render identically: {rendered:?}"
        );
        seen.push(rendered);
    }
}

#[test]
fn messages_read_as_documented() {
    assert_eq!(
        Error::ShutdownStalled { outstanding: 1024 }.message(),
        "shutdown is still draining, with 1024 operation(s) outstanding"
    );
    assert_eq!(Error::MissingField { field: "files" }.message(), "required field `files` was not set");
    assert_eq!(
        Error::TooManyOperations.message(),
        "the driver is tracking as many operations as it can; complete outstanding operations rather than submitting more"
    );
    assert_eq!(
        Error::InvalidRegisteredIndex { index: 0 }.message(),
        "registered index 0 does not refer to a registration"
    );
    assert_eq!(
        Error::RegisteredRangeOutOfBounds { index: 7, offset: 8, length: 16, extent: 20 }.message(),
        "registered buffer 7 range 8..24 exceeds its extent of 20"
    );
    assert_eq!(
        Error::RegisteredRangeOutOfBounds { index: 7, offset: u64::MAX, length: 16, extent: 20 }
            .message(),
        "registered buffer 7 range 18446744073709551615..18446744073709551615 exceeds its extent of 20"
    );
    assert_eq!(
        Error::BufferCheckedOut { index: 4_000_000_000 }.message(),
        "registered buffer 4000000000 is already checked out"
    );
    assert_eq!(
        Error::Buf(BufError::TooSmall { requested: 10, available: 4 }).message(),
        "buffer of 4 byte(s) is too small for 10"
    );
    assert_eq!(Error::ShuttingDown.message(), "the driver is shutting down");
}

#[test]
fn a_platform_error_tells_its_code() {
    let text = Error::of_code(E_FAIL).message();
    assert!(text == "0x80004005" || text.ends_with(" (0x80004005)"), "{text}");
    assert_eq!(PlatformError::of_code(E_FAIL).text, text);
    let text = Error::of_code(0x1F).message();
    assert!(text == "0x0000001F" || text.ends_with(" (0x0000001F)"), "{text}");
    let text = Error::of_code(EMPTY_CODE).message();
    assert!(text == "0x00000000" || text.ends_with(" (0x00000000)"), "{text}");
}

#[test]
fn errors_name_what_they_came_from() {
    assert!(matches!(
        Error::from(RingError::UnsupportedVersion).source(),
        Some(Source::Ring(RingError::UnsupportedVersion))
    ));
    let small = BufError::TooSmall { requested: 2, available: 1 };
    assert!(matches!(Error::from(small).source(), Some(Source::Buf(found)) if found == small));
    assert!(matches!(Error::of_condition(Condition::Other(-3)).source(), Some(Source::Platform(-3))));
    assert!(Error::ShuttingDown.source().is_none());
    assert!(Error::PipeBroken.source().is_none());
}

#[test]
fn builders_missing_a_field_say_which() {
    assert!(matches!(
        Error::from(MissingField { field: "handle" }),
        Error::MissingField { field: "handle" }
    ));
    assert!(matches!(
        Error::of_condition(Condition::QueueFull),
        Error::Ring(RingError::QueueFull)
    ));
    assert_eq!(RingError::UnsupportedFeature.message(), "unsupported ring feature");
}
