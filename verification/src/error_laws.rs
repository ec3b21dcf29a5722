//! What holds of every rendered error.

use crate::error::{BufError, Condition, Error, RingError};
use vstd::prelude::*;

verus! {

/// A number per variant of [`Error`].
pub open spec fn variant(error: Error) -> int {
    match error {
        Error::Ring(_) => 0,
        Error::Buf(_) => 1,
        Error::ShuttingDown => 2,
        Error::AbandonedAtShutdown => 3,
        Error::ShutdownStalled { .. } => 4,
        Error::MissingField { .. } => 5,
        Error::TooManyOperations => 6,
        Error::InvalidRegisteredIndex { .. } => 7,
        Error::RegisteredRangeOutOfBounds { .. } => 8,
        Error::BufferCheckedOut { .. } => 9,
        Error::RegistrationSuperseded => 10,
        Error::RegistrationPending => 11,
        Error::PipeBusy => 12,
        Error::PipeBroken => 13,
        Error::PipeNoPeer => 14,
        Error::PipeListening => 15,
        Error::Other(_) => 16,
    }
}

/// Every error renders as something, and two errors of different variants never
/// render alike, whatever text the platform finds for a code.
pub proof fn law_messages_tell_variants_apart(a: Error, b: Error)
    requires
        a matches Error::Other(platform) ==> platform.wf(),
        b matches Error::Other(platform) ==> platform.wf(),
        variant(a) != variant(b),
    ensures
        a.spec_message().len() > 0,
        b.spec_message().len() > 0,
        a.spec_message() != b.spec_message(),
{
    if a is Other {
        lemma_codes_are_told_apart(a.spec_message(), a->Other_0.code, b);
    } else if b is Other {
        lemma_codes_are_told_apart(b.spec_message(), b->Other_0.code, a);
    } else {
        lemma_named_apart(a, b);
    }
}

/// A text that tells a code is that of no other error.
proof fn lemma_codes_are_told_apart(text: Seq<char>, code: i32, named: Error)
    requires
        crate::error::tells_code(text, code),
        named !is Other,
    ensures
        text.len() > 0,
        named.spec_message().len() > 0,
        text != named.spec_message(),
{
    lemma_opening(named);
    lemma_closing(named);
    reveal_strlit("0x");
    reveal_strlit(" (");
    reveal_strlit(")");
    let shown = crate::error::code_text(
        if code == crate::error::EMPTY_CODE {
            0
        } else {
            code
        },
    );
    assert(shown[0] == '0');
    let behind = " ("@ + shown + ")"@;
    assert(behind.last() == ')');
    if text != shown {
        assert(text.subrange(text.len() - behind.len(), text.len() as int) == behind);
        assert(text.last() == behind.last());
    }
}

/// Two errors that the platform does not render differ.
proof fn lemma_named_apart(a: Error, b: Error)
    requires
        a !is Other,
        b !is Other,
        variant(a) != variant(b),
    ensures
        a.spec_message().len() > 0,
        b.spec_message().len() > 0,
        a.spec_message() != b.spec_message(),
{
    lemma_opening(a);
    lemma_opening(b);
    if a.spec_message() == b.spec_message() {
        if a is RegisteredRangeOutOfBounds && b is BufferCheckedOut {
            lemma_range_is_not_checked_out(a, b);
        } else if b is RegisteredRangeOutOfBounds && a is BufferCheckedOut {
            lemma_range_is_not_checked_out(b, a);
        }
    }
}

/// The characters by which the openings of the messages differ.
proof fn lemma_opening(error: Error)
    requires
        error !is Other,
    ensures
        error.spec_message().len() >= 15,
        ({
            let m = error.spec_message();
            match error {
                Error::Ring(RingError::QueueFull) => m[0] == 's' && m[1] == 'u',
                Error::Ring(_) => m[0] == 'u',
                Error::Buf(_) => m[0] == 'b',
                Error::ShuttingDown => m[0] == 't' && m[4] == 'd' && m[14] == 's',
                Error::AbandonedAtShutdown => m[0] == 't' && m[4] == 'o',
                Error::ShutdownStalled { .. } => m[0] == 's' && m[1] == 'h',
                Error::MissingField { .. } => m[0] == 'r' && m[2] == 'q',
                Error::TooManyOperations => m[0] == 't' && m[4] == 'd' && m[14] == 't',
                Error::InvalidRegisteredIndex { .. } => m[0] == 'r' && m[2] == 'g' && m[11] == 'i',
                Error::RegisteredRangeOutOfBounds { .. } => m[0] == 'r' && m[2] == 'g' && m[11]
                    == 'b',
                Error::BufferCheckedOut { .. } => m[0] == 'r' && m[2] == 'g' && m[11] == 'b',
                Error::RegistrationSuperseded => m[0] == 't' && m[4] == 'r',
                Error::RegistrationPending => m[0] == 'a',
                Error::PipeBusy => m[0] == 'e',
                Error::PipeBroken => m[0] == 't' && m[4] == 'p' && m[5] == 'e',
                Error::PipeNoPeer => m[0] == 't' && m[4] == 'p' && m[5] == 'i' && m[9] == 'h',
                Error::PipeListening => m[0] == 't' && m[4] == 'p' && m[5] == 'i' && m[9] == 'i',
                Error::Other(_) => true,
            }
        }),
{
    reveal_strlit("submit the queued entries: the submission queue is full");
    reveal_strlit("unsupported ring version");
    reveal_strlit("unsupported ring feature");
    reveal_strlit("unsupported ring operation");
    reveal_strlit("buffer of ");
    reveal_strlit(" byte(s) is too small for ");
    reveal_strlit("the driver is shutting down");
    reveal_strlit("the operation was abandoned at shutdown before the platform ran it");
    reveal_strlit("shutdown is still draining, with ");
    reveal_strlit("required field `");
    reveal_strlit(
        "the driver is tracking as many operations as it can; complete outstanding operations rather than submitting more",
    );
    reveal_strlit("registered index ");
    reveal_strlit("registered buffer ");
    reveal_strlit("the registration this collection came from has been superseded");
    reveal_strlit("a registration request is in flight, so no buffer may be checked out");
    reveal_strlit("every pipe instance is already serving a client");
    reveal_strlit("the peer closed its end of the pipe");
    reveal_strlit("the pipe has no peer connected");
    reveal_strlit("the pipe instance is still waiting for a client");
}

/// No message but the platform's ends in a parenthesis.
proof fn lemma_closing(error: Error)
    requires
        error !is Other,
    ensures
        error.spec_message().len() > 0,
        error.spec_message().last() != ')',
{
    lemma_opening(error);
    reveal_strlit("submit the queued entries: the submission queue is full");
    reveal_strlit("unsupported ring version");
    reveal_strlit("unsupported ring feature");
    reveal_strlit("unsupported ring operation");
    reveal_strlit("the driver is shutting down");
    reveal_strlit("the operation was abandoned at shutdown before the platform ran it");
    reveal_strlit(" operation(s) outstanding");
    reveal_strlit("` was not set");
    reveal_strlit(
        "the driver is tracking as many operations as it can; complete outstanding operations rather than submitting more",
    );
    reveal_strlit(" does not refer to a registration");
    reveal_strlit(" is already checked out");
    reveal_strlit("the registration this collection came from has been superseded");
    reveal_strlit("a registration request is in flight, so no buffer may be checked out");
    reveal_strlit("every pipe instance is already serving a client");
    reveal_strlit("the peer closed its end of the pipe");
    reveal_strlit("the pipe has no peer connected");
    reveal_strlit("the pipe instance is still waiting for a client");
    match error {
        Error::Buf(crate::error::BufError::TooSmall { requested, .. }) => {
            lemma_decimal(requested as nat);
        },
        Error::RegisteredRangeOutOfBounds { extent, .. } => {
            lemma_decimal(extent as nat);
        },
        _ => {},
    }
}

/// Decimals are made of digits.
proof fn lemma_decimal(n: nat)
    ensures
        crate::error::decimal(n).len() > 0,
        forall|i: int|
            0 <= i < crate::error::decimal(n).len() ==> #[trigger] crate::error::decimal(n)[i]
                != ' ' && crate::error::decimal(n)[i] != ')',
    decreases n,
{
    if n >= 10 {
        lemma_decimal(n / 10);
    }
}

/// After the index comes a space, and then the two messages part.
proof fn lemma_range_is_not_checked_out(range: Error, taken: Error)
    requires
        range is RegisteredRangeOutOfBounds,
        taken is BufferCheckedOut,
    ensures
        range.spec_message() != taken.spec_message(),
{
    reveal_strlit("registered buffer ");
    reveal_strlit(" range ");
    reveal_strlit(" is already checked out");
    let m = range.spec_message();
    let w = taken.spec_message();
    let a = crate::error::decimal(range->RegisteredRangeOutOfBounds_index as nat);
    let b = crate::error::decimal(taken->BufferCheckedOut_index as nat);
    lemma_decimal(range->RegisteredRangeOutOfBounds_index as nat);
    lemma_decimal(taken->BufferCheckedOut_index as nat);
    assert(m[18 + a.len() as int] == ' ');
    assert(m[19 + a.len() as int] == 'r');
    assert(w[18 + b.len() as int] == ' ');
    assert(w[19 + b.len() as int] == 'i');
    if a.len() < b.len() {
        assert(w[18 + a.len() as int] == b[a.len() as int]);
    } else if b.len() < a.len() {
        assert(m[18 + b.len() as int] == a[b.len() as int]);
    }
}

/// Five conditions have names, one of them under two codes; every other code is told as it
/// is. The codes are the platform's own: facility and number in the upper and lower half.
pub proof fn law_named_conditions_are_named(code: i32)
    ensures
        crate::error::Condition::spec_of_code(code) is QueueFull <==> code + 0x1_0000_0000
            == 0x8046_0002,
        crate::error::Condition::spec_of_code(code) is PipeBusy <==> code + 0x1_0000_0000
            == 0x8007_0000 + 231,
        crate::error::Condition::spec_of_code(code) is PipeBroken <==> code + 0x1_0000_0000
            == 0x8007_0000 + 109 || code + 0x1_0000_0000 == 0x8007_0000 + 232,
        crate::error::Condition::spec_of_code(code) is PipeNoPeer <==> code + 0x1_0000_0000
            == 0x8007_0000 + 233,
        crate::error::Condition::spec_of_code(code) is PipeListening <==> code + 0x1_0000_0000
            == 0x8007_0000 + 536,
        crate::error::Condition::spec_of_code(code) matches Condition::Other(told) ==> told == code,
{
}

/// The error of a failed operation never loses its cause: it is one of the named conditions
/// exactly when its code is that condition's, and otherwise it holds the code.
pub proof fn law_a_failure_tells_its_cause(code: i32, error: Error)
    requires
        error.stands_for(crate::error::Condition::spec_of_code(code)),
    ensures
        error is PipeBusy <==> code + 0x1_0000_0000 == 0x8007_0000 + 231,
        error is PipeBroken <==> code + 0x1_0000_0000 == 0x8007_0000 + 109 || code + 0x1_0000_0000
            == 0x8007_0000 + 232,
        error is PipeNoPeer <==> code + 0x1_0000_0000 == 0x8007_0000 + 233,
        error is PipeListening <==> code + 0x1_0000_0000 == 0x8007_0000 + 536,
        error is Ring <==> code + 0x1_0000_0000 == 0x8046_0002,
        error matches Error::Ring(ring) ==> ring == RingError::QueueFull,
        error is PipeBusy || error is PipeBroken || error is PipeNoPeer || error is PipeListening
            || error is Ring || (error matches Error::Other(platform) && platform.code == code),
{
}

/// The number that a row of decimal digits stands for.
pub open spec fn decimal_value(text: Seq<char>) -> int
    decreases text.len(),
{
    if text.len() == 0 {
        0
    } else {
        10 * decimal_value(text.drop_last()) + (text.last() as int - '0' as int)
    }
}

/// A number is rendered in decimal: the digits stand for it, and none is wasted in front.
pub proof fn law_decimals_stand_for_their_number(n: nat)
    ensures
        crate::error::decimal(n).len() > 0,
        decimal_value(crate::error::decimal(n)) == n,
        forall|i: int|
            0 <= i < crate::error::decimal(n).len() ==> '0' <= #[trigger] crate::error::decimal(
                n,
            )[i] <= '9',
        crate::error::decimal(n).len() > 1 ==> crate::error::decimal(n)[0] != '0',
    decreases n,
{
    let text = crate::error::decimal(n);
    if n >= 10 {
        law_decimals_stand_for_their_number(n / 10);
        let front = crate::error::decimal(n / 10);
        assert(text.drop_last() =~= front);
        assert forall|i: int| 0 <= i < text.len() implies '0' <= #[trigger] text[i] <= '9' by {
            if i < front.len() {
                assert(text[i] == front[i]);
            }
        }
        assert(text[0] == front[0]);
        if front.len() == 1 {
            assert(decimal_value(front.drop_last()) == 0);
        }
    } else {
        assert(text.drop_last().len() == 0);
        assert(decimal_value(text.drop_last()) == 0);
    }
}

/// The number that a row of upper-case hexadecimal digits stands for.
pub open spec fn hex_value(text: Seq<char>) -> int
    decreases text.len(),
{
    if text.len() == 0 {
        0
    } else {
        16 * hex_value(text.drop_last()) + if text.last() <= '9' {
            text.last() as int - '0' as int
        } else {
            text.last() as int - 'A' as int + 10
        }
    }
}

/// Sixteen to the power of `width`.
pub open spec fn sixteens(width: nat) -> int
    decreases width,
{
    if width == 0 {
        1
    } else {
        16 * sixteens((width - 1) as nat)
    }
}

/// A number that fits is rendered in hexadecimal: as many digits as asked for, that stand
/// for it.
pub proof fn law_hex_digits_stand_for_their_number(n: nat, width: nat)
    requires
        n < sixteens(width),
    ensures
        crate::error::hex_digits(n, width).len() == width,
        hex_value(crate::error::hex_digits(n, width)) == n,
    decreases width,
{
    let text = crate::error::hex_digits(n, width);
    if width > 0 {
        law_hex_digits_stand_for_their_number(n / 16, (width - 1) as nat);
        assert(text.drop_last() =~= crate::error::hex_digits(n / 16, (width - 1) as nat));
    }
}

/// A result code is written as its 32 bits: eight hexadecimal digits behind a prefix.
pub proof fn law_a_code_is_written_as_its_bits(code: i32)
    ensures
        crate::error::code_text(code).len() == 10,
        crate::error::code_text(code)[0] == '0',
        crate::error::code_text(code)[1] == 'x',
        hex_value(crate::error::code_text(code).skip(2)) == if code < 0 {
            code + 0x1_0000_0000
        } else {
            code as int
        },
{
    reveal_strlit("0x");
    let bits = if code < 0 {
        code + 0x1_0000_0000
    } else {
        code as int
    };
    assert(sixteens(8) == 0x1_0000_0000) by {
        reveal_with_fuel(sixteens, 9);
    }
    law_hex_digits_stand_for_their_number(bits as nat, 8);
    assert(crate::error::code_text(code).skip(2) =~= crate::error::hex_digits(bits as nat, 8));
}

/// Whether `part` stands in `text` at `at`.
pub open spec fn stands_at(text: Seq<char>, at: int, part: Seq<char>) -> bool {
    0 <= at && at + part.len() <= text.len() && text.subrange(at, at + part.len()) == part
}

/// A rendered error tells the numbers and names it was made with, each in its own place, so
/// that a reader can act on it.
pub proof fn law_messages_tell_what_they_are_about(error: Error)
    ensures
        ({
            let m = error.spec_message();
            match error {
                Error::Buf(BufError::TooSmall { requested, available }) => {
                    let offered = crate::error::decimal(available as nat);
                    let asked = crate::error::decimal(requested as nat);
                    stands_at(m, 10, offered) && stands_at(m, 10int + offered.len() + 26, asked)
                },
                Error::ShutdownStalled { outstanding } => stands_at(
                    m,
                    33,
                    crate::error::decimal(outstanding as nat),
                ),
                Error::MissingField { field } => stands_at(m, 16, field@),
                Error::InvalidRegisteredIndex { index } => stands_at(
                    m,
                    17,
                    crate::error::decimal(index as nat),
                ),
                Error::BufferCheckedOut { index } => stands_at(
                    m,
                    18,
                    crate::error::decimal(index as nat),
                ),
                Error::RegisteredRangeOutOfBounds { index, offset, length, extent } => {
                    let named = crate::error::decimal(index as nat);
                    let from = crate::error::decimal(offset as nat);
                    let to = crate::error::decimal(
                        if offset + length <= u64::MAX {
                            (offset + length) as nat
                        } else {
                            u64::MAX as nat
                        },
                    );
                    let bound = crate::error::decimal(extent as nat);
                    &&& stands_at(m, 18, named)
                    &&& stands_at(m, 18int + named.len() + 7, from)
                    &&& stands_at(m, 18int + named.len() + 7 + from.len() + 2, to)
                    &&& stands_at(m, m.len() - bound.len(), bound)
                },
                Error::Other(platform) => m == platform.text@,
                _ => true,
            }
        }),
{
    let m = error.spec_message();
    reveal_strlit("buffer of ");
    reveal_strlit(" byte(s) is too small for ");
    reveal_strlit("shutdown is still draining, with ");
    reveal_strlit("required field `");
    reveal_strlit("registered index ");
    reveal_strlit("registered buffer ");
    reveal_strlit(" range ");
    reveal_strlit("..");
    reveal_strlit(" exceeds its extent of ");
    match error {
        Error::Buf(BufError::TooSmall { requested, available }) => {
            let offered = crate::error::decimal(available as nat);
            let asked = crate::error::decimal(requested as nat);
            assert(m.subrange(10, 10int + offered.len()) =~= offered);
            assert(m.subrange(
                10int + offered.len() + 26,
                10int + offered.len() + 26 + asked.len(),
            ) =~= asked);
        },
        Error::ShutdownStalled { outstanding } => {
            let told = crate::error::decimal(outstanding as nat);
            assert(m.subrange(33, 33int + told.len()) =~= told);
        },
        Error::MissingField { field } => {
            assert(m.subrange(16, 16int + field@.len()) =~= field@);
        },
        Error::InvalidRegisteredIndex { index } => {
            let told = crate::error::decimal(index as nat);
            assert(m.subrange(17, 17int + told.len()) =~= told);
        },
        Error::BufferCheckedOut { index } => {
            let told = crate::error::decimal(index as nat);
            assert(m.subrange(18, 18int + told.len()) =~= told);
        },
        Error::RegisteredRangeOutOfBounds { index, offset, length, extent } => {
            let named = crate::error::decimal(index as nat);
            let from = crate::error::decimal(offset as nat);
            let to = crate::error::decimal(crate::error::saturating_sum(offset, length));
            let bound = crate::error::decimal(extent as nat);
            assert(m.subrange(18, 18int + named.len()) =~= named);
            let a = 18int + named.len() + 7;
            assert(m.subrange(a, a + from.len()) =~= from);
            let b = a + from.len() + 2;
            assert(m.subrange(b, b + to.len()) =~= to);
            let c = m.len() - bound.len();
            assert(m.subrange(c, m.len() as int) =~= bound);
        },
        _ => {},
    }
}

} // verus!
