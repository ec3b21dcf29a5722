//! Tokens: the user data by which the platform names an operation.
//!
//! A token packs three things into one word:
//!
//! - a **kind**, in the lowest bit, telling an operation's completion from the
//!   completion of a cancellation request, since the platform reports both and
//!   they must not be confused;
//! - a **slot index**, in the sixteen bits above it;
//! - a **generation**, in every bit that is left, raised each time a slot is
//!   reused, so that a completion arriving for a long-finished operation cannot
//!   be mistaken for the operation now occupying that slot.
//!
//! The layout is the same on 32-bit and 64-bit targets but for the width of the
//! generation: 15 bits and 47 bits.

use vstd::prelude::*;

verus! {

/// What kind of completion a token identifies.
#[derive(Debug, Clone, Copy, PartialEq, Eq, Structural)]
pub enum TokenKind {
    /// The completion of an operation.
    Operation,
    /// The completion of a cancellation request.
    Cancel,
}

/// The largest number of slots the token layout can address.
pub const MAX_SLOTS: usize = 65_536;

/// The bits, once shifted down past the kind, that hold the slot index.
const INDEX_MASK: usize = 65_535;

/// The largest generation a token can hold: every bit above the kind and the
/// index set.
pub const GENERATION_MASK: usize = usize::MAX / 131_072;

/// The generation a fresh slot starts in.
///
/// Not zero: the slot with index zero would then give its first operation the
/// user data zero, which the platform reads as "everything on this handle" when
/// it is told what to cancel.
pub const FIRST_GENERATION: usize = 1;

/// Identifies a slot, and what sort of completion to expect for it.
///
/// Tokens are handed to the platform as user data and come back on completion.
#[derive(Debug, Clone, Copy, PartialEq, Eq, Hash, Structural)]
pub struct Token(pub usize);

/// The token of the given kind for a slot index and a generation.
pub open spec fn token_of(kind: TokenKind, index: int, generation: int) -> Token {
    Token((kind.bit() + 2 * index + 131_072 * generation) as usize)
}

impl TokenKind {
    /// The value of a token's lowest bit.
    pub open spec fn bit(self) -> int {
        match self {
            TokenKind::Operation => 0,
            TokenKind::Cancel => 1,
        }
    }
}

impl Token {
    /// The kind recorded in the lowest bit.
    pub open spec fn spec_kind(self) -> TokenKind {
        if self.0 % 2 == 0 {
            TokenKind::Operation
        } else {
            TokenKind::Cancel
        }
    }

    /// The slot index recorded in the sixteen bits above the kind.
    pub open spec fn spec_index(self) -> int {
        (self.0 as int / 2) % 65_536
    }

    /// The generation recorded in the remaining bits.
    pub open spec fn spec_generation(self) -> int {
        self.0 as int / 131_072
    }

    /// The same slot and generation, identifying a cancellation's completion.
    pub open spec fn spec_cancel(self) -> Token {
        token_of(TokenKind::Cancel, self.spec_index(), self.spec_generation())
    }

    /// The same slot and generation, identifying the operation.
    pub open spec fn spec_operation(self) -> Token {
        token_of(TokenKind::Operation, self.spec_index(), self.spec_generation())
    }

    /// Packs a token. Generations that do not fit lose their upper bits.
    pub fn new(kind: TokenKind, index: usize, generation: usize) -> (token: Token)
        requires
            index < MAX_SLOTS,
        ensures
            token == token_of(kind, index as int, generation as int % (GENERATION_MASK + 1)),
            token.spec_kind() == kind,
            token.spec_index() == index,
            token.spec_generation() == generation as int % (GENERATION_MASK + 1),
    {
        let kind_bit: usize = match kind {
            TokenKind::Operation => 0,
            TokenKind::Cancel => 1,
        };
        let mask: usize = GENERATION_MASK;
        let raw: usize = kind_bit | ((index & INDEX_MASK) << 1) | ((generation & mask) << 17);
        proof {
            assert(mask == 0x7fff || mask == 0x7fff_ffff_ffff);
            assert(usize::BITS == 64 ==> mask == 0x7fff_ffff_ffff);
            assert(usize::BITS == 32 ==> mask == 0x7fff);
            let g = generation & mask;
            assert(g == generation as int % (mask + 1)) by {
                if mask == 0x7fff {
                    assert(generation & 0x7fff == generation % 0x8000) by (bit_vector);
                } else {
                    let wide = generation as u64;
                    assert(wide & 0x7fff_ffff_ffff == wide % 0x8000_0000_0000) by (bit_vector);
                }
            }
            assert(raw == kind_bit + 2 * index + 131_072 * g) by (bit_vector)
                requires
                    raw == kind_bit | ((index & 65_535) << 1) | (g << 17),
                    kind_bit <= 1,
                    index < 65_536,
                    g <= mask,
                    mask == 0x7fff || mask == 0x7fff_ffff_ffff,
                    usize::BITS == 32 ==> mask == 0x7fff,
            ;
        }
        Token(raw)
    }

    /// Returns what kind of completion this token identifies.
    pub fn kind(self) -> (kind: TokenKind)
        ensures
            kind == self.spec_kind(),
    {
        let raw: usize = self.0;
        assert(raw & 1 == raw % 2) by (bit_vector);
        if raw & 1 == 0 {
            TokenKind::Operation
        } else {
            TokenKind::Cancel
        }
    }

    /// Returns the slot index.
    pub fn index(self) -> (index: usize)
        ensures
            index == self.spec_index(),
            index < MAX_SLOTS,
    {
        let raw: usize = self.0;
        assert((raw >> 1) & 65_535 == (raw / 2) % 65_536) by (bit_vector);
        (raw >> 1) & INDEX_MASK
    }

    /// Returns the generation.
    pub fn generation(self) -> (generation: usize)
        ensures
            generation == self.spec_generation(),
            generation <= GENERATION_MASK,
    {
        let raw: usize = self.0;
        assert(raw >> 17 == raw / 131_072) by (bit_vector);
        raw >> 17
    }

    /// Returns the same slot and generation, but identifying a cancellation
    /// request's own completion rather than the operation's.
    pub fn to_cancel(self) -> (token: Token)
        ensures
            token == self.spec_cancel(),
            token.spec_kind() == TokenKind::Cancel,
            token.spec_index() == self.spec_index(),
            token.spec_generation() == self.spec_generation(),
    {
        proof {
            vstd::arithmetic::div_mod::lemma_small_mod(self.spec_generation() as nat, (GENERATION_MASK + 1) as nat);
        }
        Token::new(TokenKind::Cancel, self.index(), self.generation())
    }

    /// Returns the same slot and generation, identifying the operation.
    pub fn to_operation(self) -> (token: Token)
        ensures
            token == self.spec_operation(),
            token.spec_kind() == TokenKind::Operation,
            token.spec_index() == self.spec_index(),
            token.spec_generation() == self.spec_generation(),
    {
        proof {
            vstd::arithmetic::div_mod::lemma_small_mod(self.spec_generation() as nat, (GENERATION_MASK + 1) as nat);
        }
        Token::new(TokenKind::Operation, self.index(), self.generation())
    }

    /// Returns the raw value to hand to the platform as user data.
    pub fn as_user_data(self) -> (value: usize)
        ensures
            value == self.0,
    {
        self.0
    }

    /// Reconstructs a token from platform user data.
    pub fn from_user_data(value: usize) -> (token: Token)
        ensures
            token == Token(value),
    {
        Token(value)
    }
}

/// A token holds exactly the kind, index and generation it was packed from.
pub proof fn law_fields_round_trip(kind: TokenKind, index: int, generation: int)
    requires
        0 <= index < MAX_SLOTS,
        0 <= generation <= GENERATION_MASK,
    ensures
        token_of(kind, index, generation).spec_kind() == kind,
        token_of(kind, index, generation).spec_index() == index,
        token_of(kind, index, generation).spec_generation() == generation,
        token_of(kind, index, generation).0 == kind.bit() + 2 * index + 131_072 * generation,
{
}

/// A token is nothing but its kind, index and generation: unpacking any word and
/// packing the fields again gives the word back.
pub proof fn law_token_is_its_fields(token: Token)
    ensures
        token == token_of(token.spec_kind(), token.spec_index(), token.spec_generation()),
        0 <= token.spec_index() < MAX_SLOTS,
        0 <= token.spec_generation() <= GENERATION_MASK,
{
}

/// An operation and the cancellation of it are told apart by their tokens, and
/// each leads back to the other.
pub proof fn law_kinds_never_collide(token: Token)
    ensures
        token.spec_operation() != token.spec_cancel(),
        token.spec_cancel().spec_operation() == token.spec_operation(),
        token.spec_operation().spec_cancel() == token.spec_cancel(),
        token.spec_kind() == TokenKind::Operation ==> token.spec_operation() == token,
        token.spec_kind() == TokenKind::Cancel ==> token.spec_cancel() == token,
{
    law_token_is_its_fields(token);
    law_fields_round_trip(TokenKind::Operation, token.spec_index(), token.spec_generation());
    law_fields_round_trip(TokenKind::Cancel, token.spec_index(), token.spec_generation());
}

} // verus!
