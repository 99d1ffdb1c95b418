//! The closed, build-time token table: each token symbol with its external
//! name, decimal count and discriminant byte, and the 32-byte wire form
//! reserved for token identifiers (all zero but for the discriminant at byte
//! offset 30).

use vstd::prelude::*;

verus! {

/// The fungible token types the ledger distinguishes.
#[derive(Clone, Copy, Debug, PartialEq, Eq, Structural)]
pub enum TokenSymbol {
    KSM,
}

/// The discriminant byte that stands for a token on the wire.
pub open spec fn spec_token_discriminant(t: TokenSymbol) -> u8 {
    match t {
        TokenSymbol::KSM => 130,
    }
}

/// The token a discriminant byte stands for, if any.
pub open spec fn spec_symbol_of_byte(v: u8) -> Result<TokenSymbol, ()> {
    if v == 130 {
        Ok(TokenSymbol::KSM)
    } else {
        Err(())
    }
}

/// The ASCII bytes of a token's external symbol name.
pub open spec fn spec_symbol_name(t: TokenSymbol) -> Seq<u8> {
    match t {
        TokenSymbol::KSM => seq![75u8, 83u8, 77u8],
    }
}

/// How many decimal places a token's display unit carries.
pub open spec fn spec_token_decimals(t: TokenSymbol) -> u32 {
    match t {
        TokenSymbol::KSM => 12,
    }
}

impl TokenSymbol {
    /// The discriminant byte that stands for this token on the wire.
    pub fn discriminant(&self) -> (r: u8)
        ensures
            r == spec_token_discriminant(*self),
    {
        match self {
            TokenSymbol::KSM => 130,
        }
    }

    /// Decode a discriminant byte; bytes with no token mapping fail.
    pub fn try_from(v: u8) -> (r: Result<TokenSymbol, ()>)
        ensures
            r == spec_symbol_of_byte(v),
    {
        if v == 130 {
            Ok(TokenSymbol::KSM)
        } else {
            Err(())
        }
    }

    /// The whole token table: each symbol's external name and decimal count.
    pub fn get_info() -> (r: Vec<(&'static str, u32)>)
        ensures
            r@.len() == 1,
            r@[0].0@ == "KSM"@,
            r@[0].1 == spec_token_decimals(TokenSymbol::KSM),
    {
        let mut info: Vec<(&'static str, u32)> = Vec::new();
        info.push(("KSM", 12));
        info
    }
}

/// Read access to a token type's decimal count.
pub trait GetDecimals {
    /// How many decimal places the implementor's display unit carries.
    spec fn spec_decimals(&self) -> u32;

    /// Report the decimal count.
    fn decimals(&self) -> (r: u32)
        ensures
            r == self.spec_decimals(),
    ;
}

/// An opaque identifier of one fungible token type within the ledger.
#[derive(Clone, Copy, Debug, PartialEq, Eq, Structural)]
pub enum CurrencyId {
    Token(TokenSymbol),
}

impl GetDecimals for CurrencyId {
    open spec fn spec_decimals(&self) -> u32 {
        match self {
            CurrencyId::Token(t) => spec_token_decimals(*t),
        }
    }

    fn decimals(&self) -> (r: u32) {
        match self {
            CurrencyId::Token(TokenSymbol::KSM) => 12,
        }
    }
}

/// The 32-byte wire form of a token identifier: zero everywhere but for the
/// discriminant byte at offset 30.
pub open spec fn spec_currency_to_word(c: CurrencyId) -> Seq<u8> {
    Seq::new(
        32,
        |i: int|
            if i == 30 {
                match c {
                    CurrencyId::Token(t) => spec_token_discriminant(t),
                }
            } else {
                0u8
            },
    )
}

/// Decode of a 32-byte value as a token identifier: any value that breaks
/// the reserved pattern, or whose discriminant maps to no token, fails.
pub open spec fn spec_currency_of_word(s: Seq<u8>) -> Result<CurrencyId, ()> {
    if s.len() == 32 && (forall|i: int| 0 <= i < 32 && i != 30 ==> s[i] == 0) {
        match spec_symbol_of_byte(s[30]) {
            Ok(t) => Ok(CurrencyId::Token(t)),
            Err(e) => Err(e),
        }
    } else {
        Err(())
    }
}

impl CurrencyId {
    /// Whether this identifier denotes a token currency.
    pub fn is_token_currency_id(&self) -> (r: bool)
        ensures
            r == (self matches CurrencyId::Token(_)),
    {
        matches!(self, CurrencyId::Token(_))
    }

    /// Decode the external symbol name, the ASCII bytes of `KSM`.
    pub fn try_from_symbol(name: &[u8]) -> (r: Result<CurrencyId, ()>)
        ensures
            r == (if name@ == spec_symbol_name(TokenSymbol::KSM) {
                Ok::<CurrencyId, ()>(CurrencyId::Token(TokenSymbol::KSM))
            } else {
                Err::<CurrencyId, ()>(())
            }),
    {
        if name.len() == 3 && name[0] == 75 && name[1] == 83 && name[2] == 77 {
            proof {
                assert(name@ =~= spec_symbol_name(TokenSymbol::KSM));
            }
            Ok(CurrencyId::Token(TokenSymbol::KSM))
        } else {
            Err(())
        }
    }

    /// Encode this identifier to its reserved 32-byte wire form.
    pub fn to_word(&self) -> (r: [u8; 32])
        ensures
            r@ == spec_currency_to_word(*self),
    {
        let mut out: [u8; 32] = [0; 32];
        match self {
            CurrencyId::Token(t) => {
                out[30] = t.discriminant();
            },
        }
        proof {
            assert(out@ =~= spec_currency_to_word(*self));
        }
        out
    }

    /// Decode a 32-byte wire value; values outside the reserved pattern fail.
    pub fn try_from(word: &[u8; 32]) -> (r: Result<CurrencyId, ()>)
        ensures
            r == spec_currency_of_word(word@),
    {
        let mut i: usize = 0;
        while i < 30
            invariant
                0 <= i <= 30,
                forall|j: int| 0 <= j < i ==> word@[j] == 0,
            decreases 30 - i,
        {
            if word[i] != 0 {
                return Err(());
            }
            i = i + 1;
        }
        if word[31] != 0 {
            return Err(());
        }
        match TokenSymbol::try_from(word[30]) {
            Ok(t) => Ok(CurrencyId::Token(t)),
            Err(e) => Err(e),
        }
    }
}

/// Encoding a defined token identifier and decoding the 32-byte result
/// yields the identifier again.
pub proof fn lemma_token_word_round_trip(c: CurrencyId)
    ensures
        spec_currency_of_word(spec_currency_to_word(c)) == Ok::<CurrencyId, ()>(c),
{
    let w = spec_currency_to_word(c);
    assert(w.len() == 32);
    assert(forall|i: int| 0 <= i < 32 && i != 30 ==> w[i] == 0);
    match c {
        CurrencyId::Token(t) => {
            match t {
                TokenSymbol::KSM => {
                    assert(w[30] == 130);
                },
            }
        },
    }
}

} // verus!
