//! User-facing configuration vocabulary: data formats, asset classes, option rights and
//! instrument identifiers.

use crate::text::{
    ascii_lower, chars_eq, chars_of, concat3, find_char, first_index, lower_chars, slice_chars,
    string_of,
};
use vstd::prelude::*;
use vstd::string::StringSliceAdditionalSpecFns;
use vstd::utf8::{encode_utf8, is_char_boundary};

verus! {

/// CSV layout for historical data.
#[derive(Clone, Copy, Debug, PartialEq, Eq, Structural)]
pub enum DataFormat {
    Auto,
    Ohlcv,
    Fx,
    Jsonl,
}

/// Instrument asset class.
#[derive(Clone, Copy, Debug, PartialEq, Eq, Structural)]
pub enum AssetClass {
    Crypto,
    Equity,
    Forex,
    Future,
    Option,
    Perpetual,
    Bond,
    Hybrid,
}

/// Option right.
#[derive(Clone, Copy, Debug, PartialEq, Eq, Structural)]
pub enum OptionKind {
    Call,
    Put,
}

/// An instrument: venue and symbol.
#[derive(Debug)]
pub struct InstrumentId {
    pub exchange: String,
    pub symbol: String,
}

impl Clone for InstrumentId {
    fn clone(&self) -> (r: Self)
        ensures
            r == *self,
    {
        InstrumentId { exchange: self.exchange.clone(), symbol: self.symbol.clone() }
    }
}

impl InstrumentId {
    /// New instrument id from venue and symbol.
    pub fn new(exchange: &str, symbol: &str) -> (r: InstrumentId)
        ensures
            r.exchange@ == exchange@,
            r.symbol@ == symbol@,
    {
        InstrumentId { exchange: exchange.to_owned(), symbol: symbol.to_owned() }
    }

    /// Both ids name the same venue and symbol.
    pub open spec fn same(self, other: InstrumentId) -> bool {
        self.exchange@ == other.exchange@ && self.symbol@ == other.symbol@
    }

    /// Whether both ids name the same venue and symbol.
    pub fn same_as(&self, other: &InstrumentId) -> (r: bool)
        ensures
            r == self.same(*other),
    {
        self.exchange == other.exchange && self.symbol == other.symbol
    }
}

/// The data format a lower-cased alias names.
pub open spec fn data_format_alias(l: Seq<char>) -> Option<DataFormat> {
    if l == "auto"@ {
        Some(DataFormat::Auto)
    } else if l == "ohlcv"@ {
        Some(DataFormat::Ohlcv)
    } else if l == "fx"@ {
        Some(DataFormat::Fx)
    } else if l == "jsonl"@ || l == "events"@ {
        Some(DataFormat::Jsonl)
    } else {
        None
    }
}

/// The asset class a lower-cased alias names.
pub open spec fn asset_class_alias(l: Seq<char>) -> Option<AssetClass> {
    if l == "crypto"@ || l == "crypto_spot"@ || l == "spot"@ {
        Some(AssetClass::Crypto)
    } else if l == "equity"@ || l == "equities"@ {
        Some(AssetClass::Equity)
    } else if l == "forex"@ || l == "fx"@ {
        Some(AssetClass::Forex)
    } else if l == "future"@ || l == "futures"@ {
        Some(AssetClass::Future)
    } else if l == "option"@ || l == "options"@ {
        Some(AssetClass::Option)
    } else if l == "perpetual"@ || l == "perp"@ {
        Some(AssetClass::Perpetual)
    } else if l == "bond"@ || l == "bonds"@ {
        Some(AssetClass::Bond)
    } else if l == "hybrid"@ {
        Some(AssetClass::Hybrid)
    } else {
        None
    }
}

/// The option right a lower-cased alias names.
pub open spec fn option_kind_alias(l: Seq<char>) -> Option<OptionKind> {
    if l == "call"@ {
        Some(OptionKind::Call)
    } else if l == "put"@ {
        Some(OptionKind::Put)
    } else {
        None
    }
}

impl DataFormat {
    /// Parse user-facing data-format aliases (ASCII case-insensitive).
    pub fn parse(s: &str) -> (r: Result<DataFormat, String>)
        ensures
            match r {
                Ok(f) => data_format_alias(ascii_lower(s@)) == Some(f),
                Err(m) => data_format_alias(ascii_lower(s@)).is_none() && m@
                    == "unsupported data format `"@ + s@ + "`"@,
            },
    {
        let l = lower_chars(s);
        if chars_eq(&l, "auto") {
            Ok(DataFormat::Auto)
        } else if chars_eq(&l, "ohlcv") {
            Ok(DataFormat::Ohlcv)
        } else if chars_eq(&l, "fx") {
            Ok(DataFormat::Fx)
        } else if chars_eq(&l, "jsonl") || chars_eq(&l, "events") {
            Ok(DataFormat::Jsonl)
        } else {
            Err(concat3("unsupported data format `", s, "`"))
        }
    }
}

/// Parse user-facing asset-class aliases (ASCII case-insensitive).
pub fn parse_asset_class(s: &str) -> (r: Result<AssetClass, String>)
    ensures
        match r {
            Ok(c) => asset_class_alias(ascii_lower(s@)) == Some(c),
            Err(m) => asset_class_alias(ascii_lower(s@)).is_none() && m@
                == "unsupported asset class `"@ + s@ + "`"@,
        },
{
    let l = lower_chars(s);
    if chars_eq(&l, "crypto") || chars_eq(&l, "crypto_spot") || chars_eq(&l, "spot") {
        Ok(AssetClass::Crypto)
    } else if chars_eq(&l, "equity") || chars_eq(&l, "equities") {
        Ok(AssetClass::Equity)
    } else if chars_eq(&l, "forex") || chars_eq(&l, "fx") {
        Ok(AssetClass::Forex)
    } else if chars_eq(&l, "future") || chars_eq(&l, "futures") {
        Ok(AssetClass::Future)
    } else if chars_eq(&l, "option") || chars_eq(&l, "options") {
        Ok(AssetClass::Option)
    } else if chars_eq(&l, "perpetual") || chars_eq(&l, "perp") {
        Ok(AssetClass::Perpetual)
    } else if chars_eq(&l, "bond") || chars_eq(&l, "bonds") {
        Ok(AssetClass::Bond)
    } else if chars_eq(&l, "hybrid") {
        Ok(AssetClass::Hybrid)
    } else {
        Err(concat3("unsupported asset class `", s, "`"))
    }
}

/// Parse an option right (ASCII case-insensitive).
pub fn parse_option_kind(s: &str) -> (r: Result<OptionKind, String>)
    ensures
        match r {
            Ok(k) => option_kind_alias(ascii_lower(s@)) == Some(k),
            Err(m) => option_kind_alias(ascii_lower(s@)).is_none() && m@
                == "unsupported option kind `"@ + s@ + "`; use call or put"@,
        },
{
    let l = lower_chars(s);
    if chars_eq(&l, "call") {
        Ok(OptionKind::Call)
    } else if chars_eq(&l, "put") {
        Ok(OptionKind::Put)
    } else {
        Err(concat3("unsupported option kind `", s, "`; use call or put"))
    }
}

/// Parse user-facing data-format aliases.
pub fn parse_data_format(s: &str) -> (r: Result<DataFormat, String>)
    ensures
        match r {
            Ok(f) => data_format_alias(ascii_lower(s@)) == Some(f),
            Err(m) => data_format_alias(ascii_lower(s@)).is_none() && m@
                == "unsupported data format `"@ + s@ + "`"@,
        },
{
    DataFormat::parse(s)
}

/// Split `exchange:symbol` at the first `:`; both halves must be non-empty.
pub fn parse_instrument(s: &str) -> (r: Result<InstrumentId, String>)
    ensures
        match first_index(s@, ':') {
            None => r matches Err(m) && m@ == "instrument must be exchange:symbol"@,
            Some(i) => if i == 0 || i == s@.len() - 1 {
                r matches Err(m) && m@ == "empty exchange or symbol"@
            } else {
                r matches Ok(id) && id.exchange@ == s@.subrange(0, i) && id.symbol@ == s@.subrange(
                    i + 1,
                    s@.len() as int,
                )
            },
        },
{
    let cs = chars_of(s);
    match find_char(&cs, ':') {
        None => {
            proof {
                assert(!exists|i: int| 0 <= i < s@.len() && s@[i] == ':');
            }
            Err("instrument must be exchange:symbol".to_string())
        },
        Some(i) => {
            proof {
                assert(exists|k: int| 0 <= k < s@.len() && s@[k] == ':') by {
                    assert(s@[i as int] == ':');
                }
                let f = first_index(s@, ':').unwrap();
                if f < i {
                } else if f > i {
                    assert(s@[i as int] == ':');
                }
                assert(f == i);
            }
            if i == 0 || i == cs.len() - 1 {
                Err("empty exchange or symbol".to_string())
            } else {
                let ex = slice_chars(&cs, 0, i);
                let sym = slice_chars(&cs, i + 1, cs.len());
                Ok(InstrumentId { exchange: string_of(&ex), symbol: string_of(&sym) })
            }
        },
    }
}


/// Base and quote assets inferred from a symbol: forex symbols of at least six bytes split after
/// the third byte; everything else is quoted in USD.
pub fn parse_base_quote(symbol: &str, class: AssetClass) -> (r: (String, String))
    requires
        symbol.spec_bytes().len() <= usize::MAX,
        class == AssetClass::Forex && symbol.spec_bytes().len() >= 6 ==> is_char_boundary(
            symbol.spec_bytes(),
            3,
        ),
    ensures
        if class == AssetClass::Forex && symbol.spec_bytes().len() >= 6 {
            &&& encode_utf8(r.0@) == symbol.spec_bytes().subrange(0, 3)
            &&& encode_utf8(r.1@) == symbol.spec_bytes().subrange(
                3,
                symbol.spec_bytes().len() as int,
            )
        } else {
            r.0@ == symbol@ && r.1@ == "USD"@
        },
{
    if class == AssetClass::Forex && symbol.len() >= 6 {
        let (b, q) = symbol.split_at(3);
        (b.to_owned(), q.to_owned())
    } else {
        (symbol.to_owned(), "USD".to_owned())
    }
}

} // verus!
