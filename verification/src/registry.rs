//! Checks on the instrument registry before replay: an option needs complete economics, a
//! distinct registered underlying, and replay data for both legs.

use crate::config::{AssetClass, InstrumentId};
use crate::decimal::{dec_le, value_le, zero_dec, Dec};
use crate::error::Error;
use crate::settings::BacktestConfig;
use crate::state::InstrumentMeta;
use vstd::prelude::*;

verus! {

/// An instrument id as it appears in messages: `exchange:symbol`.
pub open spec fn id_text(id: InstrumentId) -> Seq<char> {
    id.exchange@ + ":"@ + id.symbol@
}

/// The decimal is present and greater than zero.
pub open spec fn positive_opt(d: Option<Dec>) -> bool {
    d matches Some(x) && !value_le(x, zero_dec())
}

/// Kind, positive strike, positive multiplier and a non-empty expiry are all set.
pub open spec fn option_terms_complete(meta: InstrumentMeta) -> bool {
    &&& meta.option_kind is Some
    &&& positive_opt(meta.option_strike)
    &&& positive_opt(meta.contract_multiplier)
    &&& meta.expiry matches Some(e) && e@.len() > 0
}

/// Some registry entry has this id.
pub open spec fn registered(instruments: Seq<(InstrumentId, InstrumentMeta)>, id: InstrumentId) -> bool {
    exists|k: int| 0 <= k < instruments.len() && (#[trigger] instruments[k]).0.same(id)
}

/// The id is the primary instrument, or an extra instrument with its own data file.
pub open spec fn has_replay_data(config: BacktestConfig, id: InstrumentId) -> bool {
    ||| config.instrument.same(id)
    ||| exists|j: int|
        0 <= j < config.extra_instruments@.len() && (#[trigger] config.extra_instruments@[j]).data_path
            is Some && config.extra_instruments@[j].instrument.same(id)
}

/// What is wrong with one registry entry, if anything (only options are checked).
pub open spec fn option_problem(
    config: BacktestConfig,
    instruments: Seq<(InstrumentId, InstrumentMeta)>,
    id: InstrumentId,
    meta: InstrumentMeta,
) -> Option<Seq<char>> {
    if meta.asset_class != AssetClass::Option {
        None
    } else if !option_terms_complete(meta) {
        Some(
            "option "@ + id_text(id)
                + " requires option_kind, positive option_strike, contract_multiplier, and expiry"@,
        )
    } else {
        match meta.option_underlying {
            None => Some("option "@ + id_text(id) + " requires option_underlying"@),
            Some(u) => if u.same(id) || !registered(instruments, u) {
                Some(
                    "option "@ + id_text(id) + " underlying "@ + id_text(u)
                        + " is not a distinct registered instrument"@,
                )
            } else if !has_replay_data(config, id) || !has_replay_data(config, u) {
                Some(
                    "option "@ + id_text(id) + " and underlying "@ + id_text(u)
                        + " both require replay data"@,
                )
            } else {
                None
            },
        }
    }
}

/// The problem of the first of the first `n` entries that has one.
pub open spec fn first_problem(
    config: BacktestConfig,
    instruments: Seq<(InstrumentId, InstrumentMeta)>,
    n: nat,
) -> Option<Seq<char>>
    decreases n,
{
    if n == 0 {
        None
    } else {
        match first_problem(config, instruments, (n - 1) as nat) {
            Some(m) => Some(m),
            None => option_problem(
                config,
                instruments,
                instruments[n - 1].0,
                instruments[n - 1].1,
            ),
        }
    }
}

/// Once a prefix has a problem, every longer prefix reports that same problem.
proof fn lemma_first_problem_sticks(
    config: BacktestConfig,
    instruments: Seq<(InstrumentId, InstrumentMeta)>,
    n: nat,
    total: nat,
)
    requires
        n <= total,
        first_problem(config, instruments, n) is Some,
    ensures
        first_problem(config, instruments, total) == first_problem(config, instruments, n),
    decreases total - n,
{
    if n < total {
        lemma_first_problem_sticks(config, instruments, n, (total - 1) as nat);
    }
}

/// `exchange:symbol`.
fn id_string(id: &InstrumentId) -> (r: String)
    ensures
        r@ == id_text(*id),
{
    let mut s = String::new();
    s.append(id.exchange.as_str());
    s.append(":");
    s.append(id.symbol.as_str());
    s
}

/// Whether an optional decimal is present and above zero.
fn is_positive(d: Option<Dec>) -> (r: bool)
    requires
        d matches Some(x) ==> x.wf(),
    ensures
        r == positive_opt(d),
{
    match d {
        Some(x) => !dec_le(x, Dec::zero()),
        None => false,
    }
}

/// Whether some registry entry has this id.
fn is_registered(instruments: &Vec<(InstrumentId, InstrumentMeta)>, id: &InstrumentId) -> (r: bool)
    ensures
        r == registered(instruments@, *id),
{
    let mut k: usize = 0;
    while k < instruments.len()
        invariant
            k <= instruments@.len(),
            forall|i: int| 0 <= i < k ==> !(#[trigger] instruments@[i]).0.same(*id),
        decreases instruments@.len() - k,
    {
        if instruments[k].0.same_as(id) {
            return true;
        }
        k = k + 1;
    }
    false
}

/// Whether the id has replay data of its own.
fn replayed(config: &BacktestConfig, id: &InstrumentId) -> (r: bool)
    ensures
        r == has_replay_data(*config, *id),
{
    if config.instrument.same_as(id) {
        return true;
    }
    let mut j: usize = 0;
    while j < config.extra_instruments.len()
        invariant
            j <= config.extra_instruments@.len(),
            !config.instrument.same(*id),
            forall|i: int|
                0 <= i < j ==> !((#[trigger] config.extra_instruments@[i]).data_path is Some
                    && config.extra_instruments@[i].instrument.same(*id)),
        decreases config.extra_instruments@.len() - j,
    {
        let extra = &config.extra_instruments[j];
        if extra.data_path.is_some() && extra.instrument.same_as(id) {
            return true;
        }
        j = j + 1;
    }
    false
}

/// The problem of one registry entry, as the message text.
fn entry_problem(
    config: &BacktestConfig,
    instruments: &Vec<(InstrumentId, InstrumentMeta)>,
    id: &InstrumentId,
    meta: &InstrumentMeta,
) -> (r: Option<String>)
    requires
        meta.wf(),
    ensures
        match option_problem(*config, instruments@, *id, *meta) {
            None => r is None,
            Some(m) => r matches Some(t) && t@ == m,
        },
{
    if meta.asset_class != AssetClass::Option {
        return None;
    }
    let expiry_set = match &meta.expiry {
        Some(e) => e.as_str().unicode_len() > 0,
        None => false,
    };
    let complete = meta.option_kind.is_some() && is_positive(meta.option_strike)
        && is_positive(meta.contract_multiplier) && expiry_set;
    let name = id_string(id);
    if !complete {
        let mut m = "option ".to_owned();
        m.append(name.as_str());
        m.append(" requires option_kind, positive option_strike, contract_multiplier, and expiry");
        return Some(m);
    }
    let underlying = match &meta.option_underlying {
        Some(u) => u,
        None => {
            let mut m = "option ".to_owned();
            m.append(name.as_str());
            m.append(" requires option_underlying");
            return Some(m);
        },
    };
    let under_name = id_string(underlying);
    if underlying.same_as(id) || !is_registered(instruments, underlying) {
        let mut m = "option ".to_owned();
        m.append(name.as_str());
        m.append(" underlying ");
        m.append(under_name.as_str());
        m.append(" is not a distinct registered instrument");
        return Some(m);
    }
    if !replayed(config, id) || !replayed(config, underlying) {
        let mut m = "option ".to_owned();
        m.append(name.as_str());
        m.append(" and underlying ");
        m.append(under_name.as_str());
        m.append(" both require replay data");
        return Some(m);
    }
    None
}

/// Reject incomplete option economics before replay or strategy initialization. The registry
/// is read in order, each id registered once, and the first entry with a problem is reported.
pub fn validate_instruments(
    config: &BacktestConfig,
    instruments: &Vec<(InstrumentId, InstrumentMeta)>,
) -> (r: Result<(), Error>)
    requires
        forall|k: int| 0 <= k < instruments@.len() ==> (#[trigger] instruments@[k]).1.wf(),
        forall|a: int, b: int|
            0 <= a < b < instruments@.len() ==> !(#[trigger] instruments@[a]).0.same(
                #[trigger] instruments@[b].0,
            ),
    ensures
        match first_problem(*config, instruments@, instruments@.len()) {
            None => r is Ok,
            Some(m) => r matches Err(e) && e matches Error::Invalid(t) && t@ == m,
        },
{
    let mut k: usize = 0;
    while k < instruments.len()
        invariant
            k <= instruments@.len(),
            forall|i: int| 0 <= i < instruments@.len() ==> (#[trigger] instruments@[i]).1.wf(),
            first_problem(*config, instruments@, k as nat) is None,
        decreases instruments@.len() - k,
    {
        let entry = &instruments[k];
        match entry_problem(config, instruments, &entry.0, &entry.1) {
            Some(m) => {
                proof {
                    lemma_first_problem_sticks(
                        *config,
                        instruments@,
                        (k + 1) as nat,
                        instruments@.len(),
                    );
                }
                return Err(Error::Invalid(m));
            },
            None => {},
        }
        k = k + 1;
    }
    Ok(())
}

} // verus!
