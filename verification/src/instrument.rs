//! Registry metadata built from configuration: per-class contract terms and their defaults.

use crate::config::{parse_base_quote, AssetClass, InstrumentId, OptionKind};
use crate::decimal::Dec;
use crate::orders::{clone_text, opt_wf};
use crate::settings::{symbol_splittable, BacktestConfig, ExtraInstrument};
use crate::state::InstrumentMeta;
use vstd::prelude::*;

verus! {

/// The configured terms an instrument's metadata is built from.
#[derive(Debug)]
pub struct MetaFields {
    pub base: String,
    pub quote: String,
    pub asset_class: AssetClass,
    pub lot_size: Option<Dec>,
    pub tick_size: Option<Dec>,
    pub contract_multiplier: Option<Dec>,
    pub expiry: Option<String>,
    pub margin_initial_rate: Option<Dec>,
    pub option_kind: Option<OptionKind>,
    pub option_strike: Option<Dec>,
    pub option_underlying: Option<InstrumentId>,
}

impl MetaFields {
    /// Every configured decimal is well formed.
    pub open spec fn wf(self) -> bool {
        &&& opt_wf(self.lot_size)
        &&& opt_wf(self.tick_size)
        &&& opt_wf(self.contract_multiplier)
        &&& opt_wf(self.margin_initial_rate)
        &&& opt_wf(self.option_strike)
    }
}

/// The decimal `mantissa / 10^scale`.
pub open spec fn dec(mantissa: i128, scale: u32) -> Dec {
    Dec { mantissa, scale }
}

/// The value when given, else the default.
pub open spec fn or_dec(v: Option<Dec>, d: Dec) -> Dec {
    match v {
        Some(x) => x,
        None => d,
    }
}

/// Nothing of an option or a bond is set.
pub open spec fn no_option_or_bond_terms(r: InstrumentMeta) -> bool {
    &&& r.option_kind is None
    &&& r.option_strike is None
    &&& r.option_underlying is None
    &&& r.face_value is None
    &&& r.coupon_rate is None
    &&& r.coupon_payments_per_year is None
}

/// The metadata a configuration gives, by asset class:
/// - futures: multiplier 1 and tick 0.25 unless configured, expiry kept as maturity too;
/// - perpetuals: no tick or lot, initial margin 10% unless configured;
/// - options: multiplier 1, tick 0.01, kind call, strike 0, empty expiry and an empty
///   underlying id unless configured;
/// - bonds: face value from the configured multiplier (1000 unless configured), 5% coupon paid
///   twice a year, maturing at the expiry;
/// - forex: lot 100 000 and tick 0.00001 unless configured;
/// - everything else: the configured terms as they are.
pub open spec fn meta_of(f: MetaFields, r: InstrumentMeta) -> bool {
    &&& r.base@ == f.base@
    &&& r.quote@ == f.quote@
    &&& r.asset_class == f.asset_class
    &&& match f.asset_class {
        AssetClass::Future => {
            &&& r.contract_multiplier == Some(or_dec(f.contract_multiplier, dec(1, 0)))
            &&& r.tick_size == Some(or_dec(f.tick_size, dec(25, 2)))
            &&& r.lot_size == f.lot_size
            &&& r.expiry == f.expiry
            &&& r.maturity == f.expiry
            &&& r.margin_initial_rate == f.margin_initial_rate
            &&& no_option_or_bond_terms(r)
        },
        AssetClass::Perpetual => {
            &&& r.contract_multiplier == f.contract_multiplier
            &&& r.margin_initial_rate == Some(or_dec(f.margin_initial_rate, dec(1, 1)))
            &&& r.tick_size is None
            &&& r.lot_size is None
            &&& r.expiry is None
            &&& r.maturity is None
            &&& no_option_or_bond_terms(r)
        },
        AssetClass::Option => {
            &&& r.contract_multiplier == Some(or_dec(f.contract_multiplier, dec(1, 0)))
            &&& r.tick_size == Some(or_dec(f.tick_size, dec(1, 2)))
            &&& r.lot_size is None
            &&& r.margin_initial_rate == f.margin_initial_rate
            &&& r.expiry matches Some(e) && e@ == match f.expiry {
                Some(x) => x@,
                None => Seq::<char>::empty(),
            }
            &&& r.maturity == r.expiry
            &&& r.option_kind == Some(
                match f.option_kind {
                    Some(k) => k,
                    None => OptionKind::Call,
                },
            )
            &&& r.option_strike == Some(or_dec(f.option_strike, dec(0, 0)))
            &&& match f.option_underlying {
                Some(u) => r.option_underlying == Some(u),
                None => r.option_underlying matches Some(u) && u.exchange@.len() == 0
                    && u.symbol@.len() == 0,
            }
            &&& r.face_value is None
            &&& r.coupon_rate is None
            &&& r.coupon_payments_per_year is None
        },
        AssetClass::Bond => {
            &&& r.face_value == Some(or_dec(f.contract_multiplier, dec(1000, 0)))
            &&& r.coupon_rate == Some(dec(5, 2))
            &&& r.coupon_payments_per_year == Some(2u32)
            &&& r.maturity == f.expiry
            &&& r.expiry == f.expiry
            &&& r.contract_multiplier is None
            &&& r.tick_size is None
            &&& r.lot_size is None
            &&& r.margin_initial_rate is None
            &&& r.option_kind is None
            &&& r.option_strike is None
            &&& r.option_underlying is None
        },
        AssetClass::Forex => {
            &&& r.lot_size == Some(or_dec(f.lot_size, dec(100000, 0)))
            &&& r.contract_multiplier == f.contract_multiplier
            &&& r.tick_size == Some(or_dec(f.tick_size, dec(1, 5)))
            &&& r.expiry == f.expiry
            &&& r.maturity == f.expiry
            &&& r.margin_initial_rate == f.margin_initial_rate
            &&& no_option_or_bond_terms(r)
        },
        _ => {
            &&& r.lot_size == f.lot_size
            &&& r.contract_multiplier == f.contract_multiplier
            &&& r.tick_size == f.tick_size
            &&& r.expiry == f.expiry
            &&& r.maturity == f.expiry
            &&& r.margin_initial_rate == f.margin_initial_rate
            &&& no_option_or_bond_terms(r)
        },
    }
}

fn dec_or(v: Option<Dec>, d: Dec) -> (r: Dec)
    ensures
        r == or_dec(v, d),
{
    match v {
        Some(x) => x,
        None => d,
    }
}

/// Registry metadata for configured terms, filling in each class's defaults.
pub fn build_instrument_meta(fields: &MetaFields) -> (r: InstrumentMeta)
    requires
        fields.wf(),
    ensures
        meta_of(*fields, r),
        r.wf(),
{
    let f = fields;
    let base = f.base.clone();
    let quote = f.quote.clone();
    match f.asset_class {
        AssetClass::Future => InstrumentMeta {
            base,
            quote,
            asset_class: f.asset_class,
            tick_size: Some(dec_or(f.tick_size, Dec::new(25, 2))),
            lot_size: f.lot_size,
            contract_multiplier: Some(dec_or(f.contract_multiplier, Dec::new(1, 0))),
            margin_initial_rate: f.margin_initial_rate,
            expiry: clone_text(&f.expiry),
            option_kind: None,
            option_strike: None,
            option_underlying: None,
            face_value: None,
            coupon_rate: None,
            coupon_payments_per_year: None,
            maturity: clone_text(&f.expiry),
        },
        AssetClass::Perpetual => InstrumentMeta {
            base,
            quote,
            asset_class: f.asset_class,
            tick_size: None,
            lot_size: None,
            contract_multiplier: f.contract_multiplier,
            margin_initial_rate: Some(dec_or(f.margin_initial_rate, Dec::new(1, 1))),
            expiry: None,
            option_kind: None,
            option_strike: None,
            option_underlying: None,
            face_value: None,
            coupon_rate: None,
            coupon_payments_per_year: None,
            maturity: None,
        },
        AssetClass::Option => {
            let expiry = match &f.expiry {
                Some(e) => e.clone(),
                None => String::new(),
            };
            let underlying = match &f.option_underlying {
                Some(u) => u.clone(),
                None => InstrumentId::new("", ""),
            };
            proof {
                reveal_strlit("");
            }
            InstrumentMeta {
                base,
                quote,
                asset_class: f.asset_class,
                tick_size: Some(dec_or(f.tick_size, Dec::new(1, 2))),
                lot_size: None,
                contract_multiplier: Some(dec_or(f.contract_multiplier, Dec::new(1, 0))),
                margin_initial_rate: f.margin_initial_rate,
                expiry: Some(expiry.clone()),
                option_kind: Some(
                    match f.option_kind {
                        Some(k) => k,
                        None => OptionKind::Call,
                    },
                ),
                option_strike: Some(dec_or(f.option_strike, Dec::new(0, 0))),
                option_underlying: Some(underlying),
                face_value: None,
                coupon_rate: None,
                coupon_payments_per_year: None,
                maturity: Some(expiry),
            }
        },
        AssetClass::Bond => InstrumentMeta {
            base,
            quote,
            asset_class: f.asset_class,
            tick_size: None,
            lot_size: None,
            contract_multiplier: None,
            margin_initial_rate: None,
            expiry: clone_text(&f.expiry),
            option_kind: None,
            option_strike: None,
            option_underlying: None,
            face_value: Some(dec_or(f.contract_multiplier, Dec::new(1000, 0))),
            coupon_rate: Some(Dec::new(5, 2)),
            coupon_payments_per_year: Some(2),
            maturity: clone_text(&f.expiry),
        },
        AssetClass::Forex => InstrumentMeta {
            base,
            quote,
            asset_class: f.asset_class,
            tick_size: Some(dec_or(f.tick_size, Dec::new(1, 5))),
            lot_size: Some(dec_or(f.lot_size, Dec::new(100000, 0))),
            contract_multiplier: f.contract_multiplier,
            margin_initial_rate: f.margin_initial_rate,
            expiry: clone_text(&f.expiry),
            option_kind: None,
            option_strike: None,
            option_underlying: None,
            face_value: None,
            coupon_rate: None,
            coupon_payments_per_year: None,
            maturity: clone_text(&f.expiry),
        },
        _ => InstrumentMeta {
            base,
            quote,
            asset_class: f.asset_class,
            tick_size: f.tick_size,
            lot_size: f.lot_size,
            contract_multiplier: f.contract_multiplier,
            margin_initial_rate: f.margin_initial_rate,
            expiry: clone_text(&f.expiry),
            option_kind: None,
            option_strike: None,
            option_underlying: None,
            face_value: None,
            coupon_rate: None,
            coupon_payments_per_year: None,
            maturity: clone_text(&f.expiry),
        },
    }
}


/// The configured terms of the primary instrument, with the given base and quote.
pub open spec fn config_fields(cfg: BacktestConfig, base: String, quote: String) -> MetaFields {
    MetaFields {
        base,
        quote,
        asset_class: cfg.asset_class,
        lot_size: cfg.lot_size,
        tick_size: cfg.tick_size,
        contract_multiplier: cfg.contract_multiplier,
        expiry: cfg.expiry,
        margin_initial_rate: cfg.margin_initial_rate,
        option_kind: cfg.option_kind,
        option_strike: cfg.option_strike,
        option_underlying: cfg.option_underlying,
    }
}

/// The configured terms of an extra instrument, with the given base and quote.
pub open spec fn extra_fields(extra: ExtraInstrument, base: String, quote: String) -> MetaFields {
    MetaFields {
        base,
        quote,
        asset_class: extra.asset_class,
        lot_size: extra.lot_size,
        tick_size: extra.tick_size,
        contract_multiplier: extra.contract_multiplier,
        expiry: extra.expiry,
        margin_initial_rate: extra.margin_initial_rate,
        option_kind: extra.option_kind,
        option_strike: extra.option_strike,
        option_underlying: extra.option_underlying,
    }
}

/// Registry metadata of the primary instrument: the resolved base and quote with the
/// configured terms.
pub fn instrument_meta_from_config(cfg: &BacktestConfig) -> (r: InstrumentMeta)
    requires
        !(cfg.base_asset is Some && cfg.quote_asset is Some) ==> symbol_splittable(
            cfg.instrument.symbol@,
            cfg.asset_class,
        ),
        config_fields(*cfg, cfg.instrument.symbol, cfg.instrument.symbol).wf(),
    ensures
        meta_of(config_fields(*cfg, r.base, r.quote), r),
        match (cfg.base_asset, cfg.quote_asset) {
            (Some(b), Some(q)) => r.base@ == b@ && r.quote@ == q@,
            _ => crate::settings::symbol_base_quote(
                cfg.instrument.symbol@,
                cfg.asset_class,
                r.base@,
                r.quote@,
            ),
        },
{
    let (base, quote) = cfg.resolved_base_quote();
    let fields = MetaFields {
        base,
        quote,
        asset_class: cfg.asset_class,
        lot_size: cfg.lot_size,
        tick_size: cfg.tick_size,
        contract_multiplier: cfg.contract_multiplier,
        expiry: clone_text(&cfg.expiry),
        margin_initial_rate: cfg.margin_initial_rate,
        option_kind: cfg.option_kind,
        option_strike: cfg.option_strike,
        option_underlying: match &cfg.option_underlying {
            Some(u) => Some(u.clone()),
            None => None,
        },
    };
    build_instrument_meta(&fields)
}

/// Registry metadata of an extra instrument: base and quote from its symbol, with its terms.
pub fn instrument_meta_from_extra(extra: &ExtraInstrument) -> (r: InstrumentMeta)
    requires
        symbol_splittable(extra.instrument.symbol@, extra.asset_class),
        extra_fields(*extra, extra.instrument.symbol, extra.instrument.symbol).wf(),
    ensures
        meta_of(extra_fields(*extra, r.base, r.quote), r),
        crate::settings::symbol_base_quote(
            extra.instrument.symbol@,
            extra.asset_class,
            r.base@,
            r.quote@,
        ),
{
    let (base, quote) = parse_base_quote(extra.instrument.symbol.as_str(), extra.asset_class);
    let fields = MetaFields {
        base,
        quote,
        asset_class: extra.asset_class,
        lot_size: extra.lot_size,
        tick_size: extra.tick_size,
        contract_multiplier: extra.contract_multiplier,
        expiry: clone_text(&extra.expiry),
        margin_initial_rate: extra.margin_initial_rate,
        option_kind: extra.option_kind,
        option_strike: extra.option_strike,
        option_underlying: match &extra.option_underlying {
            Some(u) => Some(u.clone()),
            None => None,
        },
    };
    build_instrument_meta(&fields)
}

} // verus!
