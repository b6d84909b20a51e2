//! Backtest settings and how a settings file merges into them: every numeric value is checked
//! (nonnegative costs, positive sizes, rates in (0, 1]) and paths are resolved against the
//! file's directory.
//!
//! The floating-point settings (periods per year, annual risk-free rate) and the free-form
//! strategy parameters are held beside these settings by the program; the merge here takes
//! whether each float was given and valid, so that it refuses the same files in the same order.

use crate::config::{
    asset_class_alias, data_format_alias, parse_asset_class, parse_base_quote, parse_data_format,
    AssetClass, DataFormat, InstrumentId, OptionKind,
};
use crate::decimal::{dec_lt, dec_parse, decimal_parse, opt_dec, value_lt, Dec};
use crate::error::Error;
use crate::state::{find_balance, lemma_find_balance, opt_index, Balance};
use crate::strategy::{join_path, join_path_text};
use crate::text::{ascii_lower, concat3};
use vstd::prelude::*;
use vstd::string::StringSliceAdditionalSpecFns;
use vstd::utf8::{encode_utf8, is_char_boundary};

verus! {

/// Extra instrument registered alongside the primary backtest symbol.
#[derive(Debug)]
pub struct ExtraInstrument {
    pub instrument: InstrumentId,
    pub asset_class: AssetClass,
    pub lot_size: Option<Dec>,
    pub tick_size: Option<Dec>,
    pub contract_multiplier: Option<Dec>,
    pub expiry: Option<String>,
    pub margin_initial_rate: Option<Dec>,
    pub option_kind: Option<OptionKind>,
    pub option_strike: Option<Dec>,
    pub option_underlying: Option<InstrumentId>,
    /// Historical data for this symbol (multi-instrument replay).
    pub data_path: Option<String>,
    /// Layout of `data_path`.
    pub data_format: Option<DataFormat>,
}

/// User-facing backtest settings.
#[derive(Debug)]
pub struct BacktestConfig {
    pub data_path: String,
    pub data_format: DataFormat,
    pub instrument: InstrumentId,
    pub asset_class: AssetClass,
    /// Initial balances, one per asset.
    pub balances: Vec<Balance>,
    pub fee_bps: Dec,
    pub slippage_bps: Dec,
    pub half_spread_bps: Dec,
    /// Quantity used by the built-in buy-and-hold strategy; one instrument lot when omitted.
    pub buy_and_hold_qty: Option<Dec>,
    /// Declared bar interval (e.g. `30m`, `1d`).
    pub bar_interval: Option<String>,
    /// Session filter: `none`, `equity_rth`, `forex_245`.
    pub session_filter: Option<String>,
    /// Derive the annualization from the bar interval or the bar spacing.
    pub auto_periods_per_year: bool,
    pub lot_size: Option<Dec>,
    pub tick_size: Option<Dec>,
    pub contract_multiplier: Option<Dec>,
    pub expiry: Option<String>,
    pub option_kind: Option<OptionKind>,
    pub option_strike: Option<Dec>,
    pub option_underlying: Option<InstrumentId>,
    pub record_equity_curve: bool,
    pub strategy_path: Option<String>,
    pub python_exe: String,
    pub output_path: Option<String>,
    pub verbose: bool,
    /// Max absolute position in base units for the primary instrument.
    pub max_position_abs: Option<Dec>,
    /// Default initial margin rate when the instrument sets none.
    pub margin_initial_rate: Option<Dec>,
    /// Max daily loss in primary quote units.
    pub max_daily_loss_quote: Option<Dec>,
    pub extra_instruments: Vec<ExtraInstrument>,
    /// Explicit base asset when symbol parsing is insufficient.
    pub base_asset: Option<String>,
    /// Explicit quote asset when symbol parsing is insufficient.
    pub quote_asset: Option<String>,
}

impl Default for BacktestConfig {
    /// `test:EXAMPLE` equity quoted in USD, 10 bps fee, 5 bps slippage and half spread, automatic
    /// annualization, equity curve recorded, `python` as interpreter, nothing else set.
    fn default() -> (r: BacktestConfig)
        ensures
            r.data_path@ == Seq::<char>::empty(),
            r.data_format == DataFormat::Auto,
            r.instrument.exchange@ == "test"@,
            r.instrument.symbol@ == "EXAMPLE"@,
            r.asset_class == AssetClass::Equity,
            r.balances@.len() == 0,
            r.base_asset matches Some(b) && b@ == "EXAMPLE"@,
            r.quote_asset matches Some(q) && q@ == "USD"@,
            r.fee_bps == (Dec { mantissa: 10, scale: 0 }),
            r.slippage_bps == (Dec { mantissa: 5, scale: 0 }),
            r.half_spread_bps == (Dec { mantissa: 5, scale: 0 }),
            r.buy_and_hold_qty.is_none(),
            r.bar_interval.is_none(),
            r.session_filter.is_none(),
            r.auto_periods_per_year,
            r.lot_size.is_none(),
            r.tick_size.is_none(),
            r.contract_multiplier.is_none(),
            r.expiry.is_none(),
            r.option_kind.is_none(),
            r.option_strike.is_none(),
            r.option_underlying.is_none(),
            r.record_equity_curve,
            r.strategy_path.is_none(),
            r.python_exe@ == "python"@,
            r.output_path.is_none(),
            !r.verbose,
            r.max_position_abs.is_none(),
            r.margin_initial_rate.is_none(),
            r.max_daily_loss_quote.is_none(),
            r.extra_instruments@.len() == 0,
    {
        BacktestConfig {
            data_path: String::new(),
            data_format: DataFormat::Auto,
            instrument: InstrumentId::new("test", "EXAMPLE"),
            asset_class: AssetClass::Equity,
            balances: Vec::new(),
            fee_bps: Dec::new(10, 0),
            slippage_bps: Dec::new(5, 0),
            half_spread_bps: Dec::new(5, 0),
            buy_and_hold_qty: None,
            bar_interval: None,
            session_filter: None,
            auto_periods_per_year: true,
            lot_size: None,
            tick_size: None,
            contract_multiplier: None,
            expiry: None,
            option_kind: None,
            option_strike: None,
            option_underlying: None,
            record_equity_curve: true,
            strategy_path: None,
            python_exe: "python".to_owned(),
            output_path: None,
            verbose: false,
            max_position_abs: None,
            margin_initial_rate: None,
            max_daily_loss_quote: None,
            extra_instruments: Vec::new(),
            base_asset: Some("EXAMPLE".to_owned()),
            quote_asset: Some("USD".to_owned()),
        }
    }
}

/// Symbol parsing needs no byte split inside a character (a forex symbol of six or more bytes
/// is split after its third byte).
pub open spec fn symbol_splittable(symbol: Seq<char>, class: AssetClass) -> bool {
    &&& encode_utf8(symbol).len() <= usize::MAX
    &&& class == AssetClass::Forex && encode_utf8(symbol).len() >= 6 ==> is_char_boundary(
        encode_utf8(symbol),
        3,
    )
}

/// The base and quote a symbol gives for an asset class: a forex symbol of six or more bytes
/// splits after its third byte; anything else is quoted in USD.
pub open spec fn symbol_base_quote(symbol: Seq<char>, class: AssetClass, base: Seq<char>, quote: Seq<char>) -> bool {
    let b = encode_utf8(symbol);
    if class == AssetClass::Forex && b.len() >= 6 {
        &&& encode_utf8(base) == b.subrange(0, 3)
        &&& encode_utf8(quote) == b.subrange(3, b.len() as int)
    } else {
        base == symbol && quote == "USD"@
    }
}

impl BacktestConfig {
    /// The base and quote used for the instrument: the explicit pair when both are set, else
    /// what the symbol gives for the asset class.
    pub fn resolved_base_quote(&self) -> (r: (String, String))
        requires
            !(self.base_asset is Some && self.quote_asset is Some) ==> symbol_splittable(
                self.instrument.symbol@,
                self.asset_class,
            ),
        ensures
            match (self.base_asset, self.quote_asset) {
                (Some(b), Some(q)) => r.0@ == b@ && r.1@ == q@,
                _ => symbol_base_quote(self.instrument.symbol@, self.asset_class, r.0@, r.1@),
            },
    {
        match (&self.base_asset, &self.quote_asset) {
            (Some(b), Some(q)) => (b.clone(), q.clone()),
            _ => parse_base_quote(self.instrument.symbol.as_str(), self.asset_class),
        }
    }

    /// Cash to start with when none is configured: 10 000 of the resolved quote asset.
    pub fn default_balances(&self) -> (r: Vec<Balance>)
        requires
            !(self.base_asset is Some && self.quote_asset is Some) ==> symbol_splittable(
                self.instrument.symbol@,
                self.asset_class,
            ),
        ensures
            r@.len() == 1,
            r@[0].free == (Dec { mantissa: 10000, scale: 0 }),
            match (self.base_asset, self.quote_asset) {
                (Some(b), Some(q)) => r@[0].asset@ == q@,
                _ => exists|base: Seq<char>|
                    symbol_base_quote(self.instrument.symbol@, self.asset_class, base, r@[0].asset@),
            },
    {
        let (base, quote) = self.resolved_base_quote();
        let mut v: Vec<Balance> = Vec::new();
        v.push(Balance { asset: quote, free: Dec::new(10000, 0) });
        proof {
            assert(symbol_base_quote(self.instrument.symbol@, self.asset_class, base@, v@[0].asset@)
                || self.base_asset is Some && self.quote_asset is Some);
        }
        v
    }
}

/// A number as a settings file writes it: text or an integer. (The program reading the file
/// turns a finite float into its text and refuses a non-finite one.)
#[derive(Debug)]
pub enum DecimalValue {
    Text(String),
    Integer(i64),
}

/// What a numeric setting must satisfy.
#[derive(Clone, Copy, Debug, PartialEq, Eq, Structural)]
pub enum ValueRule {
    /// Any decimal.
    Any,
    /// Zero or more.
    Nonnegative,
    /// More than zero.
    Positive,
    /// More than zero and at most one.
    Rate,
}

/// The decimal a setting denotes, if its text reads as one.
pub open spec fn value_of(v: DecimalValue) -> Option<Dec> {
    match v {
        DecimalValue::Text(t) => opt_dec(decimal_parse(t@)),
        DecimalValue::Integer(i) => Some(Dec { mantissa: i as i128, scale: 0 }),
    }
}

/// The text of a setting written as text.
pub open spec fn text_of(v: DecimalValue) -> Seq<char> {
    match v {
        DecimalValue::Text(t) => t@,
        DecimalValue::Integer(_) => Seq::empty(),
    }
}

/// Whether a decimal satisfies a rule.
pub open spec fn rule_holds(d: Dec, rule: ValueRule) -> bool {
    match rule {
        ValueRule::Any => true,
        ValueRule::Nonnegative => d.mantissa >= 0,
        ValueRule::Positive => d.mantissa > 0,
        ValueRule::Rate => d.mantissa > 0 && !value_lt(Dec { mantissa: 1, scale: 0 }, d),
    }
}

/// The value rules nest: a rate (greater than zero and at most one) is positive, a positive
/// value is nonnegative, and any value passes `Any`; a zero passes only `Nonnegative` and `Any`,
/// and one is a valid rate.
pub proof fn law_value_rules_nest(d: Dec)
    ensures
        rule_holds(d, ValueRule::Rate) ==> rule_holds(d, ValueRule::Positive),
        rule_holds(d, ValueRule::Positive) ==> rule_holds(d, ValueRule::Nonnegative),
        rule_holds(d, ValueRule::Any),
        d.mantissa == 0 ==> rule_holds(d, ValueRule::Nonnegative) && !rule_holds(
            d,
            ValueRule::Positive,
        ) && !rule_holds(d, ValueRule::Rate),
        d.mantissa < 0 ==> !rule_holds(d, ValueRule::Nonnegative),
        rule_holds(Dec { mantissa: 1, scale: 0 }, ValueRule::Rate),
{
    vstd::arithmetic::power::lemma_pow0(10);
}

/// How a broken rule is reported after the field name.
pub open spec fn rule_message(rule: ValueRule) -> Seq<char> {
    match rule {
        ValueRule::Any => Seq::empty(),
        ValueRule::Nonnegative => "must be nonnegative"@,
        ValueRule::Positive => "must be positive"@,
        ValueRule::Rate => "must be greater than zero and at most one"@,
    }
}

/// A checked setting: its decimal, or the message naming the field.
pub open spec fn checked_value(v: DecimalValue, field: Seq<char>, rule: ValueRule) -> Result<Dec, Seq<char>> {
    match value_of(v) {
        None => Err(field + " invalid decimal `"@ + text_of(v) + "`"@),
        Some(d) => if rule_holds(d, rule) {
            Ok(d)
        } else {
            Err(field + " "@ + rule_message(rule))
        },
    }
}

/// An optional checked setting.
pub open spec fn opt_checked(v: Option<DecimalValue>, field: Seq<char>, rule: ValueRule) -> Result<Option<Dec>, Seq<char>> {
    match v {
        None => Ok(None),
        Some(x) => match checked_value(x, field, rule) {
            Ok(d) => Ok(Some(d)),
            Err(m) => Err(m),
        },
    }
}

/// The error of a checked outcome, if any.
pub open spec fn error_of<T>(r: Result<T, Seq<char>>) -> Option<Seq<char>> {
    match r {
        Ok(_) => None,
        Err(m) => Some(m),
    }
}

/// The first of two possible errors.
pub open spec fn first_error(a: Option<Seq<char>>, b: Option<Seq<char>>) -> Option<Seq<char>> {
    if a is Some {
        a
    } else {
        b
    }
}

/// `r` is the invalid-settings error with message `m`.
pub open spec fn is_invalid(e: Error, m: Seq<char>) -> bool {
    e matches Error::Invalid(t) && t@ == m
}

/// `r` reports the checked outcome `c`.
pub open spec fn reports<T>(r: Result<T, Error>, c: Result<T, Seq<char>>) -> bool {
    match c {
        Ok(v) => r matches Ok(x) && x == v,
        Err(m) => r matches Err(e) && is_invalid(e, m),
    }
}

impl DecimalValue {
    /// Read the setting and check it against `rule`; errors name `field`.
    pub fn check(self, field: &str, rule: ValueRule) -> (r: Result<Dec, Error>)
        ensures
            reports(r, checked_value(self, field@, rule)),
            r matches Ok(d) ==> d.wf(),
    {
        let d = match self {
            DecimalValue::Text(t) => match dec_parse(t.as_str()) {
                Some(d) => d,
                None => {
                    let mut m = field.to_owned();
                    m.append(" invalid decimal `");
                    m.append(t.as_str());
                    m.append("`");
                    return Err(Error::Invalid(m));
                },
            },
            DecimalValue::Integer(i) => Dec::from_i64(i),
        };
        let ok = match rule {
            ValueRule::Any => true,
            ValueRule::Nonnegative => d.mantissa >= 0,
            ValueRule::Positive => d.mantissa > 0,
            ValueRule::Rate => d.mantissa > 0 && !dec_lt(Dec::one(), d),
        };
        if ok {
            Ok(d)
        } else {
            let msg = match rule {
                ValueRule::Any => "",
                ValueRule::Nonnegative => "must be nonnegative",
                ValueRule::Positive => "must be positive",
                ValueRule::Rate => "must be greater than zero and at most one",
            };
            Err(Error::Invalid(concat3(field, " ", msg)))
        }
    }

    /// The decimal the setting denotes.
    pub fn parse(self, field: &str) -> (r: Result<Dec, Error>)
        ensures
            reports(r, checked_value(self, field@, ValueRule::Any)),
            r matches Ok(d) ==> d.wf(),
    {
        self.check(field, ValueRule::Any)
    }

    /// The decimal, which must be zero or more.
    pub fn nonnegative(self, field: &str) -> (r: Result<Dec, Error>)
        ensures
            reports(r, checked_value(self, field@, ValueRule::Nonnegative)),
            r matches Ok(d) ==> d.wf(),
    {
        self.check(field, ValueRule::Nonnegative)
    }

    /// The decimal, which must be more than zero.
    pub fn positive(self, field: &str) -> (r: Result<Dec, Error>)
        ensures
            reports(r, checked_value(self, field@, ValueRule::Positive)),
            r matches Ok(d) ==> d.wf(),
    {
        self.check(field, ValueRule::Positive)
    }

    /// The decimal, which must be more than zero and at most one.
    pub fn rate(self, field: &str) -> (r: Result<Dec, Error>)
        ensures
            reports(r, checked_value(self, field@, ValueRule::Rate)),
            r matches Ok(d) ==> d.wf(),
    {
        self.check(field, ValueRule::Rate)
    }
}

/// An optional setting checked against `rule`.
pub fn parse_checked(value: Option<DecimalValue>, field: &str, rule: ValueRule) -> (r: Result<Option<Dec>, Error>)
    ensures
        reports(r, opt_checked(value, field@, rule)),
        r matches Ok(Some(d)) ==> d.wf(),
{
    match value {
        None => Ok(None),
        Some(v) => match v.check(field, rule) {
            Ok(d) => Ok(Some(d)),
            Err(e) => Err(e),
        },
    }
}

/// An optional setting that must be positive.
pub fn parse_positive(value: Option<DecimalValue>, field: &str) -> (r: Result<Option<Dec>, Error>)
    ensures
        reports(r, opt_checked(value, field@, ValueRule::Positive)),
        r matches Ok(Some(d)) ==> d.wf(),
{
    parse_checked(value, field, ValueRule::Positive)
}

/// A path from a settings file: absolute paths stand, relative ones are taken from the file's
/// directory when it has one.
pub open spec fn resolved_path(base_dir: Option<Seq<char>>, value: Seq<char>) -> Seq<char> {
    if value.len() > 0 && value[0] == '/' {
        value
    } else {
        match base_dir {
            Some(b) => join_path(b, value),
            None => value,
        }
    }
}

/// Resolve a path written in a settings file.
pub fn resolve_path(base_dir: Option<&str>, value: &str) -> (r: String)
    ensures
        r@ == resolved_path(
            match base_dir {
                Some(b) => Some(b@),
                None => None,
            },
            value@,
        ),
{
    match base_dir {
        Some(b) => join_path_text(b, value),
        None => value.to_owned(),
    }
}

/// Asset class written for an extra instrument that names none.
pub fn default_asset_class() -> (r: String)
    ensures
        r@ == "crypto"@,
{
    "crypto".to_owned()
}

/// The `[instrument]` section of a settings file.
#[derive(Debug)]
pub struct InstrumentConfig {
    pub exchange: Option<String>,
    pub symbol: Option<String>,
    pub asset_class: Option<String>,
    pub lot_size: Option<DecimalValue>,
    pub tick_size: Option<DecimalValue>,
    pub contract_multiplier: Option<DecimalValue>,
    pub expiry: Option<String>,
    pub base_asset: Option<String>,
    pub quote_asset: Option<String>,
}

/// The instrument fields of two settings agree.
pub open spec fn same_instrument_part(c: BacktestConfig, n: BacktestConfig) -> bool {
    &&& n.instrument == c.instrument
    &&& n.asset_class == c.asset_class
    &&& n.lot_size == c.lot_size
    &&& n.tick_size == c.tick_size
    &&& n.contract_multiplier == c.contract_multiplier
    &&& n.expiry == c.expiry
    &&& n.base_asset == c.base_asset
    &&& n.quote_asset == c.quote_asset
}

/// The run fields of two settings agree.
pub open spec fn same_run_part(c: BacktestConfig, n: BacktestConfig) -> bool {
    &&& n.data_path == c.data_path
    &&& n.data_format == c.data_format
    &&& n.fee_bps == c.fee_bps
    &&& n.slippage_bps == c.slippage_bps
    &&& n.half_spread_bps == c.half_spread_bps
    &&& n.buy_and_hold_qty == c.buy_and_hold_qty
    &&& n.bar_interval == c.bar_interval
    &&& n.session_filter == c.session_filter
    &&& n.auto_periods_per_year == c.auto_periods_per_year
    &&& n.output_path == c.output_path
    &&& n.strategy_path == c.strategy_path
    &&& n.python_exe == c.python_exe
    &&& n.record_equity_curve == c.record_equity_curve
    &&& n.max_position_abs == c.max_position_abs
    &&& n.max_daily_loss_quote == c.max_daily_loss_quote
    &&& n.margin_initial_rate == c.margin_initial_rate
}

/// The remaining fields of two settings agree.
pub open spec fn same_rest(c: BacktestConfig, n: BacktestConfig) -> bool {
    &&& n.balances@ == c.balances@
    &&& n.extra_instruments@ == c.extra_instruments@
    &&& n.option_kind == c.option_kind
    &&& n.option_strike == c.option_strike
    &&& n.option_underlying == c.option_underlying
    &&& n.verbose == c.verbose
}

/// A setting replaced by a checked optional value when one is given.
pub open spec fn given_or(old: Option<Dec>, c: Result<Option<Dec>, Seq<char>>) -> Option<Dec> {
    match c {
        Ok(Some(d)) => Some(d),
        _ => old,
    }
}

/// A text setting replaced when one is given.
pub open spec fn text_or(old: Option<String>, given: Option<String>) -> Option<String> {
    if given is Some {
        given
    } else {
        old
    }
}

/// Why an asset-class setting is refused, if it is.
pub open spec fn asset_class_error(a: Option<String>) -> Option<Seq<char>> {
    match a {
        Some(x) => if asset_class_alias(ascii_lower(x@)).is_none() {
            Some("unsupported asset class `"@ + x@ + "`"@)
        } else {
            None
        },
        None => None,
    }
}

/// The asset class after an optional asset-class setting.
pub open spec fn asset_class_or(old: AssetClass, a: Option<String>) -> AssetClass {
    match a {
        Some(x) => match asset_class_alias(ascii_lower(x@)) {
            Some(k) => k,
            None => old,
        },
        None => old,
    }
}

/// Why an `[instrument]` section is refused, if it is (the first problem in reading order).
pub open spec fn instrument_error(ic: InstrumentConfig) -> Option<Seq<char>> {
    first_error(
        if ic.exchange.is_some() != ic.symbol.is_some() {
            Some("instrument exchange and symbol must be set together"@)
        } else {
            None
        },
        first_error(
            asset_class_error(ic.asset_class),
            first_error(
                error_of(opt_checked(ic.lot_size, "instrument.lot_size"@, ValueRule::Positive)),
                first_error(
                    error_of(opt_checked(ic.tick_size, "instrument.tick_size"@, ValueRule::Positive)),
                    error_of(
                        opt_checked(
                            ic.contract_multiplier,
                            "instrument.contract_multiplier"@,
                            ValueRule::Positive,
                        ),
                    ),
                ),
            ),
        ),
    )
}

/// `n` is `c` with an accepted `[instrument]` section applied.
pub open spec fn instrument_applied(c: BacktestConfig, ic: InstrumentConfig, n: BacktestConfig) -> bool {
    &&& match (ic.exchange, ic.symbol) {
        (Some(e), Some(y)) => n.instrument.exchange@ == e@ && n.instrument.symbol@ == y@,
        _ => n.instrument == c.instrument,
    }
    &&& n.asset_class == asset_class_or(c.asset_class, ic.asset_class)
    &&& n.lot_size == given_or(
        c.lot_size,
        opt_checked(ic.lot_size, "instrument.lot_size"@, ValueRule::Positive),
    )
    &&& n.tick_size == given_or(
        c.tick_size,
        opt_checked(ic.tick_size, "instrument.tick_size"@, ValueRule::Positive),
    )
    &&& n.contract_multiplier == given_or(
        c.contract_multiplier,
        opt_checked(ic.contract_multiplier, "instrument.contract_multiplier"@, ValueRule::Positive),
    )
    &&& n.expiry == text_or(c.expiry, ic.expiry)
    &&& n.base_asset == text_or(c.base_asset, ic.base_asset)
    &&& n.quote_asset == text_or(c.quote_asset, ic.quote_asset)
    &&& same_run_part(c, n)
    &&& same_rest(c, n)
}

/// Set an asset class from its text.
fn set_asset_class(config: &mut BacktestConfig, value: Option<String>) -> (r: Result<(), Error>)
    ensures
        match asset_class_error(value) {
            Some(m) => r matches Err(e) && is_invalid(e, m),
            None => r is Ok && final(config).asset_class == asset_class_or(
                old(config).asset_class,
                value,
            ),
        },
        final(config).instrument == old(config).instrument,
        final(config).lot_size == old(config).lot_size,
        final(config).tick_size == old(config).tick_size,
        final(config).contract_multiplier == old(config).contract_multiplier,
        final(config).expiry == old(config).expiry,
        final(config).base_asset == old(config).base_asset,
        final(config).quote_asset == old(config).quote_asset,
        same_run_part(*old(config), *final(config)),
        same_rest(*old(config), *final(config)),
{
    if let Some(v) = value {
        match parse_asset_class(v.as_str()) {
            Ok(k) => {
                config.asset_class = k;
            },
            Err(m) => {
                return Err(Error::Invalid(m));
            },
        }
    }
    Ok(())
}

impl InstrumentConfig {
    /// Apply the `[instrument]` section: exchange and symbol together, the asset class, positive
    /// lot, tick and multiplier, then expiry and the explicit base and quote.
    pub fn apply(self, config: &mut BacktestConfig) -> (r: Result<(), Error>)
        ensures
            match instrument_error(self) {
                Some(m) => r matches Err(e) && is_invalid(e, m),
                None => r is Ok && instrument_applied(*old(config), self, *final(config)),
            },
    {
        let InstrumentConfig {
            exchange,
            symbol,
            asset_class,
            lot_size,
            tick_size,
            contract_multiplier,
            expiry,
            base_asset,
            quote_asset,
        } = self;
        match (exchange, symbol) {
            (Some(e), Some(y)) => {
                config.instrument = InstrumentId { exchange: e, symbol: y };
            },
            (None, None) => {},
            _ => {
                return Err(
                    Error::Invalid("instrument exchange and symbol must be set together".to_owned()),
                );
            },
        }
        set_asset_class(config, asset_class)?;
        if let Some(v) = lot_size {
            config.lot_size = Some(v.positive("instrument.lot_size")?);
        }
        if let Some(v) = tick_size {
            config.tick_size = Some(v.positive("instrument.tick_size")?);
        }
        if let Some(v) = contract_multiplier {
            config.contract_multiplier = Some(v.positive("instrument.contract_multiplier")?);
        }
        if expiry.is_some() {
            config.expiry = expiry;
        }
        if base_asset.is_some() {
            config.base_asset = base_asset;
        }
        if quote_asset.is_some() {
            config.quote_asset = quote_asset;
        }
        Ok(())
    }
}

/// The `[backtest]` section of a settings file. The two float settings are carried as whether
/// they were given and whether they are acceptable; their values are kept by the program.
#[derive(Debug)]
pub struct RunConfig {
    pub data: Option<String>,
    pub data_format: Option<String>,
    pub fee_bps: Option<DecimalValue>,
    pub slippage_bps: Option<DecimalValue>,
    pub half_spread_bps: Option<DecimalValue>,
    pub buy_and_hold_qty: Option<DecimalValue>,
    /// A periods-per-year value was given; `true` when it is positive and finite.
    pub periods_per_year_valid: Option<bool>,
    pub bar_interval: Option<String>,
    pub session_filter: Option<String>,
    pub auto_periods_per_year: Option<bool>,
    pub output: Option<String>,
    pub strategy: Option<String>,
    pub python: Option<String>,
    pub record_equity_curve: Option<bool>,
    /// An annual risk-free rate was given; `true` when it is finite.
    pub risk_free_annual_finite: Option<bool>,
    pub max_position_abs: Option<DecimalValue>,
    pub max_daily_loss_quote: Option<DecimalValue>,
    pub margin_initial_rate: Option<DecimalValue>,
}

/// Why a data-format setting is refused, if it is.
pub open spec fn data_format_error(f: Option<String>) -> Option<Seq<char>> {
    match f {
        Some(x) => if data_format_alias(ascii_lower(x@)).is_none() {
            Some("unsupported data format `"@ + x@ + "`"@)
        } else {
            None
        },
        None => None,
    }
}

/// Why a `[backtest]` section is refused, if it is (the first problem in reading order).
pub open spec fn run_error(rc: RunConfig) -> Option<Seq<char>> {
    first_error(
        if rc.periods_per_year_valid == Some(false) {
            Some("backtest.periods_per_year must be positive and finite"@)
        } else {
            None
        },
        first_error(
            data_format_error(rc.data_format),
            first_error(
                error_of(opt_checked(rc.fee_bps, "backtest.fee_bps"@, ValueRule::Nonnegative)),
                first_error(
                    error_of(
                        opt_checked(rc.slippage_bps, "backtest.slippage_bps"@, ValueRule::Nonnegative),
                    ),
                    first_error(
                        error_of(
                            opt_checked(
                                rc.half_spread_bps,
                                "backtest.half_spread_bps"@,
                                ValueRule::Nonnegative,
                            ),
                        ),
                        first_error(
                            error_of(
                                opt_checked(
                                    rc.buy_and_hold_qty,
                                    "backtest.buy_and_hold_qty"@,
                                    ValueRule::Positive,
                                ),
                            ),
                            first_error(
                                if rc.risk_free_annual_finite == Some(false) {
                                    Some("backtest.risk_free_annual must be finite"@)
                                } else {
                                    None
                                },
                                first_error(
                                    error_of(
                                        opt_checked(
                                            rc.max_position_abs,
                                            "backtest.max_position_abs"@,
                                            ValueRule::Positive,
                                        ),
                                    ),
                                    first_error(
                                        error_of(
                                            opt_checked(
                                                rc.max_daily_loss_quote,
                                                "backtest.max_daily_loss_quote"@,
                                                ValueRule::Positive,
                                            ),
                                        ),
                                        error_of(
                                            opt_checked(
                                                rc.margin_initial_rate,
                                                "backtest.margin_initial_rate"@,
                                                ValueRule::Rate,
                                            ),
                                        ),
                                    ),
                                ),
                            ),
                        ),
                    ),
                ),
            ),
        ),
    )
}

/// A required decimal replaced by a checked optional value when one is given.
pub open spec fn dec_given_or(old: Dec, c: Result<Option<Dec>, Seq<char>>) -> Dec {
    match c {
        Ok(Some(d)) => d,
        _ => old,
    }
}

/// A path setting resolved against the settings file's directory when given.
pub open spec fn path_given_or(old: Option<String>, base: Option<Seq<char>>, given: Option<String>, n: Option<String>) -> bool {
    match given {
        Some(p) => n matches Some(x) && x@ == resolved_path(base, p@),
        None => n == old,
    }
}

/// `n` is `c` with an accepted `[backtest]` section applied, relative paths taken from `base`.
pub open spec fn run_applied(c: BacktestConfig, rc: RunConfig, base: Option<Seq<char>>, n: BacktestConfig) -> bool {
    &&& match rc.data {
        Some(p) => n.data_path@ == resolved_path(base, p@),
        None => n.data_path == c.data_path,
    }
    &&& match rc.data_format {
        Some(f) => data_format_alias(ascii_lower(f@)) == Some(n.data_format),
        None => n.data_format == c.data_format,
    }
    &&& n.fee_bps == dec_given_or(
        c.fee_bps,
        opt_checked(rc.fee_bps, "backtest.fee_bps"@, ValueRule::Nonnegative),
    )
    &&& n.slippage_bps == dec_given_or(
        c.slippage_bps,
        opt_checked(rc.slippage_bps, "backtest.slippage_bps"@, ValueRule::Nonnegative),
    )
    &&& n.half_spread_bps == dec_given_or(
        c.half_spread_bps,
        opt_checked(rc.half_spread_bps, "backtest.half_spread_bps"@, ValueRule::Nonnegative),
    )
    &&& n.buy_and_hold_qty == given_or(
        c.buy_and_hold_qty,
        opt_checked(rc.buy_and_hold_qty, "backtest.buy_and_hold_qty"@, ValueRule::Positive),
    )
    &&& n.bar_interval == text_or(c.bar_interval, rc.bar_interval)
    &&& n.session_filter == text_or(c.session_filter, rc.session_filter)
    &&& n.auto_periods_per_year == match rc.auto_periods_per_year {
        Some(v) => v,
        None => if rc.periods_per_year_valid == Some(true) {
            false
        } else {
            c.auto_periods_per_year
        },
    }
    &&& path_given_or(c.output_path, base, rc.output, n.output_path)
    &&& path_given_or(c.strategy_path, base, rc.strategy, n.strategy_path)
    &&& n.python_exe == match rc.python {
        Some(v) => v,
        None => c.python_exe,
    }
    &&& n.record_equity_curve == match rc.record_equity_curve {
        Some(v) => v,
        None => c.record_equity_curve,
    }
    &&& n.max_position_abs == given_or(
        c.max_position_abs,
        opt_checked(rc.max_position_abs, "backtest.max_position_abs"@, ValueRule::Positive),
    )
    &&& n.max_daily_loss_quote == given_or(
        c.max_daily_loss_quote,
        opt_checked(rc.max_daily_loss_quote, "backtest.max_daily_loss_quote"@, ValueRule::Positive),
    )
    &&& n.margin_initial_rate == given_or(
        c.margin_initial_rate,
        opt_checked(rc.margin_initial_rate, "backtest.margin_initial_rate"@, ValueRule::Rate),
    )
    &&& same_instrument_part(c, n)
    &&& same_rest(c, n)
}

/// The optional base directory as a view.
pub open spec fn base_view(base_dir: Option<&str>) -> Option<Seq<char>> {
    match base_dir {
        Some(b) => Some(b@),
        None => None,
    }
}

/// Timing fields: automatic annualization, bar interval, session filter.
pub open spec fn timing_part(c: BacktestConfig) -> (bool, Option<String>, Option<String>) {
    (c.auto_periods_per_year, c.bar_interval, c.session_filter)
}

/// Data fields: path and format.
pub open spec fn data_part(c: BacktestConfig) -> (String, DataFormat) {
    (c.data_path, c.data_format)
}

/// Cost fields: fee, slippage and half spread, in basis points.
pub open spec fn cost_part(c: BacktestConfig) -> (Dec, Dec, Dec) {
    (c.fee_bps, c.slippage_bps, c.half_spread_bps)
}

/// Buy-and-hold quantity and equity recording.
pub open spec fn run_flags_part(c: BacktestConfig) -> (Option<Dec>, bool) {
    (c.buy_and_hold_qty, c.record_equity_curve)
}

/// Output path, strategy path and interpreter.
pub open spec fn path_part(c: BacktestConfig) -> (Option<String>, Option<String>, String) {
    (c.output_path, c.strategy_path, c.python_exe)
}

/// Risk limits: position cap, daily loss cap, margin rate.
pub open spec fn limit_part(c: BacktestConfig) -> (Option<Dec>, Option<Dec>, Option<Dec>) {
    (c.max_position_abs, c.max_daily_loss_quote, c.margin_initial_rate)
}

/// Everything outside the `[backtest]` section agrees.
pub open spec fn outside_run(c: BacktestConfig, n: BacktestConfig) -> bool {
    same_instrument_part(c, n) && same_rest(c, n)
}

/// Apply the timing settings of a `[backtest]` section.
fn apply_timing(
    config: &mut BacktestConfig,
    periods_per_year_valid: Option<bool>,
    bar_interval: Option<String>,
    session_filter: Option<String>,
    auto_periods_per_year: Option<bool>,
) -> (r: Result<(), Error>)
    ensures
        if periods_per_year_valid == Some(false) {
            r matches Err(e) && is_invalid(e, "backtest.periods_per_year must be positive and finite"@)
        } else {
            &&& r is Ok
            &&& final(config).bar_interval == text_or(old(config).bar_interval, bar_interval)
            &&& final(config).session_filter == text_or(old(config).session_filter, session_filter)
            &&& final(config).auto_periods_per_year == match auto_periods_per_year {
                Some(v) => v,
                None => if periods_per_year_valid == Some(true) {
                    false
                } else {
                    old(config).auto_periods_per_year
                },
            }
        },
        data_part(*final(config)) == data_part(*old(config)),
        cost_part(*final(config)) == cost_part(*old(config)),
        run_flags_part(*final(config)) == run_flags_part(*old(config)),
        path_part(*final(config)) == path_part(*old(config)),
        limit_part(*final(config)) == limit_part(*old(config)),
        outside_run(*old(config), *final(config)),
{
    if let Some(valid) = periods_per_year_valid {
        if !valid {
            return Err(
                Error::Invalid("backtest.periods_per_year must be positive and finite".to_owned()),
            );
        }
        config.auto_periods_per_year = false;
    }
    if bar_interval.is_some() {
        config.bar_interval = bar_interval;
    }
    if session_filter.is_some() {
        config.session_filter = session_filter;
    }
    if let Some(v) = auto_periods_per_year {
        config.auto_periods_per_year = v;
    }
    Ok(())
}

/// Apply the data path and format of a `[backtest]` section.
fn apply_data(
    config: &mut BacktestConfig,
    base_dir: Option<&str>,
    data: Option<String>,
    data_format: Option<String>,
) -> (r: Result<(), Error>)
    ensures
        match data_format_error(data_format) {
            Some(m) => r matches Err(e) && is_invalid(e, m),
            None => {
                &&& r is Ok
                &&& match data {
                    Some(p) => final(config).data_path@ == resolved_path(base_view(base_dir), p@),
                    None => final(config).data_path == old(config).data_path,
                }
                &&& match data_format {
                    Some(f) => data_format_alias(ascii_lower(f@)) == Some(final(config).data_format),
                    None => final(config).data_format == old(config).data_format,
                }
            },
        },
        timing_part(*final(config)) == timing_part(*old(config)),
        cost_part(*final(config)) == cost_part(*old(config)),
        run_flags_part(*final(config)) == run_flags_part(*old(config)),
        path_part(*final(config)) == path_part(*old(config)),
        limit_part(*final(config)) == limit_part(*old(config)),
        outside_run(*old(config), *final(config)),
{
    if let Some(p) = data {
        config.data_path = resolve_path(base_dir, p.as_str());
    }
    if let Some(v) = data_format {
        match parse_data_format(v.as_str()) {
            Ok(f) => {
                config.data_format = f;
            },
            Err(m) => {
                return Err(Error::Invalid(m));
            },
        }
    }
    Ok(())
}

/// Why the cost settings are refused, if they are.
pub open spec fn costs_error(
    fee: Option<DecimalValue>,
    slippage: Option<DecimalValue>,
    spread: Option<DecimalValue>,
) -> Option<Seq<char>> {
    first_error(
        error_of(opt_checked(fee, "backtest.fee_bps"@, ValueRule::Nonnegative)),
        first_error(
            error_of(opt_checked(slippage, "backtest.slippage_bps"@, ValueRule::Nonnegative)),
            error_of(opt_checked(spread, "backtest.half_spread_bps"@, ValueRule::Nonnegative)),
        ),
    )
}

/// Apply the cost settings: each must be zero or more.
fn apply_costs(
    config: &mut BacktestConfig,
    fee: Option<DecimalValue>,
    slippage: Option<DecimalValue>,
    spread: Option<DecimalValue>,
) -> (r: Result<(), Error>)
    ensures
        match costs_error(fee, slippage, spread) {
            Some(m) => r matches Err(e) && is_invalid(e, m),
            None => {
                &&& r is Ok
                &&& final(config).fee_bps == dec_given_or(
                    old(config).fee_bps,
                    opt_checked(fee, "backtest.fee_bps"@, ValueRule::Nonnegative),
                )
                &&& final(config).slippage_bps == dec_given_or(
                    old(config).slippage_bps,
                    opt_checked(slippage, "backtest.slippage_bps"@, ValueRule::Nonnegative),
                )
                &&& final(config).half_spread_bps == dec_given_or(
                    old(config).half_spread_bps,
                    opt_checked(spread, "backtest.half_spread_bps"@, ValueRule::Nonnegative),
                )
            },
        },
        timing_part(*final(config)) == timing_part(*old(config)),
        data_part(*final(config)) == data_part(*old(config)),
        run_flags_part(*final(config)) == run_flags_part(*old(config)),
        path_part(*final(config)) == path_part(*old(config)),
        limit_part(*final(config)) == limit_part(*old(config)),
        outside_run(*old(config), *final(config)),
{
    if let Some(v) = fee {
        config.fee_bps = v.nonnegative("backtest.fee_bps")?;
    }
    if let Some(v) = slippage {
        config.slippage_bps = v.nonnegative("backtest.slippage_bps")?;
    }
    if let Some(v) = spread {
        config.half_spread_bps = v.nonnegative("backtest.half_spread_bps")?;
    }
    Ok(())
}

/// Apply the output path, strategy path and interpreter.
fn apply_paths(
    config: &mut BacktestConfig,
    base_dir: Option<&str>,
    output: Option<String>,
    strategy: Option<String>,
    python: Option<String>,
)
    ensures
        path_given_or(old(config).output_path, base_view(base_dir), output, final(config).output_path),
        path_given_or(
            old(config).strategy_path,
            base_view(base_dir),
            strategy,
            final(config).strategy_path,
        ),
        final(config).python_exe == match python {
            Some(v) => v,
            None => old(config).python_exe,
        },
        timing_part(*final(config)) == timing_part(*old(config)),
        data_part(*final(config)) == data_part(*old(config)),
        cost_part(*final(config)) == cost_part(*old(config)),
        run_flags_part(*final(config)) == run_flags_part(*old(config)),
        limit_part(*final(config)) == limit_part(*old(config)),
        outside_run(*old(config), *final(config)),
{
    if let Some(p) = output {
        config.output_path = Some(resolve_path(base_dir, p.as_str()));
    }
    if let Some(p) = strategy {
        config.strategy_path = Some(resolve_path(base_dir, p.as_str()));
    }
    if let Some(v) = python {
        config.python_exe = v;
    }
}

/// Why the risk-limit settings are refused, if they are.
pub open spec fn limits_error(
    max_position_abs: Option<DecimalValue>,
    max_daily_loss_quote: Option<DecimalValue>,
    margin_initial_rate: Option<DecimalValue>,
) -> Option<Seq<char>> {
    first_error(
        error_of(opt_checked(max_position_abs, "backtest.max_position_abs"@, ValueRule::Positive)),
        first_error(
            error_of(
                opt_checked(
                    max_daily_loss_quote,
                    "backtest.max_daily_loss_quote"@,
                    ValueRule::Positive,
                ),
            ),
            error_of(opt_checked(margin_initial_rate, "backtest.margin_initial_rate"@, ValueRule::Rate)),
        ),
    )
}

/// Apply the risk limits: positive caps and a margin rate in (0, 1].
fn apply_limits(
    config: &mut BacktestConfig,
    max_position_abs: Option<DecimalValue>,
    max_daily_loss_quote: Option<DecimalValue>,
    margin_initial_rate: Option<DecimalValue>,
) -> (r: Result<(), Error>)
    ensures
        match limits_error(max_position_abs, max_daily_loss_quote, margin_initial_rate) {
            Some(m) => r matches Err(e) && is_invalid(e, m),
            None => {
                &&& r is Ok
                &&& final(config).max_position_abs == given_or(
                    old(config).max_position_abs,
                    opt_checked(max_position_abs, "backtest.max_position_abs"@, ValueRule::Positive),
                )
                &&& final(config).max_daily_loss_quote == given_or(
                    old(config).max_daily_loss_quote,
                    opt_checked(
                        max_daily_loss_quote,
                        "backtest.max_daily_loss_quote"@,
                        ValueRule::Positive,
                    ),
                )
                &&& final(config).margin_initial_rate == given_or(
                    old(config).margin_initial_rate,
                    opt_checked(
                        margin_initial_rate,
                        "backtest.margin_initial_rate"@,
                        ValueRule::Rate,
                    ),
                )
            },
        },
        timing_part(*final(config)) == timing_part(*old(config)),
        data_part(*final(config)) == data_part(*old(config)),
        cost_part(*final(config)) == cost_part(*old(config)),
        run_flags_part(*final(config)) == run_flags_part(*old(config)),
        path_part(*final(config)) == path_part(*old(config)),
        outside_run(*old(config), *final(config)),
{
    if let Some(v) = max_position_abs {
        config.max_position_abs = Some(v.positive("backtest.max_position_abs")?);
    }
    if let Some(v) = max_daily_loss_quote {
        config.max_daily_loss_quote = Some(v.positive("backtest.max_daily_loss_quote")?);
    }
    if let Some(v) = margin_initial_rate {
        config.margin_initial_rate = Some(v.rate("backtest.margin_initial_rate")?);
    }
    Ok(())
}

impl RunConfig {
    /// Apply the `[backtest]` section: timing, data path and format, costs, the buy-and-hold
    /// quantity, output and strategy paths, the interpreter, equity recording and the risk
    /// limits; relative paths are taken from `base_dir`.
    pub fn apply(self, config: &mut BacktestConfig, base_dir: Option<&str>) -> (r: Result<(), Error>)
        ensures
            match run_error(self) {
                Some(m) => r matches Err(e) && is_invalid(e, m),
                None => r is Ok && run_applied(*old(config), self, base_view(base_dir), *final(config)),
            },
    {
        let ghost rc = self;
        let ghost c0 = *config;
        let RunConfig {
            data,
            data_format,
            fee_bps,
            slippage_bps,
            half_spread_bps,
            buy_and_hold_qty,
            periods_per_year_valid,
            bar_interval,
            session_filter,
            auto_periods_per_year,
            output,
            strategy,
            python,
            record_equity_curve,
            risk_free_annual_finite,
            max_position_abs,
            max_daily_loss_quote,
            margin_initial_rate,
        } = self;
        apply_timing(config, periods_per_year_valid, bar_interval, session_filter, auto_periods_per_year)?;
        let ghost c1 = *config;
        apply_data(config, base_dir, data, data_format)?;
        let ghost c2 = *config;
        apply_costs(config, fee_bps, slippage_bps, half_spread_bps)?;
        let ghost c3 = *config;
        if let Some(v) = buy_and_hold_qty {
            config.buy_and_hold_qty = Some(v.positive("backtest.buy_and_hold_qty")?);
        }
        let ghost c4 = *config;
        apply_paths(config, base_dir, output, strategy, python);
        let ghost c5 = *config;
        if let Some(v) = record_equity_curve {
            config.record_equity_curve = v;
        }
        if let Some(finite) = risk_free_annual_finite {
            if !finite {
                return Err(Error::Invalid("backtest.risk_free_annual must be finite".to_owned()));
            }
        }
        let ghost c6 = *config;
        apply_limits(config, max_position_abs, max_daily_loss_quote, margin_initial_rate)?;
        proof {
            assert(timing_part(*config) == timing_part(c1));
            assert(data_part(*config) == data_part(c2));
            assert(cost_part(*config) == cost_part(c3));
            assert(path_part(*config) == path_part(c5));
            assert(run_flags_part(*config) == run_flags_part(c6));
            assert(outside_run(c0, *config));
            assert(run_applied(c0, rc, base_view(base_dir), *config));
        }
        Ok(())
    }
}

/// One `[[balances]]` row.
#[derive(Debug)]
pub struct BalanceConfig {
    pub asset: String,
    pub amount: DecimalValue,
}

/// Record `b`: replace the balance of its asset, or add it after the others.
pub open spec fn upsert(bs: Seq<Balance>, b: Balance) -> Seq<Balance> {
    match find_balance(bs, b.asset@, 0) {
        Some(i) => bs.update(i, b),
        None => bs.push(b),
    }
}

/// Balances of the first `n` rows, each amount zero or more; a later row for an asset replaces
/// an earlier one. The first bad amount is reported.
pub open spec fn balances_from(rows: Seq<BalanceConfig>, n: int) -> Result<Seq<Balance>, Seq<char>>
    decreases n,
{
    if n <= 0 {
        Ok(Seq::empty())
    } else {
        match balances_from(rows, n - 1) {
            Err(m) => Err(m),
            Ok(bs) => match checked_value(rows[n - 1].amount, "balances.amount"@, ValueRule::Nonnegative) {
                Err(m) => Err(m),
                Ok(d) => Ok(upsert(bs, Balance { asset: rows[n - 1].asset, free: d })),
            },
        }
    }
}

/// Position of the balance of `asset`.
fn balance_index(bs: &Vec<Balance>, asset: &String) -> (r: Option<usize>)
    ensures
        opt_index(r) == find_balance(bs@, asset@, 0),
{
    let mut i: usize = 0;
    while i < bs.len()
        invariant
            i <= bs@.len(),
            find_balance(bs@, asset@, 0) == find_balance(bs@, asset@, i as int),
        decreases bs@.len() - i,
    {
        if bs[i].asset == *asset {
            return Some(i);
        }
        i = i + 1;
    }
    None
}

/// Read the `[[balances]]` rows.
pub fn parse_balances(rows: Vec<BalanceConfig>) -> (r: Result<Vec<Balance>, Error>)
    ensures
        match balances_from(rows@, rows@.len() as int) {
            Ok(bs) => r matches Ok(v) && v@ == bs,
            Err(m) => r matches Err(e) && is_invalid(e, m),
        },
        r matches Ok(v) ==> forall|k: int| 0 <= k < v@.len() ==> (#[trigger] v@[k]).free.wf(),
{
    let ghost all = rows@;
    let mut rest = rows;
    let mut out: Vec<Balance> = Vec::new();
    let ghost mut k: int = 0;
    while rest.len() > 0
        invariant
            all == rows@,
            0 <= k,
            k + rest@.len() == all.len(),
            rest@ == all.subrange(k, all.len() as int),
            balances_from(all, k) == Ok::<Seq<Balance>, Seq<char>>(out@),
            forall|i: int| 0 <= i < out@.len() ==> (#[trigger] out@[i]).free.wf(),
        decreases rest@.len(),
    {
        let row = rest.remove(0);
        assert(row == all[k]);
        let BalanceConfig { asset, amount } = row;
        let d = match amount.nonnegative("balances.amount") {
            Ok(d) => d,
            Err(e) => {
                proof {
                    assert(checked_value(all[k].amount, "balances.amount"@, ValueRule::Nonnegative) is Err);
                    assert(balances_from(all, k + 1) is Err);
                    lemma_balances_error_persists(all, k + 1, all.len() as int);
                }
                return Err(e);
            },
        };
        let b = Balance { asset, free: d };
        proof {
            lemma_find_balance(out@, b.asset@, 0);
        }
        match balance_index(&out, &b.asset) {
            Some(i) => {
                out.set(i, b);
            },
            None => {
                out.push(b);
            },
        }
        proof {
            k = k + 1;
        }
    }
    Ok(out)
}

/// Not finding an asset means no balance from `i` on has it.
proof fn lemma_find_balance_none(s: Seq<Balance>, asset: Seq<char>, i: int)
    requires
        0 <= i,
    ensures
        find_balance(s, asset, i).is_none() ==> forall|k: int| i <= k < s.len() ==> (#[trigger] s[k]).asset@ != asset,
    decreases s.len() - i,
{
    if i < s.len() && s[i].asset@ != asset {
        lemma_find_balance_none(s, asset, i + 1);
    }
}

/// `bs` names each asset once and holds the asset of each of the first `n` rows.
pub open spec fn one_per_asset(bs: Seq<Balance>, rows: Seq<BalanceConfig>, n: int) -> bool {
    &&& forall|i: int, j: int|
        0 <= i < j < bs.len() ==> (#[trigger] bs[i]).asset@ != (#[trigger] bs[j]).asset@
    &&& forall|k: int|
        0 <= k < n ==> exists|j: int|
            0 <= j < bs.len() && (#[trigger] bs[j]).asset@ == (#[trigger] rows[k]).asset@
}

/// Read balances name each asset once, and every row's asset is among them.
pub proof fn law_balances_one_per_asset(rows: Seq<BalanceConfig>, n: int)
    requires
        0 <= n <= rows.len(),
    ensures
        balances_from(rows, n) matches Ok(bs) ==> one_per_asset(bs, rows, n),
    decreases n,
{
    if n > 0 {
        law_balances_one_per_asset(rows, n - 1);
        if let Ok(bs) = balances_from(rows, n - 1) {
            assert(one_per_asset(bs, rows, n - 1));
            if let Ok(d) = checked_value(rows[n - 1].amount, "balances.amount"@, ValueRule::Nonnegative) {
                let b = Balance { asset: rows[n - 1].asset, free: d };
                let out = upsert(bs, b);
                assert(balances_from(rows, n) == Ok::<Seq<Balance>, Seq<char>>(out));
                lemma_find_balance(bs, b.asset@, 0);
                lemma_find_balance_none(bs, b.asset@, 0);
                match find_balance(bs, b.asset@, 0) {
                    Some(x) => {
                        assert forall|i: int, j: int|
                            0 <= i < j < out.len() implies (#[trigger] out[i]).asset@ != (#[trigger] out[j]).asset@ by {
                            assert(bs[i].asset@ != bs[j].asset@);
                        }
                        assert forall|k: int| 0 <= k < n implies exists|j: int|
                            0 <= j < out.len() && (#[trigger] out[j]).asset@ == (#[trigger] rows[k]).asset@ by {
                            if k == n - 1 {
                                assert(out[x].asset@ == rows[k].asset@);
                            } else {
                                let j = choose|j: int|
                                    0 <= j < bs.len() && (#[trigger] bs[j]).asset@ == (#[trigger] rows[k]).asset@;
                                assert(out[j].asset@ == rows[k].asset@);
                            }
                        }
                        assert(one_per_asset(out, rows, n));
                    },
                    None => {
                        assert forall|i: int, j: int|
                            0 <= i < j < out.len() implies (#[trigger] out[i]).asset@ != (#[trigger] out[j]).asset@ by {
                            if j == bs.len() {
                                assert(bs[i].asset@ != b.asset@);
                            } else {
                                assert(bs[i].asset@ != bs[j].asset@);
                            }
                        }
                        assert forall|k: int| 0 <= k < n implies exists|j: int|
                            0 <= j < out.len() && (#[trigger] out[j]).asset@ == (#[trigger] rows[k]).asset@ by {
                            if k == n - 1 {
                                assert(out[bs.len() as int].asset@ == rows[k].asset@);
                            } else {
                                let j = choose|j: int|
                                    0 <= j < bs.len() && (#[trigger] bs[j]).asset@ == (#[trigger] rows[k]).asset@;
                                assert(out[j].asset@ == rows[k].asset@);
                            }
                        }
                        assert(one_per_asset(out, rows, n));
                    },
                }
            }
        }
    }
}

/// Once a row is refused, every longer prefix of rows is refused for the same reason.
proof fn lemma_balances_error_persists(rows: Seq<BalanceConfig>, n: int, m: int)
    requires
        n <= m,
        balances_from(rows, n) is Err,
    ensures
        balances_from(rows, m) == balances_from(rows, n),
    decreases m - n,
{
    if n < m {
        lemma_balances_error_persists(rows, n, m - 1);
    }
}

/// One `[[instruments]]` row: an extra instrument.
#[derive(Debug)]
pub struct ExtraInstrumentConfig {
    pub exchange: String,
    pub symbol: String,
    /// `crypto` when the row names none.
    pub asset_class: String,
    pub lot_size: Option<DecimalValue>,
    pub tick_size: Option<DecimalValue>,
    pub contract_multiplier: Option<DecimalValue>,
    pub expiry: Option<String>,
    pub margin_initial_rate: Option<DecimalValue>,
    /// Its data file (also written `data_path`).
    pub data: Option<String>,
    pub data_format: Option<String>,
}

/// Why an `[[instruments]]` row is refused, if it is (the first problem in reading order).
pub open spec fn extra_error(x: ExtraInstrumentConfig) -> Option<Seq<char>> {
    first_error(
        asset_class_error(Some(x.asset_class)),
        first_error(
            error_of(opt_checked(x.lot_size, "instruments.lot_size"@, ValueRule::Positive)),
            first_error(
                error_of(opt_checked(x.tick_size, "instruments.tick_size"@, ValueRule::Positive)),
                first_error(
                    error_of(
                        opt_checked(
                            x.contract_multiplier,
                            "instruments.contract_multiplier"@,
                            ValueRule::Positive,
                        ),
                    ),
                    first_error(
                        error_of(
                            opt_checked(
                                x.margin_initial_rate,
                                "instruments.margin_initial_rate"@,
                                ValueRule::Rate,
                            ),
                        ),
                        data_format_error(x.data_format),
                    ),
                ),
            ),
        ),
    )
}

/// The checked value of an accepted optional setting.
pub open spec fn accepted(c: Result<Option<Dec>, Seq<char>>) -> Option<Dec> {
    match c {
        Ok(v) => v,
        Err(_) => None,
    }
}

/// `e` is the extra instrument an accepted row describes, its data path taken from `base`.
pub open spec fn extra_of(x: ExtraInstrumentConfig, base: Option<Seq<char>>, e: ExtraInstrument) -> bool {
    &&& e.instrument.exchange == x.exchange
    &&& e.instrument.symbol == x.symbol
    &&& asset_class_alias(ascii_lower(x.asset_class@)) == Some(e.asset_class)
    &&& e.lot_size == accepted(opt_checked(x.lot_size, "instruments.lot_size"@, ValueRule::Positive))
    &&& e.tick_size == accepted(opt_checked(x.tick_size, "instruments.tick_size"@, ValueRule::Positive))
    &&& e.contract_multiplier == accepted(
        opt_checked(x.contract_multiplier, "instruments.contract_multiplier"@, ValueRule::Positive),
    )
    &&& e.expiry == x.expiry
    &&& e.margin_initial_rate == accepted(
        opt_checked(x.margin_initial_rate, "instruments.margin_initial_rate"@, ValueRule::Rate),
    )
    &&& e.option_kind.is_none()
    &&& e.option_strike.is_none()
    &&& e.option_underlying.is_none()
    &&& match x.data {
        Some(p) => e.data_path matches Some(q) && q@ == resolved_path(base, p@),
        None => e.data_path.is_none(),
    }
    &&& match x.data_format {
        Some(f) => e.data_format matches Some(g) && data_format_alias(ascii_lower(f@)) == Some(g),
        None => e.data_format.is_none(),
    }
}

impl ExtraInstrumentConfig {
    /// Read an `[[instruments]]` row; its data path is taken from `base_dir`.
    pub fn parse(self, base_dir: Option<&str>) -> (r: Result<ExtraInstrument, Error>)
        ensures
            match extra_error(self) {
                Some(m) => r matches Err(e) && is_invalid(e, m),
                None => r matches Ok(e) && extra_of(self, base_view(base_dir), e),
            },
    {
        let ExtraInstrumentConfig {
            exchange,
            symbol,
            asset_class,
            lot_size,
            tick_size,
            contract_multiplier,
            expiry,
            margin_initial_rate,
            data,
            data_format,
        } = self;
        let instrument = InstrumentId { exchange, symbol };
        let asset_class = match parse_asset_class(asset_class.as_str()) {
            Ok(k) => k,
            Err(m) => {
                return Err(Error::Invalid(m));
            },
        };
        let lot_size = parse_positive(lot_size, "instruments.lot_size")?;
        let tick_size = parse_positive(tick_size, "instruments.tick_size")?;
        let contract_multiplier = parse_positive(contract_multiplier, "instruments.contract_multiplier")?;
        let margin_initial_rate = parse_checked(
            margin_initial_rate,
            "instruments.margin_initial_rate",
            ValueRule::Rate,
        )?;
        let data_path = match data {
            Some(p) => Some(resolve_path(base_dir, p.as_str())),
            None => None,
        };
        let data_format = match data_format {
            Some(f) => match parse_data_format(f.as_str()) {
                Ok(g) => Some(g),
                Err(m) => {
                    return Err(Error::Invalid(m));
                },
            },
            None => None,
        };
        Ok(
            ExtraInstrument {
                instrument,
                asset_class,
                lot_size,
                tick_size,
                contract_multiplier,
                expiry,
                margin_initial_rate,
                option_kind: None,
                option_strike: None,
                option_underlying: None,
                data_path,
                data_format,
            },
        )
    }
}

/// The first problem among the first `n` `[[instruments]]` rows, if any.
pub open spec fn extras_error(rows: Seq<ExtraInstrumentConfig>, n: int) -> Option<Seq<char>>
    decreases n,
{
    if n <= 0 {
        None
    } else {
        first_error(extras_error(rows, n - 1), extra_error(rows[n - 1]))
    }
}

/// Read the `[[instruments]]` rows in order; the first refused row stops the reading.
pub fn parse_extra_instruments(rows: Vec<ExtraInstrumentConfig>, base_dir: Option<&str>) -> (r: Result<
    Vec<ExtraInstrument>,
    Error,
>)
    ensures
        match extras_error(rows@, rows@.len() as int) {
            Some(m) => r matches Err(e) && is_invalid(e, m),
            None => r matches Ok(v) && v@.len() == rows@.len() && forall|k: int|
                0 <= k < rows@.len() ==> extra_of(#[trigger] rows@[k], base_view(base_dir), v@[k]),
        },
{
    let ghost all = rows@;
    let mut rest = rows;
    let mut out: Vec<ExtraInstrument> = Vec::new();
    let ghost mut k: int = 0;
    while rest.len() > 0
        invariant
            all == rows@,
            0 <= k,
            k + rest@.len() == all.len(),
            rest@ == all.subrange(k, all.len() as int),
            extras_error(all, k).is_none(),
            out@.len() == k,
            forall|i: int| 0 <= i < k ==> extra_of(#[trigger] all[i], base_view(base_dir), out@[i]),
        decreases rest@.len(),
    {
        let row = rest.remove(0);
        assert(row == all[k]);
        let e = match row.parse(base_dir) {
            Ok(e) => e,
            Err(e) => {
                proof {
                    assert(extra_error(all[k]) is Some);
                    assert(extras_error(all, k + 1) == extra_error(all[k]));
                    lemma_extras_error_prefix(all, k + 1, all.len() as int);
                }
                return Err(e);
            },
        };
        out.push(e);
        proof {
            k = k + 1;
        }
    }
    Ok(out)
}

/// An error among the first `n` rows is the error among the first `m >= n` rows.
proof fn lemma_extras_error_prefix(rows: Seq<ExtraInstrumentConfig>, n: int, m: int)
    requires
        n <= m,
        extras_error(rows, n) is Some,
    ensures
        extras_error(rows, m) == extras_error(rows, n),
    decreases m - n,
{
    if n < m {
        lemma_extras_error_prefix(rows, n, m - 1);
    }
}

/// A whole settings file. (Its free-form strategy parameters are kept by the program.)
#[derive(Debug)]
pub struct FileConfig {
    pub instrument: Option<InstrumentConfig>,
    pub backtest: Option<RunConfig>,
    pub balances: Option<Vec<BalanceConfig>>,
    pub instruments: Option<Vec<ExtraInstrumentConfig>>,
    pub fee_bps: Option<DecimalValue>,
    pub slippage_bps: Option<DecimalValue>,
}

/// Why a settings file is refused, if it is (the first problem in reading order).
pub open spec fn file_error(f: FileConfig) -> Option<Seq<char>> {
    first_error(
        match f.instrument {
            Some(ic) => instrument_error(ic),
            None => None,
        },
        first_error(
            match f.backtest {
                Some(rc) => run_error(rc),
                None => None,
            },
            first_error(
                error_of(opt_checked(f.fee_bps, "fee_bps"@, ValueRule::Nonnegative)),
                first_error(
                    error_of(opt_checked(f.slippage_bps, "slippage_bps"@, ValueRule::Nonnegative)),
                    first_error(
                        match f.balances {
                            Some(rows) => error_of(balances_from(rows@, rows@.len() as int)),
                            None => None,
                        },
                        match f.instruments {
                            Some(rows) => extras_error(rows@, rows@.len() as int),
                            None => None,
                        },
                    ),
                ),
            ),
        ),
    )
}

/// `n` is `c` with an accepted settings file applied: its `[instrument]` section (giving `c1`),
/// its `[backtest]` section (giving `c2`), the top-level costs, balances and extra instruments.
pub open spec fn file_steps(
    c: BacktestConfig,
    f: FileConfig,
    base: Option<Seq<char>>,
    c1: BacktestConfig,
    c2: BacktestConfig,
    n: BacktestConfig,
) -> bool {
    &&& match f.instrument {
        Some(ic) => instrument_applied(c, ic, c1),
        None => c1 == c,
    }
    &&& match f.backtest {
        Some(rc) => run_applied(c1, rc, base, c2),
        None => c2 == c1,
    }
    &&& n.fee_bps == dec_given_or(c2.fee_bps, opt_checked(f.fee_bps, "fee_bps"@, ValueRule::Nonnegative))
    &&& n.slippage_bps == dec_given_or(
        c2.slippage_bps,
        opt_checked(f.slippage_bps, "slippage_bps"@, ValueRule::Nonnegative),
    )
    &&& n.half_spread_bps == c2.half_spread_bps
    &&& match f.balances {
        Some(rows) => balances_from(rows@, rows@.len() as int) == Ok::<Seq<Balance>, Seq<char>>(
            n.balances@,
        ),
        None => n.balances@ == c2.balances@,
    }
    &&& match f.instruments {
        Some(rows) => n.extra_instruments@.len() == rows@.len() && forall|k: int|
            0 <= k < rows@.len() ==> extra_of(#[trigger] rows@[k], base, n.extra_instruments@[k]),
        None => n.extra_instruments@ == c2.extra_instruments@,
    }
    &&& same_instrument_part(c2, n)
    &&& timing_part(n) == timing_part(c2)
    &&& data_part(n) == data_part(c2)
    &&& run_flags_part(n) == run_flags_part(c2)
    &&& path_part(n) == path_part(c2)
    &&& limit_part(n) == limit_part(c2)
    &&& n.option_kind == c2.option_kind
    &&& n.option_strike == c2.option_strike
    &&& n.option_underlying == c2.option_underlying
    &&& n.verbose == c2.verbose
}

impl FileConfig {
    /// Merge a settings file into `config`, section by section; relative paths are taken from
    /// `base_dir`, the file's directory.
    pub fn apply(self, config: &mut BacktestConfig, base_dir: Option<&str>) -> (r: Result<(), Error>)
        ensures
            match file_error(self) {
                Some(m) => r matches Err(e) && is_invalid(e, m),
                None => r is Ok && exists|c1: BacktestConfig, c2: BacktestConfig|
                    #[trigger] file_steps(*old(config), self, base_view(base_dir), c1, c2, *final(config)),
            },
    {
        let ghost f = self;
        let ghost c0 = *config;
        let FileConfig { instrument, backtest, balances, instruments, fee_bps, slippage_bps } = self;
        if let Some(ic) = instrument {
            ic.apply(config)?;
        }
        let ghost c1 = *config;
        if let Some(rc) = backtest {
            rc.apply(config, base_dir)?;
        }
        let ghost c2 = *config;
        if let Some(v) = fee_bps {
            config.fee_bps = v.nonnegative("fee_bps")?;
        }
        if let Some(v) = slippage_bps {
            config.slippage_bps = v.nonnegative("slippage_bps")?;
        }
        if let Some(rows) = balances {
            config.balances = parse_balances(rows)?;
        }
        if let Some(rows) = instruments {
            config.extra_instruments = parse_extra_instruments(rows, base_dir)?;
        }
        proof {
            assert(file_steps(c0, f, base_view(base_dir), c1, c2, *config));
        }
        Ok(())
    }
}

} // verus!
