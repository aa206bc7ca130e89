//! Runtime configuration: what is tracked, how candidates are evaluated, where the
//! feeds and the output live, and the rules a configuration must satisfy.
use vstd::prelude::*;

use crate::decimal::{
    decimal_parse, decimal_text, is_pos, one_view, value_le, value_lt, zero_view, DecView, Decimal,
};
use crate::text::{
    is_blank, lemma_lower_noop, lemma_trim_noop, lower_spec, to_ascii_lowercase, to_ascii_uppercase, trim, trim_spec,
    upper_spec, str_eq,
};
use crate::types::asset::{asset_name, Asset};
use crate::types::timeframe::{timeframe_label, timeframe_secs, Timeframe};

verus! {

/// Why a configuration was refused.
#[derive(Debug, Clone)]
pub struct ConfigError {
    pub message: String,
}

#[derive(Debug, Clone)]
pub struct AssetConfig {
    pub enabled: Vec<Asset>,
}

#[derive(Debug, Clone)]
pub struct TimeframeConfig {
    pub enabled: Vec<Timeframe>,
}

#[derive(Debug, Clone)]
pub struct PairConfig {
    pub allowed: Vec<PairType>,
}

#[derive(Debug, Clone, Copy, PartialEq, Eq, Hash, Structural)]
pub struct PairType {
    pub short: Timeframe,
    pub long: Timeframe,
}

#[derive(Debug, Clone)]
pub struct EvaluationConfig {
    pub trigger_buffer: Decimal,
    pub execution_buffer: Decimal,
    pub min_seconds_to_end: u64,
    pub max_book_age_ms: u64,
    pub min_top_book_size: Decimal,
    pub min_depth_confirmed_size: Decimal,
    pub min_gross_edge: Decimal,
    pub eval_interval_ms: u64,
    pub discovery_interval_ms: u64,
}

#[derive(Debug, Clone)]
pub struct RtdsConfig {
    pub websocket_url: String,
    pub topic: String,
    pub reconnect_backoff_ms: u64,
}

#[derive(Debug, Clone)]
pub struct ClobConfig {
    pub websocket_url: String,
    pub max_subscription_tokens: usize,
    pub reconnect_backoff_ms: u64,
}

#[derive(Debug, Clone)]
pub struct StorageConfig {
    pub data_dir: String,
    pub ticks_dir: String,
    pub ptbs_dir: String,
    pub books_dir: String,
    pub evaluations_dir: String,
    pub opportunities_dir: String,
    pub replay_dir: String,
}

#[derive(Debug, Clone)]
pub struct TelemetryConfig {
    pub enabled: bool,
    pub health_interval_ms: u64,
}

#[derive(Debug, Clone)]
pub struct Config {
    pub assets: AssetConfig,
    pub timeframes: TimeframeConfig,
    pub pairs: PairConfig,
    pub eval: EvaluationConfig,
    pub rtds: RtdsConfig,
    pub clob: ClobConfig,
    pub storage: StorageConfig,
    pub telemetry: TelemetryConfig,
}

/// Some element occurs twice.
pub open spec fn has_dup<T>(s: Seq<T>) -> bool {
    exists|i: int, j: int| 0 <= i < j < s.len() && s[i] == s[j]
}

/// The message of a refusal as plain values: `None` for acceptance.
pub open spec fn outcome(r: Result<(), ConfigError>) -> Option<Seq<char>> {
    match r {
        Ok(()) => None,
        Err(e) => Some(e.message@),
    }
}

/// "5m-15m" style label of a pair.
pub open spec fn pair_label(p: PairType) -> Seq<char> {
    timeframe_label(p.short) + "-"@ + timeframe_label(p.long)
}

pub open spec fn asset_config_check(enabled: Seq<Asset>) -> Option<Seq<char>> {
    if enabled.len() == 0 {
        Some("assets.enabled cannot be empty"@)
    } else if has_dup(enabled) {
        Some("assets.enabled contains duplicates"@)
    } else {
        None
    }
}

pub open spec fn timeframe_config_check(enabled: Seq<Timeframe>) -> Option<Seq<char>> {
    if enabled.len() == 0 {
        Some("timeframes.enabled cannot be empty"@)
    } else if has_dup(enabled) {
        Some("timeframes.enabled contains duplicates"@)
    } else {
        None
    }
}

/// The first refusal among the pairs from index `i` on.
pub open spec fn pair_check_from(pairs: Seq<PairType>, enabled: Seq<Timeframe>, i: int) -> Option<Seq<char>>
    decreases pairs.len() - i,
{
    if i < 0 || i >= pairs.len() {
        None
    } else {
        let p = pairs[i];
        if p.short == p.long {
            Some(
                "invalid pair "@ + pair_label(p)
                    + ": short and long timeframes cannot be equal"@,
            )
        } else if !enabled.contains(p.short) {
            Some("invalid pair "@ + pair_label(p) + ": short timeframe is not enabled"@)
        } else if !enabled.contains(p.long) {
            Some("invalid pair "@ + pair_label(p) + ": long timeframe is not enabled"@)
        } else if timeframe_secs(p.short) >= timeframe_secs(p.long) {
            Some(
                "invalid pair "@ + pair_label(p)
                    + ": short timeframe must be shorter than long timeframe"@,
            )
        } else {
            pair_check_from(pairs, enabled, i + 1)
        }
    }
}

pub open spec fn pair_config_check(pairs: Seq<PairType>, enabled: Seq<Timeframe>) -> Option<Seq<char>> {
    if pairs.len() == 0 {
        Some("pairs.allowed cannot be empty"@)
    } else if has_dup(pairs) {
        Some("pairs.allowed contains duplicates"@)
    } else {
        pair_check_from(pairs, enabled, 0)
    }
}

/// The value lies in `[0, 1)`; otherwise the range message for `field`.
pub open spec fn unit_range_check(value: DecView, field: Seq<char>) -> Option<Seq<char>> {
    if value_lt(value, zero_view()) || value_le(one_view(), value) {
        Some(
            field + " must be >= "@ + decimal_text(zero_view()) + " and < "@ + decimal_text(
                one_view(),
            ),
        )
    } else {
        None
    }
}

pub open spec fn evaluation_config_check(e: EvaluationConfig) -> Option<Seq<char>> {
    if unit_range_check(e.trigger_buffer@, "eval.trigger_buffer"@) is Some {
        unit_range_check(e.trigger_buffer@, "eval.trigger_buffer"@)
    } else if unit_range_check(e.execution_buffer@, "eval.execution_buffer"@) is Some {
        unit_range_check(e.execution_buffer@, "eval.execution_buffer"@)
    } else if e.min_seconds_to_end == 0 {
        Some("eval.min_seconds_to_end must be greater than 0"@)
    } else if e.max_book_age_ms == 0 {
        Some("eval.max_book_age_ms must be greater than 0"@)
    } else if !is_pos(e.min_top_book_size@) {
        Some("eval.min_top_book_size must be greater than 0"@)
    } else if !is_pos(e.min_depth_confirmed_size@) {
        Some("eval.min_depth_confirmed_size must be greater than 0"@)
    } else if value_lt(e.min_gross_edge@, zero_view()) {
        Some("eval.min_gross_edge cannot be negative"@)
    } else if e.eval_interval_ms == 0 {
        Some("eval.eval_interval_ms must be greater than 0"@)
    } else if e.discovery_interval_ms == 0 {
        Some("eval.discovery_interval_ms must be greater than 0"@)
    } else {
        None
    }
}

/// Empty once surrounding white space is removed.
pub open spec fn blank(s: Seq<char>) -> bool {
    trim_spec(s).len() == 0
}

pub open spec fn rtds_config_check(c: RtdsConfig) -> Option<Seq<char>> {
    if blank(c.websocket_url@) {
        Some("rtds.websocket_url cannot be empty"@)
    } else if blank(c.topic@) {
        Some("rtds.topic cannot be empty"@)
    } else if c.reconnect_backoff_ms == 0 {
        Some("rtds.reconnect_backoff_ms must be greater than 0"@)
    } else {
        None
    }
}

pub open spec fn clob_config_check(c: ClobConfig) -> Option<Seq<char>> {
    if blank(c.websocket_url@) {
        Some("clob.websocket_url cannot be empty"@)
    } else if c.max_subscription_tokens == 0 {
        Some("clob.max_subscription_tokens must be greater than 0"@)
    } else if c.reconnect_backoff_ms == 0 {
        Some("clob.reconnect_backoff_ms must be greater than 0"@)
    } else {
        None
    }
}

/// The storage paths with their field names, in the order they are checked.
pub open spec fn storage_paths(c: StorageConfig) -> Seq<(Seq<char>, Seq<char>)> {
    seq![
        ("storage.data_dir"@, c.data_dir@),
        ("storage.ticks_dir"@, c.ticks_dir@),
        ("storage.ptbs_dir"@, c.ptbs_dir@),
        ("storage.books_dir"@, c.books_dir@),
        ("storage.evaluations_dir"@, c.evaluations_dir@),
        ("storage.opportunities_dir"@, c.opportunities_dir@),
        ("storage.replay_dir"@, c.replay_dir@),
    ]
}

/// The first blank path from index `i` on.
pub open spec fn storage_check_from(paths: Seq<(Seq<char>, Seq<char>)>, i: int) -> Option<Seq<char>>
    decreases paths.len() - i,
{
    if i < 0 || i >= paths.len() {
        None
    } else if blank(paths[i].1) {
        Some(paths[i].0 + " cannot be empty"@)
    } else {
        storage_check_from(paths, i + 1)
    }
}

pub open spec fn telemetry_config_check(c: TelemetryConfig) -> Option<Seq<char>> {
    if c.enabled && c.health_interval_ms == 0 {
        Some("telemetry.health_interval_ms must be greater than 0 when telemetry is enabled"@)
    } else {
        None
    }
}

/// The first refusal of the whole configuration, section by section.
pub open spec fn config_check(c: Config) -> Option<Seq<char>> {
    if asset_config_check(c.assets.enabled@) is Some {
        asset_config_check(c.assets.enabled@)
    } else if timeframe_config_check(c.timeframes.enabled@) is Some {
        timeframe_config_check(c.timeframes.enabled@)
    } else if pair_config_check(c.pairs.allowed@, c.timeframes.enabled@) is Some {
        pair_config_check(c.pairs.allowed@, c.timeframes.enabled@)
    } else if evaluation_config_check(c.eval) is Some {
        evaluation_config_check(c.eval)
    } else if rtds_config_check(c.rtds) is Some {
        rtds_config_check(c.rtds)
    } else if clob_config_check(c.clob) is Some {
        clob_config_check(c.clob)
    } else if storage_check_from(storage_paths(c.storage), 0) is Some {
        storage_check_from(storage_paths(c.storage), 0)
    } else {
        telemetry_config_check(c.telemetry)
    }
}

fn err(message: String) -> (r: Result<(), ConfigError>)
    ensures
        outcome(r) == Some(message@),
{
    Err(ConfigError { message })
}

/// Concatenation of two texts into a new string.
fn join(a: &str, b: &str) -> (r: String)
    ensures
        r@ == a@ + b@,
{
    let mut s = a.to_owned();
    s.append(b);
    s
}

/// Whether some element of `items` occurs twice.
fn has_duplicate_assets(items: &Vec<Asset>) -> (r: bool)
    ensures
        r == has_dup(items@),
{
    let n = items.len();
    let mut i: usize = 0;
    while i < n
        invariant
            n == items@.len(),
            i <= n,
            forall|a: int, b: int| 0 <= a < i && a < b < n ==> items@[a] != items@[b],
        decreases n - i,
    {
        let mut j: usize = i + 1;
        while j < n
            invariant
                n == items@.len(),
                i < n,
                i + 1 <= j <= n,
                forall|b: int| i < b < j ==> items@[i as int] != items@[b],
            decreases n - j,
        {
            if items[i] == items[j] {
                assert(items@[i as int] == items@[j as int]);
                return true;
            }
            j = j + 1;
        }
        i = i + 1;
    }
    false
}

/// Whether some element of `items` occurs twice.
fn has_duplicate_timeframes(items: &Vec<Timeframe>) -> (r: bool)
    ensures
        r == has_dup(items@),
{
    let n = items.len();
    let mut i: usize = 0;
    while i < n
        invariant
            n == items@.len(),
            i <= n,
            forall|a: int, b: int| 0 <= a < i && a < b < n ==> items@[a] != items@[b],
        decreases n - i,
    {
        let mut j: usize = i + 1;
        while j < n
            invariant
                n == items@.len(),
                i < n,
                i + 1 <= j <= n,
                forall|b: int| i < b < j ==> items@[i as int] != items@[b],
            decreases n - j,
        {
            if items[i] == items[j] {
                assert(items@[i as int] == items@[j as int]);
                return true;
            }
            j = j + 1;
        }
        i = i + 1;
    }
    false
}

/// Whether some element of `items` occurs twice.
fn has_duplicate_pairs(items: &Vec<PairType>) -> (r: bool)
    ensures
        r == has_dup(items@),
{
    let n = items.len();
    let mut i: usize = 0;
    while i < n
        invariant
            n == items@.len(),
            i <= n,
            forall|a: int, b: int| 0 <= a < i && a < b < n ==> items@[a] != items@[b],
        decreases n - i,
    {
        let mut j: usize = i + 1;
        while j < n
            invariant
                n == items@.len(),
                i < n,
                i + 1 <= j <= n,
                forall|b: int| i < b < j ==> items@[i as int] != items@[b],
            decreases n - j,
        {
            if items[i] == items[j] {
                assert(items@[i as int] == items@[j as int]);
                return true;
            }
            j = j + 1;
        }
        i = i + 1;
    }
    false
}

fn contains_timeframe(v: &Vec<Timeframe>, t: &Timeframe) -> (r: bool)
    ensures
        r == v@.contains(*t),
{
    let mut i: usize = 0;
    while i < v.len()
        invariant
            i <= v.len(),
            forall|k: int| 0 <= k < i ==> v@[k] != *t,
        decreases v.len() - i,
    {
        if v[i] == *t {
            assert(v@[i as int] == *t);
            return true;
        }
        i = i + 1;
    }
    false
}

impl AssetConfig {
    pub fn validate(&self) -> (r: Result<(), ConfigError>)
        ensures
            outcome(r) == asset_config_check(self.enabled@),
    {
        if self.enabled.len() == 0 {
            return err("assets.enabled cannot be empty".to_owned());
        }
        if has_duplicate_assets(&self.enabled) {
            return err("assets.enabled contains duplicates".to_owned());
        }
        Ok(())
    }

    pub fn is_enabled(&self, asset: &Asset) -> (r: bool)
        ensures
            r == self.enabled@.contains(*asset),
    {
        let mut i: usize = 0;
        while i < self.enabled.len()
            invariant
                i <= self.enabled.len(),
                forall|k: int| 0 <= k < i ==> self.enabled@[k] != *asset,
            decreases self.enabled.len() - i,
        {
            if self.enabled[i] == *asset {
                assert(self.enabled@[i as int] == *asset);
                return true;
            }
            i = i + 1;
        }
        false
    }
}

impl TimeframeConfig {
    pub fn validate(&self) -> (r: Result<(), ConfigError>)
        ensures
            outcome(r) == timeframe_config_check(self.enabled@),
    {
        if self.enabled.len() == 0 {
            return err("timeframes.enabled cannot be empty".to_owned());
        }
        if has_duplicate_timeframes(&self.enabled) {
            return err("timeframes.enabled contains duplicates".to_owned());
        }
        Ok(())
    }

    pub fn is_enabled(&self, timeframe: &Timeframe) -> (r: bool)
        ensures
            r == self.enabled@.contains(*timeframe),
    {
        contains_timeframe(&self.enabled, timeframe)
    }
}

impl PairType {
    /// "5m-15m" style label.
    pub fn label(&self) -> (r: String)
        ensures
            r@ == pair_label(*self),
    {
        let mut s = self.short.label().to_owned();
        s.append("-");
        s.append(self.long.label());
        s
    }
}

fn pair_error(p: &PairType, reason: &str) -> (r: Result<(), ConfigError>)
    ensures
        outcome(r) == Some("invalid pair "@ + pair_label(*p) + reason@),
{
    let mut s = "invalid pair ".to_owned();
    let label = p.label();
    s.append(label.as_str());
    s.append(reason);
    err(s)
}

impl PairConfig {
    /// Non-empty, no pair twice, and each pair's short timeframe enabled, distinct
    /// from and shorter than its enabled long timeframe.
    pub fn validate(&self, timeframes: &TimeframeConfig) -> (r: Result<(), ConfigError>)
        ensures
            outcome(r) == pair_config_check(self.allowed@, timeframes.enabled@),
    {
        if self.allowed.len() == 0 {
            return err("pairs.allowed cannot be empty".to_owned());
        }
        if has_duplicate_pairs(&self.allowed) {
            return err("pairs.allowed contains duplicates".to_owned());
        }
        let mut i: usize = 0;
        while i < self.allowed.len()
            invariant
                i <= self.allowed.len(),
                self.allowed@.len() > 0,
                !has_dup(self.allowed@),
                pair_check_from(self.allowed@, timeframes.enabled@, 0) == pair_check_from(
                    self.allowed@,
                    timeframes.enabled@,
                    i as int,
                ),
            decreases self.allowed.len() - i,
        {
            let pair = &self.allowed[i];
            if pair.short == pair.long {
                return pair_error(pair, ": short and long timeframes cannot be equal");
            }
            if !timeframes.is_enabled(&pair.short) {
                return pair_error(pair, ": short timeframe is not enabled");
            }
            if !timeframes.is_enabled(&pair.long) {
                return pair_error(pair, ": long timeframe is not enabled");
            }
            if pair.short.seconds() >= pair.long.seconds() {
                return pair_error(pair, ": short timeframe must be shorter than long timeframe");
            }
            i = i + 1;
        }
        Ok(())
    }

    /// Some allowed pair has exactly these timeframes.
    pub fn is_allowed(&self, short: &Timeframe, long: &Timeframe) -> (r: bool)
        ensures
            r == exists|k: int|
                0 <= k < self.allowed@.len() && #[trigger] self.allowed@[k].short == *short
                    && self.allowed@[k].long == *long,
    {
        let mut i: usize = 0;
        while i < self.allowed.len()
            invariant
                i <= self.allowed.len(),
                forall|k: int|
                    0 <= k < i ==> !(#[trigger] self.allowed@[k].short == *short
                        && self.allowed@[k].long == *long),
            decreases self.allowed.len() - i,
        {
            if self.allowed[i].short == *short && self.allowed[i].long == *long {
                assert(self.allowed@[i as int].short == *short);
                return true;
            }
            i = i + 1;
        }
        false
    }
}

/// The range refusal for `field`, or acceptance.
fn validate_unit_range(value: &Decimal, field: &str) -> (r: Result<(), ConfigError>)
    ensures
        outcome(r) == unit_range_check(value@, field@),
{
    let min = Decimal::zero();
    let max = Decimal::one();
    if value.lt(&min) || value.ge(&max) {
        let mut s = field.to_owned();
        s.append(" must be >= ");
        s.append(min.to_text().as_str());
        s.append(" and < ");
        s.append(max.to_text().as_str());
        return err(s);
    }
    Ok(())
}

impl EvaluationConfig {
    /// Buffers in `[0, 1)`, positive minimum sizes and intervals, and a minimum edge
    /// that is not negative.
    pub fn validate(&self) -> (r: Result<(), ConfigError>)
        ensures
            outcome(r) == evaluation_config_check(*self),
    {
        let zero = Decimal::zero();
        let r1 = validate_unit_range(&self.trigger_buffer, "eval.trigger_buffer");
        if r1.is_err() {
            return r1;
        }
        let r2 = validate_unit_range(&self.execution_buffer, "eval.execution_buffer");
        if r2.is_err() {
            return r2;
        }
        if self.min_seconds_to_end == 0 {
            return err("eval.min_seconds_to_end must be greater than 0".to_owned());
        }
        if self.max_book_age_ms == 0 {
            return err("eval.max_book_age_ms must be greater than 0".to_owned());
        }
        if self.min_top_book_size.le(&zero) {
            return err("eval.min_top_book_size must be greater than 0".to_owned());
        }
        if self.min_depth_confirmed_size.le(&zero) {
            return err("eval.min_depth_confirmed_size must be greater than 0".to_owned());
        }
        if self.min_gross_edge.lt(&zero) {
            return err("eval.min_gross_edge cannot be negative".to_owned());
        }
        if self.eval_interval_ms == 0 {
            return err("eval.eval_interval_ms must be greater than 0".to_owned());
        }
        if self.discovery_interval_ms == 0 {
            return err("eval.discovery_interval_ms must be greater than 0".to_owned());
        }
        Ok(())
    }
}

impl RtdsConfig {
    pub fn validate(&self) -> (r: Result<(), ConfigError>)
        ensures
            outcome(r) == rtds_config_check(*self),
    {
        if is_blank(self.websocket_url.as_str()) {
            return err("rtds.websocket_url cannot be empty".to_owned());
        }
        if is_blank(self.topic.as_str()) {
            return err("rtds.topic cannot be empty".to_owned());
        }
        if self.reconnect_backoff_ms == 0 {
            return err("rtds.reconnect_backoff_ms must be greater than 0".to_owned());
        }
        Ok(())
    }
}

impl ClobConfig {
    pub fn validate(&self) -> (r: Result<(), ConfigError>)
        ensures
            outcome(r) == clob_config_check(*self),
    {
        if is_blank(self.websocket_url.as_str()) {
            return err("clob.websocket_url cannot be empty".to_owned());
        }
        if self.max_subscription_tokens == 0 {
            return err("clob.max_subscription_tokens must be greater than 0".to_owned());
        }
        if self.reconnect_backoff_ms == 0 {
            return err("clob.reconnect_backoff_ms must be greater than 0".to_owned());
        }
        Ok(())
    }
}

impl StorageConfig {
    /// No path is blank; the first blank one is named.
    pub fn validate(&self) -> (r: Result<(), ConfigError>)
        ensures
            outcome(r) == storage_check_from(storage_paths(*self), 0),
    {
        let ghost paths = storage_paths(*self);
        let names: [&str; 7] = [
            "storage.data_dir",
            "storage.ticks_dir",
            "storage.ptbs_dir",
            "storage.books_dir",
            "storage.evaluations_dir",
            "storage.opportunities_dir",
            "storage.replay_dir",
        ];
        let values: [&String; 7] = [
            &self.data_dir,
            &self.ticks_dir,
            &self.ptbs_dir,
            &self.books_dir,
            &self.evaluations_dir,
            &self.opportunities_dir,
            &self.replay_dir,
        ];
        let mut i: usize = 0;
        while i < 7
            invariant
                i <= 7,
                paths == storage_paths(*self),
                forall|k: int| 0 <= k < 7 ==> #[trigger] names@[k]@ == paths[k].0,
                forall|k: int| 0 <= k < 7 ==> #[trigger] values@[k]@ == paths[k].1,
                storage_check_from(paths, 0) == storage_check_from(paths, i as int),
            decreases 7 - i,
        {
            if is_blank(values[i].as_str()) {
                return err(join(names[i], " cannot be empty"));
            }
            i = i + 1;
        }
        Ok(())
    }
}

impl TelemetryConfig {
    pub fn validate(&self) -> (r: Result<(), ConfigError>)
        ensures
            outcome(r) == telemetry_config_check(*self),
    {
        if self.enabled && self.health_interval_ms == 0 {
            return err(
                "telemetry.health_interval_ms must be greater than 0 when telemetry is enabled".to_owned(),
            );
        }
        Ok(())
    }
}

impl Config {
    /// Checks each section in turn and reports the first refusal.
    pub fn validate(&self) -> (r: Result<(), ConfigError>)
        ensures
            outcome(r) == config_check(*self),
    {
        let r = self.assets.validate();
        if r.is_err() {
            return r;
        }
        let r = self.timeframes.validate();
        if r.is_err() {
            return r;
        }
        let r = self.pairs.validate(&self.timeframes);
        if r.is_err() {
            return r;
        }
        let r = self.eval.validate();
        if r.is_err() {
            return r;
        }
        let r = self.rtds.validate();
        if r.is_err() {
            return r;
        }
        let r = self.clob.validate();
        if r.is_err() {
            return r;
        }
        let r = self.storage.validate();
        if r.is_err() {
            return r;
        }
        self.telemetry.validate()
    }
}


/// Configuration as read from its sources: lists of names and decimals as text.
#[derive(Debug, Clone)]
pub struct RawConfig {
    pub assets: RawAssetConfig,
    pub timeframes: RawTimeframeConfig,
    pub pairs: RawPairConfig,
    pub eval: RawEvaluationConfig,
    pub rtds: RtdsConfig,
    pub clob: ClobConfig,
    pub storage: StorageConfig,
    pub telemetry: TelemetryConfig,
}

#[derive(Debug, Clone)]
pub struct RawAssetConfig {
    pub enabled: Vec<String>,
}

#[derive(Debug, Clone)]
pub struct RawTimeframeConfig {
    pub enabled: Vec<String>,
}

#[derive(Debug, Clone)]
pub struct RawPairConfig {
    pub allowed: Vec<RawPairType>,
}

#[derive(Debug, Clone)]
pub struct RawPairType {
    pub short: String,
    pub long: String,
}

#[derive(Debug, Clone)]
pub struct RawEvaluationConfig {
    pub trigger_buffer: String,
    pub execution_buffer: String,
    pub min_seconds_to_end: u64,
    pub max_book_age_ms: u64,
    pub min_top_book_size: String,
    pub min_depth_confirmed_size: String,
    pub min_gross_edge: String,
    pub eval_interval_ms: u64,
    pub discovery_interval_ms: u64,
}

/// Asset named by the text, case and surrounding white space ignored.
pub open spec fn parse_asset_spec(v: Seq<char>) -> Result<Asset, Seq<char>> {
    let u = upper_spec(trim_spec(v));
    if u == "BTC"@ {
        Ok(Asset::BTC)
    } else if u == "ETH"@ {
        Ok(Asset::ETH)
    } else if u == "SOL"@ {
        Ok(Asset::SOL)
    } else if u == "XRP"@ {
        Ok(Asset::XRP)
    } else {
        Err("unknown asset: "@ + u)
    }
}

/// Timeframe named by the text in one of its accepted spellings, case and surrounding
/// white space ignored.
pub open spec fn parse_timeframe_spec(v: Seq<char>) -> Result<Timeframe, Seq<char>> {
    let l = lower_spec(trim_spec(v));
    if l == "5m"@ || l == "five_min"@ || l == "fivemin"@ {
        Ok(Timeframe::FiveMin)
    } else if l == "15m"@ || l == "fifteen_min"@ || l == "fifteenmin"@ {
        Ok(Timeframe::FifteenMin)
    } else if l == "1h"@ || l == "one_hour"@ || l == "onehour"@ {
        Ok(Timeframe::OneHour)
    } else if l == "4h"@ || l == "four_hour"@ || l == "fourhour"@ {
        Ok(Timeframe::FourHour)
    } else if l == "1d"@ || l == "one_day"@ || l == "oneday"@ {
        Ok(Timeframe::OneDay)
    } else {
        Err("unknown timeframe: "@ + l)
    }
}

/// The decimal written in `v`, or the refusal naming the field.
pub open spec fn parse_decimal_spec(v: Seq<char>, field: Seq<char>) -> Result<DecView, Seq<char>> {
    match decimal_parse(v) {
        Some(d) => Ok(d),
        None => Err("failed to parse "@ + field + " as decimal: "@ + v),
    }
}

/// A parse result, the value taken by `f` and the error by its message.
pub open spec fn result_view<T, V>(r: Result<T, ConfigError>, f: spec_fn(T) -> V) -> Result<V, Seq<char>> {
    match r {
        Ok(t) => Ok(f(t)),
        Err(e) => Err(e.message@),
    }
}

fn fail<T>(message: String) -> (r: Result<T, ConfigError>)
    ensures
        r matches Err(e) && e.message@ == message@,
{
    Err(ConfigError { message })
}

/// Parses an asset name.
pub fn parse_asset(value: &str) -> (r: Result<Asset, ConfigError>)
    ensures
        result_view(r, |a: Asset| a) == parse_asset_spec(value@),
{
    let trimmed = trim(value);
    let u = to_ascii_uppercase(trimmed.as_str());
    let us = u.as_str();
    if str_eq(us, "BTC") {
        Ok(Asset::BTC)
    } else if str_eq(us, "ETH") {
        Ok(Asset::ETH)
    } else if str_eq(us, "SOL") {
        Ok(Asset::SOL)
    } else if str_eq(us, "XRP") {
        Ok(Asset::XRP)
    } else {
        fail(join("unknown asset: ", us))
    }
}

/// Parses a timeframe name.
pub fn parse_timeframe(value: &str) -> (r: Result<Timeframe, ConfigError>)
    ensures
        result_view(r, |t: Timeframe| t) == parse_timeframe_spec(value@),
{
    let trimmed = trim(value);
    let l = to_ascii_lowercase(trimmed.as_str());
    let ls = l.as_str();
    if str_eq(ls, "5m") || str_eq(ls, "five_min") || str_eq(ls, "fivemin") {
        Ok(Timeframe::FiveMin)
    } else if str_eq(ls, "15m") || str_eq(ls, "fifteen_min") || str_eq(ls, "fifteenmin") {
        Ok(Timeframe::FifteenMin)
    } else if str_eq(ls, "1h") || str_eq(ls, "one_hour") || str_eq(ls, "onehour") {
        Ok(Timeframe::OneHour)
    } else if str_eq(ls, "4h") || str_eq(ls, "four_hour") || str_eq(ls, "fourhour") {
        Ok(Timeframe::FourHour)
    } else if str_eq(ls, "1d") || str_eq(ls, "one_day") || str_eq(ls, "oneday") {
        Ok(Timeframe::OneDay)
    } else {
        fail(join("unknown timeframe: ", ls))
    }
}

/// Label of a timeframe.
pub fn format_timeframe(timeframe: &Timeframe) -> (r: &'static str)
    ensures
        r@ == timeframe_label(*timeframe),
{
    timeframe.label()
}

/// Length of a timeframe in seconds.
pub fn timeframe_seconds(timeframe: &Timeframe) -> (r: u64)
    ensures
        r as nat == timeframe_secs(*timeframe),
{
    timeframe.seconds()
}

/// Parses a decimal field.
pub fn parse_decimal(value: &str, field_name: &str) -> (r: Result<Decimal, ConfigError>)
    ensures
        result_view(r, |d: Decimal| d@) == parse_decimal_spec(value@, field_name@),
{
    match Decimal::parse(value) {
        Some(d) => Ok(d),
        None => {
            let mut s = "failed to parse ".to_owned();
            s.append(field_name);
            s.append(" as decimal: ");
            s.append(value);
            fail(s)
        },
    }
}

/// Parses each name in turn; the first refusal stops.
pub open spec fn parse_assets_spec(v: Seq<Seq<char>>) -> Result<Seq<Asset>, Seq<char>>
    decreases v.len(),
{
    if v.len() == 0 {
        Ok(Seq::empty())
    } else {
        match parse_assets_spec(v.drop_last()) {
            Err(e) => Err(e),
            Ok(s) => match parse_asset_spec(v.last()) {
                Err(e) => Err(e),
                Ok(a) => Ok(s.push(a)),
            },
        }
    }
}

/// Parses each name in turn; the first refusal stops.
pub open spec fn parse_timeframes_spec(v: Seq<Seq<char>>) -> Result<Seq<Timeframe>, Seq<char>>
    decreases v.len(),
{
    if v.len() == 0 {
        Ok(Seq::empty())
    } else {
        match parse_timeframes_spec(v.drop_last()) {
            Err(e) => Err(e),
            Ok(s) => match parse_timeframe_spec(v.last()) {
                Err(e) => Err(e),
                Ok(a) => Ok(s.push(a)),
            },
        }
    }
}

/// Parses each pair, short then long; the first refusal stops.
pub open spec fn parse_pairs_spec(v: Seq<(Seq<char>, Seq<char>)>) -> Result<Seq<PairType>, Seq<char>>
    decreases v.len(),
{
    if v.len() == 0 {
        Ok(Seq::empty())
    } else {
        match parse_pairs_spec(v.drop_last()) {
            Err(e) => Err(e),
            Ok(s) => match parse_timeframe_spec(v.last().0) {
                Err(e) => Err(e),
                Ok(short) => match parse_timeframe_spec(v.last().1) {
                    Err(e) => Err(e),
                    Ok(long) => Ok(s.push(PairType { short, long })),
                },
            },
        }
    }
}

pub open spec fn strings_view(v: Seq<String>) -> Seq<Seq<char>> {
    v.map_values(|s: String| s@)
}

pub open spec fn raw_pairs_view(v: Seq<RawPairType>) -> Seq<(Seq<char>, Seq<char>)> {
    v.map_values(|p: RawPairType| (p.short@, p.long@))
}

fn parse_assets(v: &Vec<String>) -> (r: Result<Vec<Asset>, ConfigError>)
    ensures
        result_view(r, |x: Vec<Asset>| x@) == parse_assets_spec(strings_view(v@)),
{
    let mut out: Vec<Asset> = Vec::new();
    let mut i: usize = 0;
    assert(strings_view(v@.take(0)) =~= Seq::<Seq<char>>::empty());
    while i < v.len()
        invariant
            i <= v.len(),
            parse_assets_spec(strings_view(v@.take(i as int))) == Ok::<Seq<Asset>, Seq<char>>(out@),
        decreases v.len() - i,
    {
        proof {
            let t = strings_view(v@.take(i + 1));
            assert(t.drop_last() =~= strings_view(v@.take(i as int)));
            assert(t.last() == v@[i as int]@);
        }
        match parse_asset(v[i].as_str()) {
            Ok(a) => out.push(a),
            Err(e) => {
                proof {
                    let t = strings_view(v@.take(i + 1));
                    lemma_assets_prefix_err(strings_view(v@), (i + 1) as int);
                    assert(strings_view(v@.take(i + 1)) =~= strings_view(v@).take(i + 1));
                }
                return Err(e);
            },
        }
        i = i + 1;
    }
    assert(v@.take(v.len() as int) =~= v@);
    Ok(out)
}

proof fn lemma_assets_prefix_err(v: Seq<Seq<char>>, k: int)
    requires
        0 <= k <= v.len(),
        parse_assets_spec(v.take(k)) is Err,
    ensures
        parse_assets_spec(v) == parse_assets_spec(v.take(k)),
    decreases v.len() - k,
{
    if k < v.len() {
        assert(v.take(k + 1).drop_last() =~= v.take(k));
        lemma_assets_prefix_err(v, k + 1);
    } else {
        assert(v.take(k) =~= v);
    }
}

proof fn lemma_timeframes_prefix_err(v: Seq<Seq<char>>, k: int)
    requires
        0 <= k <= v.len(),
        parse_timeframes_spec(v.take(k)) is Err,
    ensures
        parse_timeframes_spec(v) == parse_timeframes_spec(v.take(k)),
    decreases v.len() - k,
{
    if k < v.len() {
        assert(v.take(k + 1).drop_last() =~= v.take(k));
        lemma_timeframes_prefix_err(v, k + 1);
    } else {
        assert(v.take(k) =~= v);
    }
}

proof fn lemma_pairs_prefix_err(v: Seq<(Seq<char>, Seq<char>)>, k: int)
    requires
        0 <= k <= v.len(),
        parse_pairs_spec(v.take(k)) is Err,
    ensures
        parse_pairs_spec(v) == parse_pairs_spec(v.take(k)),
    decreases v.len() - k,
{
    if k < v.len() {
        assert(v.take(k + 1).drop_last() =~= v.take(k));
        lemma_pairs_prefix_err(v, k + 1);
    } else {
        assert(v.take(k) =~= v);
    }
}

fn parse_timeframes(v: &Vec<String>) -> (r: Result<Vec<Timeframe>, ConfigError>)
    ensures
        result_view(r, |x: Vec<Timeframe>| x@) == parse_timeframes_spec(strings_view(v@)),
{
    let mut out: Vec<Timeframe> = Vec::new();
    let mut i: usize = 0;
    assert(strings_view(v@.take(0)) =~= Seq::<Seq<char>>::empty());
    while i < v.len()
        invariant
            i <= v.len(),
            parse_timeframes_spec(strings_view(v@.take(i as int))) == Ok::<Seq<Timeframe>, Seq<char>>(
                out@,
            ),
        decreases v.len() - i,
    {
        proof {
            let t = strings_view(v@.take(i + 1));
            assert(t.drop_last() =~= strings_view(v@.take(i as int)));
            assert(t.last() == v@[i as int]@);
        }
        match parse_timeframe(v[i].as_str()) {
            Ok(a) => out.push(a),
            Err(e) => {
                proof {
                    lemma_timeframes_prefix_err(strings_view(v@), (i + 1) as int);
                    assert(strings_view(v@.take(i + 1)) =~= strings_view(v@).take(i + 1));
                }
                return Err(e);
            },
        }
        i = i + 1;
    }
    assert(v@.take(v.len() as int) =~= v@);
    Ok(out)
}

fn parse_pairs(v: &Vec<RawPairType>) -> (r: Result<Vec<PairType>, ConfigError>)
    ensures
        result_view(r, |x: Vec<PairType>| x@) == parse_pairs_spec(raw_pairs_view(v@)),
{
    let mut out: Vec<PairType> = Vec::new();
    let mut i: usize = 0;
    assert(raw_pairs_view(v@.take(0)) =~= Seq::<(Seq<char>, Seq<char>)>::empty());
    while i < v.len()
        invariant
            i <= v.len(),
            parse_pairs_spec(raw_pairs_view(v@.take(i as int))) == Ok::<Seq<PairType>, Seq<char>>(
                out@,
            ),
        decreases v.len() - i,
    {
        proof {
            let t = raw_pairs_view(v@.take(i + 1));
            assert(t.drop_last() =~= raw_pairs_view(v@.take(i as int)));
            assert(t.last() == (v@[i as int].short@, v@[i as int].long@));
            assert(raw_pairs_view(v@.take(i + 1)) =~= raw_pairs_view(v@).take(i + 1));
        }
        let short = match parse_timeframe(v[i].short.as_str()) {
            Ok(t) => t,
            Err(e) => {
                proof {
                    lemma_pairs_prefix_err(raw_pairs_view(v@), (i + 1) as int);
                }
                return Err(e);
            },
        };
        let long = match parse_timeframe(v[i].long.as_str()) {
            Ok(t) => t,
            Err(e) => {
                proof {
                    lemma_pairs_prefix_err(raw_pairs_view(v@), (i + 1) as int);
                }
                return Err(e);
            },
        };
        out.push(PairType { short, long });
        i = i + 1;
    }
    assert(v@.take(v.len() as int) =~= v@);
    Ok(out)
}

/// The configuration that `raw` parses to: names and decimals parsed in the order
/// assets, timeframes, pairs, then the evaluation decimals; the first refusal stops.
pub open spec fn from_raw_spec(raw: RawConfig, c: Config) -> bool {
    &&& parse_assets_spec(strings_view(raw.assets.enabled@)) == Ok::<Seq<Asset>, Seq<char>>(c.assets.enabled@)
    &&& parse_timeframes_spec(strings_view(raw.timeframes.enabled@)) == Ok::<Seq<Timeframe>, Seq<char>>(
        c.timeframes.enabled@,
    )
    &&& parse_pairs_spec(raw_pairs_view(raw.pairs.allowed@)) == Ok::<Seq<PairType>, Seq<char>>(c.pairs.allowed@)
    &&& decimal_parse(raw.eval.trigger_buffer@) == Some(c.eval.trigger_buffer@)
    &&& decimal_parse(raw.eval.execution_buffer@) == Some(c.eval.execution_buffer@)
    &&& decimal_parse(raw.eval.min_top_book_size@) == Some(c.eval.min_top_book_size@)
    &&& decimal_parse(raw.eval.min_depth_confirmed_size@) == Some(c.eval.min_depth_confirmed_size@)
    &&& decimal_parse(raw.eval.min_gross_edge@) == Some(c.eval.min_gross_edge@)
    &&& c.eval.min_seconds_to_end == raw.eval.min_seconds_to_end
    &&& c.eval.max_book_age_ms == raw.eval.max_book_age_ms
    &&& c.eval.eval_interval_ms == raw.eval.eval_interval_ms
    &&& c.eval.discovery_interval_ms == raw.eval.discovery_interval_ms
    &&& c.rtds == raw.rtds
    &&& c.clob == raw.clob
    &&& c.storage == raw.storage
    &&& c.telemetry == raw.telemetry
}

/// The first refusal met while parsing `raw`, in the order of `from_raw_spec`.
pub open spec fn from_raw_error(raw: RawConfig) -> Option<Seq<char>> {
    if parse_assets_spec(strings_view(raw.assets.enabled@)) is Err {
        Some(parse_assets_spec(strings_view(raw.assets.enabled@))->Err_0)
    } else if parse_timeframes_spec(strings_view(raw.timeframes.enabled@)) is Err {
        Some(parse_timeframes_spec(strings_view(raw.timeframes.enabled@))->Err_0)
    } else if parse_pairs_spec(raw_pairs_view(raw.pairs.allowed@)) is Err {
        Some(parse_pairs_spec(raw_pairs_view(raw.pairs.allowed@))->Err_0)
    } else if parse_decimal_spec(raw.eval.trigger_buffer@, "eval.trigger_buffer"@) is Err {
        Some(parse_decimal_spec(raw.eval.trigger_buffer@, "eval.trigger_buffer"@)->Err_0)
    } else if parse_decimal_spec(raw.eval.execution_buffer@, "eval.execution_buffer"@) is Err {
        Some(parse_decimal_spec(raw.eval.execution_buffer@, "eval.execution_buffer"@)->Err_0)
    } else if parse_decimal_spec(raw.eval.min_top_book_size@, "eval.min_top_book_size"@) is Err {
        Some(parse_decimal_spec(raw.eval.min_top_book_size@, "eval.min_top_book_size"@)->Err_0)
    } else if parse_decimal_spec(
        raw.eval.min_depth_confirmed_size@,
        "eval.min_depth_confirmed_size"@,
    ) is Err {
        Some(
            parse_decimal_spec(
                raw.eval.min_depth_confirmed_size@,
                "eval.min_depth_confirmed_size"@,
            )->Err_0,
        )
    } else if parse_decimal_spec(raw.eval.min_gross_edge@, "eval.min_gross_edge"@) is Err {
        Some(parse_decimal_spec(raw.eval.min_gross_edge@, "eval.min_gross_edge"@)->Err_0)
    } else {
        None
    }
}

impl Config {
    /// Parses the names and decimals of `raw` into a configuration.
    pub fn from_raw(raw: RawConfig) -> (r: Result<Config, ConfigError>)
        ensures
            match r {
                Ok(c) => from_raw_error(raw) is None && from_raw_spec(raw, c),
                Err(e) => from_raw_error(raw) == Some(e.message@),
            },
    {
        let enabled_assets = match parse_assets(&raw.assets.enabled) {
            Ok(v) => v,
            Err(e) => return Err(e),
        };
        let enabled_timeframes = match parse_timeframes(&raw.timeframes.enabled) {
            Ok(v) => v,
            Err(e) => return Err(e),
        };
        let allowed = match parse_pairs(&raw.pairs.allowed) {
            Ok(v) => v,
            Err(e) => return Err(e),
        };
        let trigger_buffer = match parse_decimal(raw.eval.trigger_buffer.as_str(), "eval.trigger_buffer") {
            Ok(v) => v,
            Err(e) => return Err(e),
        };
        let execution_buffer = match parse_decimal(raw.eval.execution_buffer.as_str(), "eval.execution_buffer") {
            Ok(v) => v,
            Err(e) => return Err(e),
        };
        let min_top_book_size = match parse_decimal(raw.eval.min_top_book_size.as_str(), "eval.min_top_book_size") {
            Ok(v) => v,
            Err(e) => return Err(e),
        };
        let min_depth_confirmed_size = match parse_decimal(
            raw.eval.min_depth_confirmed_size.as_str(),
            "eval.min_depth_confirmed_size",
        ) {
            Ok(v) => v,
            Err(e) => return Err(e),
        };
        let min_gross_edge = match parse_decimal(raw.eval.min_gross_edge.as_str(), "eval.min_gross_edge") {
            Ok(v) => v,
            Err(e) => return Err(e),
        };
        let eval = EvaluationConfig {
            trigger_buffer,
            execution_buffer,
            min_seconds_to_end: raw.eval.min_seconds_to_end,
            max_book_age_ms: raw.eval.max_book_age_ms,
            min_top_book_size,
            min_depth_confirmed_size,
            min_gross_edge,
            eval_interval_ms: raw.eval.eval_interval_ms,
            discovery_interval_ms: raw.eval.discovery_interval_ms,
        };
        Ok(
            Config {
                assets: AssetConfig { enabled: enabled_assets },
                timeframes: TimeframeConfig { enabled: enabled_timeframes },
                pairs: PairConfig { allowed },
                eval,
                rtds: raw.rtds,
                clob: raw.clob,
                storage: raw.storage,
                telemetry: raw.telemetry,
            },
        )
    }
}


proof fn lemma_pair_check_from_ok(pairs: Seq<PairType>, enabled: Seq<Timeframe>, i: int, k: int)
    requires
        0 <= i <= k < pairs.len(),
        pair_check_from(pairs, enabled, i) is None,
    ensures
        pairs[k].short != pairs[k].long,
        enabled.contains(pairs[k].short),
        enabled.contains(pairs[k].long),
        timeframe_secs(pairs[k].short) < timeframe_secs(pairs[k].long),
    decreases k - i,
{
    if i < k {
        lemma_pair_check_from_ok(pairs, enabled, i + 1, k);
    }
}

/// Every pair of an accepted pair configuration has both timeframes enabled and its
/// short timeframe strictly shorter than its long one; no pair occurs twice.
pub proof fn lemma_valid_pairs_ordered(pairs: Seq<PairType>, enabled: Seq<Timeframe>, k: int)
    requires
        pair_config_check(pairs, enabled) is None,
        0 <= k < pairs.len(),
    ensures
        enabled.contains(pairs[k].short),
        enabled.contains(pairs[k].long),
        timeframe_secs(pairs[k].short) < timeframe_secs(pairs[k].long),
        !has_dup(pairs),
{
    lemma_pair_check_from_ok(pairs, enabled, 0, k);
}

/// Reading a timeframe's label gives the timeframe back.
proof fn lemma_label_parses(t: Timeframe)
    ensures
        parse_timeframe_spec(timeframe_label(t)) == Ok::<Timeframe, Seq<char>>(t),
{
    reveal_strlit("5m");
    reveal_strlit("five_min");
    reveal_strlit("fivemin");
    reveal_strlit("15m");
    reveal_strlit("fifteen_min");
    reveal_strlit("fifteenmin");
    reveal_strlit("1h");
    reveal_strlit("one_hour");
    reveal_strlit("onehour");
    reveal_strlit("4h");
    reveal_strlit("four_hour");
    reveal_strlit("fourhour");
    reveal_strlit("1d");
    reveal_strlit("one_day");
    reveal_strlit("oneday");
    let s = timeframe_label(t);
    lemma_trim_noop(s);
    lemma_lower_noop(s);
}

/// Parsing what `format_timeframe` writes gives the timeframe back, so no two timeframes
/// share a label.
pub proof fn lemma_timeframe_round_trip(t: Timeframe, u: Timeframe)
    ensures
        parse_timeframe_spec(timeframe_label(t)) == Ok::<Timeframe, Seq<char>>(t),
        timeframe_label(t) == timeframe_label(u) ==> t == u,
{
    lemma_label_parses(t);
    lemma_label_parses(u);
}

} // verus!
