use c3po::config::{parse_asset, parse_timeframe, PairConfig, PairType, TimeframeConfig};
use c3po::types::{Asset, Timeframe};

#[test]
fn parses_asset_strings() {
    assert_eq!(parse_asset("BTC").unwrap(), Asset::BTC);
    assert_eq!(parse_asset("eth").unwrap(), Asset::ETH);
    assert_eq!(parse_asset("sol").unwrap(), Asset::SOL);
    assert_eq!(parse_asset("xrp").unwrap(), Asset::XRP);
}

#[test]
fn parses_timeframe_strings() {
    assert_eq!(parse_timeframe("5m").unwrap(), Timeframe::FiveMin);
    assert_eq!(parse_timeframe("15m").unwrap(), Timeframe::FifteenMin);
    assert_eq!(parse_timeframe("1h").unwrap(), Timeframe::OneHour);
    assert_eq!(parse_timeframe("4h").unwrap(), Timeframe::FourHour);
    assert_eq!(parse_timeframe("1d").unwrap(), Timeframe::OneDay);
}

#[test]
fn rejects_invalid_pair_order() {
    let timeframes = TimeframeConfig {
        enabled: vec![Timeframe::FiveMin, Timeframe::FifteenMin, Timeframe::OneHour],
    };
    let pairs = PairConfig {
        allowed: vec![PairType { short: Timeframe::OneHour, long: Timeframe::FiveMin }],
    };
    assert!(pairs.validate(&timeframes).is_err());
}

#[test]
fn accepts_valid_pair_order() {
    let timeframes = TimeframeConfig {
        enabled: vec![Timeframe::FiveMin, Timeframe::FifteenMin, Timeframe::OneHour],
    };
    let pairs = PairConfig {
        allowed: vec![
            PairType { short: Timeframe::FiveMin, long: Timeframe::FifteenMin },
            PairType { short: Timeframe::FifteenMin, long: Timeframe::OneHour },
        ],
    };
    assert!(pairs.validate(&timeframes).is_ok());
}

#[test]
fn rejects_unknown_asset_and_timeframe() {
    assert!(parse_asset("doge").is_err());
    assert!(parse_timeframe("2h").is_err());
}

#[test]
fn rejects_equal_pair_timeframes_with_message() {
    let timeframes = TimeframeConfig { enabled: vec![Timeframe::FiveMin, Timeframe::FifteenMin] };
    let pairs = PairConfig { allowed: vec![PairType { short: Timeframe::FiveMin, long: Timeframe::FiveMin }] };
    let err = pairs.validate(&timeframes).unwrap_err();
    assert_eq!(err.message, "invalid pair 5m-5m: short and long timeframes cannot be equal");
}

#[test]
fn timeframe_labels_parse_back() {
    for tf in [Timeframe::FiveMin, Timeframe::FifteenMin, Timeframe::OneHour, Timeframe::FourHour, Timeframe::OneDay] {
        assert_eq!(parse_timeframe(c3po::config::format_timeframe(&tf)).unwrap(), tf);
    }
}
