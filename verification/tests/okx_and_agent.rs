use cluebot::agent::{
    Analyzer, PriceLines, build_discovery_prompt, discovery_summary, monitor_recommendation, pattern_recognition_prompt,
    pattern_summary, review_recommendation, signal_analysis_prompt, signal_analysis_summary, AgentManager,
    AgentTaskType,
};
use cluebot::engine::SignalType;
use cluebot::okx::{candle_timestamp, candles_url, check_reply_code, tickers_url, CandleError, OkxError, MARKET_NAME};
use cluebot::text::{i64_to_string, parse_i64, replace_str, u64_to_string};

#[test]
fn test_candle_timestamp() {
    let data: Vec<String> = vec!["1640995200000", "100.0", "110.0", "90.0", "105.0", "1000.0"]
        .into_iter()
        .map(String::from)
        .collect();
    assert_eq!(candle_timestamp(&data), Ok(1640995200000));
    assert_eq!(candle_timestamp(&data[..5].to_vec()), Err(CandleError::TooShort));
    let mut bad = data.clone();
    bad[0] = "12x".to_string();
    assert_eq!(candle_timestamp(&bad), Err(CandleError::InvalidTimestamp));
}

#[test]
fn test_parse_i64_matches_std() {
    let cases = [
        "0", "-0", "+7", "-", "+", "", "12a", " 1", "9223372036854775807", "9223372036854775808",
        "-9223372036854775808", "-9223372036854775809", "00042", "99999999999999999999999",
    ];
    for c in cases {
        assert_eq!(parse_i64(c), c.parse::<i64>().ok(), "input {:?}", c);
    }
}

#[test]
fn test_number_text() {
    assert_eq!(u64_to_string(0), "0");
    assert_eq!(u64_to_string(18446744073709551615), "18446744073709551615");
    assert_eq!(i64_to_string(i64::MIN), "-9223372036854775808");
    assert_eq!(i64_to_string(-42), "-42");
    assert_eq!(replace_str("a-USDT-b-USDT", "-USDT", ""), "a-b");
}

#[test]
fn test_okx_urls() {
    assert_eq!(tickers_url("SPOT"), "https://www.okx.com/api/v5/market/tickers?instType=SPOT");
    assert_eq!(
        candles_url("BTC-USDT", "1H", 8),
        "https://www.okx.com/api/v5/market/candles?instId=BTC-USDT&bar=1H&limit=8"
    );
    assert_eq!(MARKET_NAME, "OKX");
}

#[test]
fn test_okx_reply_codes() {
    assert!(check_reply_code("0", &None).is_ok());
    match check_reply_code("51001", &Some("Instrument ID does not exist".to_string())) {
        Err(OkxError::Api(Some(m))) => assert_eq!(m, "Instrument ID does not exist"),
        _ => panic!("a non-zero code was accepted"),
    }
    assert!(matches!(check_reply_code("00", &None), Err(OkxError::Api(None))));
}

#[test]
fn test_agent_manager() {
    let mut manager: AgentManager<&str> = AgentManager::new();
    manager.register_agent("mock".to_string(), "MockAgent");
    let agent = manager.get_agent("mock");
    assert!(agent.is_some());
    assert_eq!(*agent.unwrap(), "MockAgent");
    assert!(manager.get_agent("other").is_none());
    manager.register_agent("mock".to_string(), "Replacement");
    assert_eq!(manager.get_agent("mock"), Some(&"Replacement"));
}

#[test]
fn test_discovery_prompt() {
    let p = build_discovery_prompt("A", &Some("up".to_string()), &None, &Some("Upward breakout".to_string()));
    assert_eq!(
        p,
        "Please analyze the following market data and identify potential trading opportunities:\n\nA\n\
         \nTrend Recognition: up\nBreakout Pattern: Upward breakout\n\nPlease provide:\n\
         1. Trading opportunity assessment\n2. Recommended strategy type\n3. Risk level assessment\n\
         4. Specific operation recommendations\n"
    );
}

#[test]
fn test_signal_prompt() {
    let p = signal_analysis_prompt("id1", "S", SignalType::Sell, "BTC-USDT", "d", "{\"k\":1}");
    assert_eq!(
        p,
        format!(
            "Please analyze the following trading signal:\n\n\
            Signal ID: {}\n\
            Strategy: {}\n\
            Type: {:?}\n\
            Trading Pair: {}\n\
            Description: {}\n\
            Data: {}\n\n\
            Please provide:\n\
            1. Signal quality assessment\n\
            2. Potential risk points\n\
            3. Execution recommendations",
            "id1", "S", "Sell", "BTC-USDT", "d", "{\"k\":1}"
        )
        .replace("\"Sell\"", "Sell")
    );
    assert!(pattern_recognition_prompt("X").starts_with(
        "Please analyze the following multiple trading pairs' market data and identify common patterns:\n\nX\n\n"
    ));
}

#[test]
fn test_report_texts() {
    assert_eq!(signal_analysis_summary("BTC-USDT"), "Signal analysis completed: BTC-USDT");
    assert_eq!(discovery_summary("BTC-USDT"), "Strategy discovery: BTC-USDT");
    assert_eq!(pattern_summary(3), "Pattern recognition completed: analyzed 3 trading pairs");
    let r = review_recommendation();
    assert_eq!((r.action_type.as_str(), r.priority.as_str()), ("Review", "medium"));
    let m = monitor_recommendation("high");
    assert_eq!((m.action_type.as_str(), m.priority.as_str()), ("Monitor", "high"));
    assert!(AgentTaskType::AnalyzeSignal != AgentTaskType::DiscoverStrategy);
}

#[test]
fn test_analyze_multiple_data() {
    let few: Vec<(String, String)> = vec![("BTC-USDT".to_string(), "10.00".to_string())];
    assert_eq!(Analyzer::analyze_multiple_data(&few), "Analyzing 1 trading pairs\n\n- BTC-USDT: 10.00%\n");
    let many: Vec<(String, String)> = (0..7).map(|i| (format!("P{}", i), format!("{}.00", i))).collect();
    let text = Analyzer::analyze_multiple_data(&many);
    assert!(text.starts_with("Analyzing 7 trading pairs\n\n- P0: 0.00%\n"));
    assert!(text.contains("- P4: 4.00%\n"));
    assert!(!text.contains("P5"));
    assert!(text.ends_with("... and 2 more trading pairs\n"));
}

#[test]
fn test_analyzer() {
    // Market data of BTC-USDT with two candles and a 10% price change.
    let change: f64 = 10.0;
    let prices = PriceLines {
        open: format!("{:.2}", 100.0f64),
        latest: format!("{:.2}", 110.0f64),
        highest: format!("{:.2}", 115.0f64),
        lowest: format!("{:.2}", 90.0f64),
    };
    let analysis = Analyzer::analyze_market_data("BTC-USDT", "test", &format!("{:.2}", change), 2, &Some(prices));
    assert!(analysis.contains("BTC-USDT"));
    assert!(analysis.contains("10.00%"));
    assert_eq!(
        analysis,
        "Trading Pair: BTC-USDT\nData Source: test\nPrice Change: 10.00%\nCandle Count: 2\n\
         Open Price: 100.00\nLatest Price: 110.00\nHighest Price: 115.00\nLowest Price: 90.00\n"
    );
    let empty = Analyzer::analyze_market_data("X", "s", "0.00", 0, &None);
    assert_eq!(empty, "Trading Pair: X\nData Source: s\nPrice Change: 0.00%\nCandle Count: 0\n");
}
