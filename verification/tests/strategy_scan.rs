use cluebot::strategy::{
    matching_coin, ScanAction, ScanEvent, ScanPlan, CoinPair, select_coin_pairs, signal_id, spot_coin, swap_coin, MAX_COINS_PER_SCAN,
    STRATEGY_NAME,
};

fn strings(v: &[&str]) -> Vec<String> {
    v.iter().map(|s| s.to_string()).collect()
}

#[test]
fn test_compare_spot_swap_coins() {
    assert_eq!(matching_coin("BTC-USDT", "BTC-USDT-SWAP").as_deref(), Some("BTC"));
    assert_eq!(matching_coin("ETH-USDT", "BTC-USDT-SWAP"), None);
    // Without the swap suffix, the whole swap id is compared.
    assert_eq!(matching_coin("BTC-USDT", "BTC"), Some("BTC".to_string()));
    assert_eq!(matching_coin("BTC-USDT", "BTC-USD-SWAP"), None);
}

#[test]
fn test_instrument_coins() {
    assert_eq!(spot_coin("BTC-USDT").as_deref(), Some("BTC"));
    assert_eq!(spot_coin("BTC-USDC"), None);
    assert_eq!(spot_coin("BTC-USDT-SWAP"), None);
    assert_eq!(swap_coin("BTC-USDT-SWAP").as_deref(), Some("BTC"));
    assert_eq!(swap_coin("BTC-USD-SWAP"), None);
    // Every occurrence of the suffix is removed, as `str::replace` does.
    assert_eq!(spot_coin("A-USDTB-USDT").as_deref(), Some("AB"));
}

#[test]
fn test_select_coin_pairs() {
    let spot = strings(&["BTC-USDT", "ETH-USDT", "SOL-USDC", "DOGE-USDT"]);
    let swap = strings(&["ETH-USDT-SWAP", "BTC-USDT-SWAP", "XRP-USDT-SWAP", "SOL-USDT-SWAP"]);
    let pairs = select_coin_pairs(&spot, &swap, MAX_COINS_PER_SCAN);
    let mut coins: Vec<(String, String, String)> =
        pairs.iter().map(|p| (p.coin.clone(), p.spot_id.clone(), p.swap_id.clone())).collect();
    coins.sort();
    assert_eq!(
        coins,
        vec![
            ("BTC".to_string(), "BTC-USDT".to_string(), "BTC-USDT-SWAP".to_string()),
            ("ETH".to_string(), "ETH-USDT".to_string(), "ETH-USDT-SWAP".to_string()),
        ]
    );
}

#[test]
fn test_select_coin_pairs_limit() {
    let spot: Vec<String> = (0..40).map(|i| format!("C{}-USDT", i)).collect();
    let swap: Vec<String> = (0..40).map(|i| format!("C{}-USDT-SWAP", i)).collect();
    let pairs = select_coin_pairs(&spot, &swap, MAX_COINS_PER_SCAN);
    assert_eq!(pairs.len(), 30);
    let mut coins: Vec<&str> = pairs.iter().map(|p| p.coin.as_str()).collect();
    coins.sort();
    coins.dedup();
    assert_eq!(coins.len(), 30);
    let none = select_coin_pairs(&spot, &swap, 0);
    assert!(none.is_empty());
}

#[test]
fn test_select_coin_pairs_duplicates() {
    // The same coin listed twice counts once.
    let spot = strings(&["BTC-USDT", "BTC-USDT"]);
    let swap = strings(&["BTC-USDT-SWAP"]);
    let pairs = select_coin_pairs(&spot, &swap, 10);
    assert_eq!(pairs.len(), 1);
    assert_eq!(pairs[0].coin, "BTC");
}

#[test]
fn test_signal_id_and_name() {
    assert_eq!(signal_id("BTC", 1700000000), "vol-BTC-1700000000");
    assert_eq!(signal_id("ETH", -5), "vol-ETH--5");
    assert_eq!(STRATEGY_NAME, "VolatilityIncreaseShortSelling");
}

fn pair(coin: &str) -> CoinPair {
    CoinPair { coin: coin.to_string(), spot_id: format!("{}-USDT", coin), swap_id: format!("{}-USDT-SWAP", coin) }
}

#[test]
fn test_scan_plan() {
    let mut plan = ScanPlan::new(vec![pair("A"), pair("B"), pair("C")], 8);
    assert_eq!(plan.step(ScanEvent::Start), ScanAction::FetchSpot(0));
    // A: spot too short, skipped.
    assert_eq!(plan.step(ScanEvent::Candles(7)), ScanAction::FetchSpot(1));
    // B: both enough, evaluated.
    assert_eq!(plan.step(ScanEvent::Candles(8)), ScanAction::FetchSwap(1));
    assert_eq!(plan.step(ScanEvent::Candles(10)), ScanAction::Evaluate(1));
    assert_eq!(plan.pair(1).unwrap().coin, "B");
    assert_eq!(plan.step(ScanEvent::Evaluated), ScanAction::FetchSpot(2));
    // C: swap fetch failed, skipped.
    assert_eq!(plan.step(ScanEvent::Candles(9)), ScanAction::FetchSwap(2));
    assert_eq!(plan.step(ScanEvent::FetchFailed), ScanAction::Finished);
    assert_eq!(plan.step(ScanEvent::Start), ScanAction::Finished);
    assert!(plan.pair(3).is_none());
}

#[test]
fn test_scan_plan_empty() {
    let mut plan = ScanPlan::new(Vec::new(), 2);
    assert_eq!(plan.step(ScanEvent::Start), ScanAction::Finished);
}
