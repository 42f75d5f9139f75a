use cluebot::engine::{collect_outcome, Engine, Executor, Monitor, SignalType, StrategyRun, SweepAction, TaskType, Ticker};

#[test]
fn test_executor() {
    let mut executor: Executor<&str> = Executor::new();
    executor.load_strategy("TestStrategy");
    assert_eq!(executor.strategy_count(), 1);

    // The test market returns no candles, so the strategy returns no signals.
    let mut run: StrategyRun<String, String> = executor.begin_run();
    while let SweepAction::Visit(i) = run.next_action() {
        assert_eq!(executor.strategy(i), Some(&"TestStrategy"));
        assert!(run.record(Ok(vec![])).is_none());
    }
    let signals = run.into_signals();
    assert_eq!(signals.len(), 0);
}

#[test]
fn test_collect_outcomes_skips_failures() {
    let mut signals: Vec<u32> = vec![1];
    assert!(collect_outcome(&mut signals, Ok::<Vec<u32>, &str>(vec![2, 3])).is_none());
    assert_eq!(collect_outcome(&mut signals, Err::<Vec<u32>, &str>("boom")), Some("boom"));
    assert!(collect_outcome(&mut signals, Ok::<Vec<u32>, &str>(vec![4])).is_none());
    assert_eq!(signals, vec![1, 2, 3, 4]);
}

#[test]
fn test_executor_positions() {
    let mut executor: Executor<u8> = Executor::new();
    executor.load_strategy(7);
    executor.load_strategy(9);
    assert_eq!(executor.strategy(0), Some(&7));
    assert_eq!(executor.strategy(1), Some(&9));
    assert_eq!(executor.strategy(2), None);
}

#[test]
fn test_monitor_finds_first_market_by_name() {
    let mut monitor: Monitor<u32, String> = Monitor::new();
    monitor.add_market("OKX".to_string(), 1);
    monitor.add_market("Binance".to_string(), 2);
    monitor.add_market("OKX".to_string(), 3);
    assert_eq!(monitor.market("OKX"), Some(&1));
    assert_eq!(monitor.market("Binance"), Some(&2));
    assert_eq!(monitor.market("Kraken"), None);
    assert_eq!(monitor.market_count(), 3);
    let (name, m) = monitor.market_at(2).unwrap();
    assert_eq!((name.as_str(), *m), ("OKX", 3));
}

#[test]
fn test_monitor_cache_keys() {
    let mut monitor: Monitor<u32, u32> = Monitor::new();
    monitor.cache_data("OKX", "BTC-USDT", 10);
    monitor.cache_data("OKX", "ETH-USDT", 20);
    monitor.cache_data("OKX", "BTC-USDT", 11);
    assert_eq!(monitor.cached("OKX:BTC-USDT"), Some(&11));
    assert_eq!(monitor.cached("OKX:ETH-USDT"), Some(&20));
    assert_eq!(monitor.cached("OKX:SOL-USDT"), None);
    assert_eq!(monitor.cache_entries().len(), 2);
}

#[test]
fn test_engine_tables() {
    let mut engine: Engine<u8, u8, u8, &str, u8> = Engine::new();
    assert!(engine.agent_handler().is_none());
    engine.set_agent_handler("agent");
    assert_eq!(engine.agent_handler(), Some(&"agent"));
    engine.add_channel(1);
    engine.add_channel(2);
    assert_eq!(engine.channels(), &vec![1, 2]);
    engine.add_market("M".to_string(), 5);
    assert_eq!(engine.monitor().market("M"), Some(&5));
    engine.cache_market_data("M", "X", 9);
    assert_eq!(engine.monitor().cached("M:X"), Some(&9));
}

#[test]
fn test_engine_data_types() {
    assert_eq!(SignalType::Buy.name(), "Buy");
    assert_eq!(SignalType::Sell.name(), "Sell");
    assert_eq!(SignalType::Alert.name(), "Alert");
    assert!(SignalType::Sell != SignalType::Buy);
    let t = Ticker { inst_id: "BTC-USDT".to_string(), last_price: "100".to_string(), open_24h: "90".to_string() };
    assert_eq!(t.clone().inst_id, "BTC-USDT");
    assert!(matches!(TaskType::Custom("x".to_string()), TaskType::Custom(ref s) if s == "x"));
}

#[test]
fn test_strategy_run_in_load_order() {
    let mut executor: Executor<&str> = Executor::new();
    executor.load_strategy("first");
    executor.load_strategy("second");
    executor.load_strategy("third");
    let mut run: StrategyRun<u32, String> = executor.begin_run();
    let mut asked = Vec::new();
    while let SweepAction::Visit(i) = run.next_action() {
        asked.push(*executor.strategy(i).unwrap());
        let outcome = match i {
            0 => Ok(vec![1, 2]),
            1 => Err("down".to_string()),
            _ => Ok(vec![3]),
        };
        let failure = run.record(outcome);
        assert_eq!(failure.is_some(), i == 1);
    }
    assert_eq!(asked, vec!["first", "second", "third"]);
    assert_eq!(run.into_signals(), vec![1, 2, 3]);
}

#[test]
fn test_ticker_collection() {
    let mut monitor: Monitor<u8, u8> = Monitor::new();
    monitor.add_market("OKX".to_string(), 1);
    monitor.add_market("Down".to_string(), 2);
    monitor.add_market("OKX".to_string(), 3);
    let mut c = monitor.begin_ticker_collection::<&str>();
    let tick = |id: &str| Ticker { inst_id: id.to_string(), last_price: "1".to_string(), open_24h: "1".to_string() };
    let mut visits = Vec::new();
    while let SweepAction::Visit(i) = c.next_action() {
        visits.push(i);
        let (name, _) = monitor.market_at(i).unwrap();
        let outcome = match i {
            0 => Ok(vec![tick("A")]),
            1 => Err("timeout"),
            _ => Ok(vec![tick("B"), tick("C")]),
        };
        c.record(name.clone(), outcome);
    }
    assert_eq!(visits, vec![0, 1, 2]);
    let table = c.into_table();
    assert_eq!(table.len(), 1);
    assert_eq!(table[0].0, "OKX");
    assert_eq!(table[0].1.len(), 2);
}

#[test]
fn test_notification_sweep() {
    let mut engine: Engine<u8, u8, &str, u8, u8> = Engine::new();
    engine.add_channel("mail");
    engine.add_channel("lark");
    let mut sweep = engine.begin_notification();
    let mut sent = Vec::new();
    while let SweepAction::Visit(i) = sweep.next_action() {
        sent.push(engine.channels()[i]);
        sweep.advance();
    }
    assert_eq!(sent, vec!["mail", "lark"]);
    assert_eq!(sweep.next_action(), SweepAction::Finished);
}
