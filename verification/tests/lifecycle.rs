use cluebot::engine::Engine;
use cluebot::runtime::{LifecycleAction, LifecycleManager, LifecyclePass, Runtime, RuntimeState, StepEvent};
use std::cell::RefCell;

/// A module that records its hooks in a shared log and can be made to fail.
struct TestModule {
    name: String,
    fail_start: bool,
}

/// Drives a pass to its end, calling each module asked for; returns how it ended.
fn drive(runtime: &mut Runtime<TestModule>, mut pass: LifecyclePass, starting: bool, log: &RefCell<Vec<String>>) -> LifecycleAction {
    let mut action = runtime.step(&mut pass, StepEvent::Proceed);
    loop {
        match action {
            LifecycleAction::Invoke(i) => {
                let module = runtime.handler(i).unwrap();
                let ok = if starting { !module.fail_start } else { true };
                log.borrow_mut().push(format!("{} {}", if starting { "start" } else { "stop" }, module.name));
                action = runtime.step(&mut pass, if ok { StepEvent::Proceed } else { StepEvent::Failed });
            }
            other => return other,
        }
    }
}

#[test]
fn test_runtime_lifecycle() {
    let mut runtime: Runtime<TestModule> = Runtime::new();
    let log = RefCell::new(Vec::new());

    assert_eq!(runtime.state(), RuntimeState::Initialized);

    runtime.register(TestModule { name: "TestModule".to_string(), fail_start: false });

    let pass = runtime.start();
    assert_eq!(drive(&mut runtime, pass, true, &log), LifecycleAction::Finished);
    assert!(log.borrow().contains(&"start TestModule".to_string()));
    assert_eq!(runtime.state(), RuntimeState::Running);

    let pass = runtime.stop();
    assert_eq!(drive(&mut runtime, pass, false, &log), LifecycleAction::Finished);
    assert!(log.borrow().contains(&"stop TestModule".to_string()));
    assert_eq!(runtime.state(), RuntimeState::Stopped);
}

#[test]
fn test_multiple_modules() {
    let mut runtime: Runtime<TestModule> = Runtime::new();
    let log = RefCell::new(Vec::new());
    runtime.register(TestModule { name: "Module1".to_string(), fail_start: false });
    runtime.register(TestModule { name: "Module2".to_string(), fail_start: false });

    let pass = runtime.start();
    drive(&mut runtime, pass, true, &log);
    let pass = runtime.stop();
    drive(&mut runtime, pass, false, &log);

    assert_eq!(
        *log.borrow(),
        vec!["start Module1", "start Module2", "stop Module2", "stop Module1"]
    );
}

#[test]
fn test_failed_start_keeps_state() {
    let mut runtime: Runtime<TestModule> = Runtime::new();
    let log = RefCell::new(Vec::new());
    runtime.register(TestModule { name: "A".to_string(), fail_start: false });
    runtime.register(TestModule { name: "B".to_string(), fail_start: true });
    runtime.register(TestModule { name: "C".to_string(), fail_start: false });
    let pass = runtime.start();
    assert_eq!(drive(&mut runtime, pass, true, &log), LifecycleAction::Aborted);
    assert_eq!(*log.borrow(), vec!["start A", "start B"]);
    assert_eq!(runtime.state(), RuntimeState::Initialized);
}

#[test]
fn test_empty_pass_finishes() {
    let mut manager: LifecycleManager<()> = LifecycleManager::new();
    let mut pass = manager.start_pass();
    assert_eq!(manager.step(&mut pass, StepEvent::Proceed), LifecycleAction::Finished);
    assert_eq!(manager.state(), RuntimeState::Running);
    // An ended pass keeps its answer and changes nothing.
    assert_eq!(manager.step(&mut pass, StepEvent::Failed), LifecycleAction::Finished);
    assert_eq!(manager.state(), RuntimeState::Running);
}

#[test]
fn test_stop_pass_order() {
    let mut manager: LifecycleManager<u32> = LifecycleManager::new();
    for i in 0..4u32 {
        manager.register(i);
    }
    assert_eq!(manager.handler_count(), 4);
    let mut pass = manager.stop_pass();
    let mut seen = Vec::new();
    let mut action = manager.step(&mut pass, StepEvent::Proceed);
    while let LifecycleAction::Invoke(i) = action {
        seen.push(*manager.handler(i).unwrap());
        action = manager.step(&mut pass, StepEvent::Proceed);
    }
    assert_eq!(seen, vec![3, 2, 1, 0]);
    assert_eq!(manager.state(), RuntimeState::Stopped);
    assert!(manager.handler(4).is_none());
}

#[test]
fn test_engine_lifecycle() {
    let mut engine: Engine<&str, &str, &str, &str, u32> = Engine::new();

    assert_eq!(engine.state(), RuntimeState::Initialized);

    engine.load_strategy("TestStrategy");
    engine.add_market("TestMarket".to_string(), "TestMarket");
    engine.add_channel("TestChannel");

    engine.on_start();
    assert_eq!(engine.state(), RuntimeState::Running);
    assert_eq!(engine.executor().strategy_count(), 1);

    engine.on_stop();
    assert_eq!(engine.state(), RuntimeState::Stopped);
}
