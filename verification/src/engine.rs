//! The engine: loaded strategies, markets, notification channels, the agent
//! task handler, the market data cache and the engine's lifecycle state.
//!
//! Strategies, markets, channels and the agent handler are held as opaque
//! handles (`S`, `M`, `C`, `H`); market data as `D`. Running a strategy,
//! fetching from a market or sending through a channel is asynchronous work
//! that the caller performs on the handles; the engine keeps the tables, finds
//! what a request refers to and folds the outcomes together.

use vstd::prelude::*;
use crate::registry::{entry_map, find_entry, insert_entry, lemma_entry_map, names_distinct};
use crate::runtime::RuntimeState;

verus! {

/// Kind of a trading signal.
#[derive(PartialEq, Eq, Structural, Clone, Copy, Debug)]
pub enum SignalType {
    Buy,
    Sell,
    Alert,
}

/// The name of a signal kind, as `{:?}` prints it.
pub open spec fn signal_type_name(t: SignalType) -> Seq<char> {
    match t {
        SignalType::Buy => "Buy"@,
        SignalType::Sell => "Sell"@,
        SignalType::Alert => "Alert"@,
    }
}

impl SignalType {
    /// The kind's name: `Buy`, `Sell` or `Alert`.
    pub fn name(&self) -> (s: &'static str)
        ensures
            s@ == signal_type_name(*self),
    {
        match self {
            SignalType::Buy => "Buy",
            SignalType::Sell => "Sell",
            SignalType::Alert => "Alert",
        }
    }
}

/// Kind of a scheduled task.
#[derive(Clone, Debug)]
pub enum TaskType {
    /// Check strategy conditions.
    CheckConditions,
    /// Fetch market data.
    FetchMarketData,
    /// A custom task.
    Custom(String),
}

/// Latest quote of a trading pair.
#[derive(Clone, Debug)]
pub struct Ticker {
    /// Trading pair id, e.g. `BTC-USDT`.
    pub inst_id: String,
    /// Latest price.
    pub last_price: String,
    /// Opening price of the last 24 hours.
    pub open_24h: String,
}

/// The signals of a run over strategies: those of each strategy that succeeded, in order.
pub open spec fn successful_signals<T, E>(outcomes: Seq<Result<Vec<T>, E>>) -> Seq<T>
    decreases outcomes.len(),
{
    if outcomes.len() == 0 {
        Seq::empty()
    } else {
        successful_signals(outcomes.drop_last()) + match outcomes.last() {
            Ok(v) => v@,
            Err(_) => Seq::empty(),
        }
    }
}

/// Folds one strategy's outcome into the signals collected so far: its signals are appended
/// when it succeeded; its error is handed back (for reporting) when it failed, and the
/// collected signals stay as they were.
pub fn collect_outcome<T, E>(all: &mut Vec<T>, outcome: Result<Vec<T>, E>) -> (failure: Option<E>)
    ensures
        outcome matches Ok(v) ==> final(all)@ == old(all)@ + v@ && failure is None,
        outcome matches Err(e) ==> final(all)@ == old(all)@ && failure == Some(e),
{
    match outcome {
        Ok(v) => {
            let mut v = v;
            let ghost vs = v@;
            all.append(&mut v);
            assert(all@ =~= old(all)@ + vs);
            None
        },
        Err(e) => Some(e),
    }
}

/// Collecting the outcomes of a run one after another gives the signals of the strategies that
/// succeeded, in order.
pub proof fn law_collect_outcomes_in_order<T, E>(outcomes: Seq<Result<Vec<T>, E>>, last: Result<Vec<T>, E>)
    ensures
        successful_signals(outcomes.push(last)) == successful_signals(outcomes) + match last {
            Ok(v) => v@,
            Err(_) => Seq::<T>::empty(),
        },
{
    assert(outcomes.push(last).drop_last() =~= outcomes);
}

// ==================== Executor ====================

/// The loaded strategies.
pub struct Executor<S> {
    strategies: Vec<S>,
}

impl<S> Executor<S> {
    /// The loaded strategies, in loading order.
    pub closed spec fn strategies(&self) -> Seq<S> {
        self.strategies@
    }

    /// An executor with no strategies.
    pub fn new() -> (e: Executor<S>)
        ensures
            e.strategies() == Seq::<S>::empty(),
    {
        Executor { strategies: Vec::new() }
    }

    /// Loads a strategy after those already loaded.
    pub fn load_strategy(&mut self, strategy: S)
        ensures
            final(self).strategies() == old(self).strategies().push(strategy),
    {
        self.strategies.push(strategy);
    }

    /// Number of loaded strategies.
    pub fn strategy_count(&self) -> (n: usize)
        ensures
            n == self.strategies().len(),
    {
        self.strategies.len()
    }

    /// The strategy loaded at position `index`, if any; a run goes through positions
    /// `0..strategy_count()` in order.
    pub fn strategy(&self, index: usize) -> (s: Option<&S>)
        ensures
            index < self.strategies().len() ==> s == Some(&self.strategies()[index as int]),
            index >= self.strategies().len() ==> s is None,
    {
        if index < self.strategies.len() {
            Some(&self.strategies[index])
        } else {
            None
        }
    }
}

// ==================== Monitor ====================

/// The cache key of market data: `<market>:<instrument>`.
pub open spec fn cache_key(market_name: Seq<char>, inst_id: Seq<char>) -> Seq<char> {
    market_name + ":"@ + inst_id
}

/// The first position at which `name` occurs among `names`, if it occurs.
pub open spec fn first_named<M>(markets: Seq<(String, M)>, name: Seq<char>) -> Option<int> {
    if exists|i: int| 0 <= i < markets.len() && (#[trigger] markets[i]).0@ == name {
        Some(choose|i: int| 0 <= i < markets.len() && (#[trigger] markets[i]).0@ == name
            && forall|j: int| 0 <= j < i ==> (#[trigger] markets[j]).0@ != name)
    } else {
        None
    }
}

/// Markets (by name) and the market data cache.
pub struct Monitor<M, D> {
    markets: Vec<(String, M)>,
    data_cache: Vec<(String, D)>,
}

impl<M, D> Monitor<M, D> {
    #[verifier::type_invariant]
    spec fn well_formed(self) -> bool {
        names_distinct(self.data_cache@)
    }

    /// The markets with their names, in the order they were added.
    pub closed spec fn markets(&self) -> Seq<(String, M)> {
        self.markets@
    }

    /// The cached market data, by cache key.
    pub closed spec fn cache(&self) -> Map<Seq<char>, D> {
        entry_map(self.data_cache@)
    }

    /// A monitor with no markets and an empty cache.
    pub fn new() -> (m: Monitor<M, D>)
        ensures
            m.markets() == Seq::<(String, M)>::empty(),
            m.cache() == Map::<Seq<char>, D>::empty(),
    {
        Monitor { markets: Vec::new(), data_cache: Vec::new() }
    }

    /// Adds a market under its name, after those already added.
    pub fn add_market(&mut self, name: String, market: M)
        ensures
            final(self).markets() == old(self).markets().push((name, market)),
            final(self).cache() == old(self).cache(),
    {
        proof {
            use_type_invariant(&*self);
        }
        let mut markets: Vec<(String, M)> = Vec::new();
        std::mem::swap(&mut markets, &mut self.markets);
        markets.push((name, market));
        self.markets = markets;
    }

    /// Number of markets.
    pub fn market_count(&self) -> (n: usize)
        ensures
            n == self.markets().len(),
    {
        self.markets.len()
    }

    /// The market added at position `index`, with its name, if any.
    pub fn market_at(&self, index: usize) -> (r: Option<(&String, &M)>)
        ensures
            index < self.markets().len() ==> r == Some((&self.markets()[index as int].0, &self.markets()[index as int].1)),
            index >= self.markets().len() ==> r is None,
    {
        if index < self.markets.len() {
            Some((&self.markets[index].0, &self.markets[index].1))
        } else {
            None
        }
    }

    /// The first market added under `name`, if any.
    pub fn market(&self, name: &str) -> (r: Option<&M>)
        ensures
            r is Some <==> first_named(self.markets(), name@) is Some,
            r matches Some(m) ==> *m == self.markets()[first_named(self.markets(), name@)->0].1,
    {
        let key = name.to_owned();
        let mut i: usize = 0;
        while i < self.markets.len()
            invariant
                i <= self.markets.len(),
                key@ == name@,
                forall|j: int| 0 <= j < i ==> (#[trigger] self.markets@[j]).0@ != name@,
            decreases self.markets.len() - i,
        {
            if self.markets[i].0 == key {
                proof {
                    let f = first_named(self.markets@, name@);
                    assert(self.markets@[i as int].0@ == name@);
                    let c = f->0;
                    if c != i {
                        if c < i {
                            assert(self.markets@[c].0@ != name@);
                        } else {
                            assert(self.markets@[i as int].0@ != name@);
                        }
                    }
                }
                return Some(&self.markets[i].1);
            }
            i = i + 1;
        }
        None
    }

    /// Caches `data` under `<market_name>:<inst_id>`, replacing what was cached there.
    pub fn cache_data(&mut self, market_name: &str, inst_id: &str, data: D)
        ensures
            final(self).cache() == old(self).cache().insert(cache_key(market_name@, inst_id@), data),
            final(self).markets() == old(self).markets(),
    {
        proof {
            use_type_invariant(&*self);
        }
        let mut key = market_name.to_owned();
        key.append(":");
        key.append(inst_id);
        let mut entries: Vec<(String, D)> = Vec::new();
        std::mem::swap(&mut entries, &mut self.data_cache);
        insert_entry(&mut entries, key, data);
        self.data_cache = entries;
    }

    /// The data cached under `key`, if any.
    pub fn cached(&self, key: &str) -> (r: Option<&D>)
        ensures
            r is Some <==> self.cache().contains_key(key@),
            r matches Some(d) ==> *d == self.cache()[key@],
    {
        proof {
            use_type_invariant(self);
            lemma_entry_map(self.data_cache@);
        }
        match find_entry(&self.data_cache, key) {
            Some(i) => Some(&self.data_cache[i].1),
            None => None,
        }
    }

    /// Every cache entry, one per key.
    pub fn cache_entries(&self) -> (r: &Vec<(String, D)>)
        ensures
            names_distinct(r@),
            entry_map(r@) == self.cache(),
    {
        proof {
            use_type_invariant(self);
        }
        &self.data_cache
    }
}

// ==================== Engine ====================

/// The engine's tables and lifecycle state.
pub struct Engine<S, M, C, H, D> {
    executor: Executor<S>,
    monitor: Monitor<M, D>,
    channels: Vec<C>,
    agent_handler: Option<H>,
    state: RuntimeState,
}

impl<S, M, C, H, D> Engine<S, M, C, H, D> {
    pub closed spec fn strategies(&self) -> Seq<S> {
        self.executor.strategies()
    }

    pub closed spec fn markets(&self) -> Seq<(String, M)> {
        self.monitor.markets()
    }

    pub closed spec fn cache(&self) -> Map<Seq<char>, D> {
        self.monitor.cache()
    }

    pub closed spec fn channel_list(&self) -> Seq<C> {
        self.channels@
    }

    pub closed spec fn handler(&self) -> Option<H> {
        self.agent_handler
    }

    pub closed spec fn current_state(&self) -> RuntimeState {
        self.state
    }

    /// An engine with nothing loaded, in state `Initialized`.
    pub fn new() -> (e: Engine<S, M, C, H, D>)
        ensures
            e.strategies() == Seq::<S>::empty(),
            e.markets() == Seq::<(String, M)>::empty(),
            e.cache() == Map::<Seq<char>, D>::empty(),
            e.channel_list() == Seq::<C>::empty(),
            e.handler() is None,
            e.current_state() == RuntimeState::Initialized,
    {
        Engine {
            executor: Executor::new(),
            monitor: Monitor::new(),
            channels: Vec::new(),
            agent_handler: None,
            state: RuntimeState::Initialized,
        }
    }

    /// Loads a strategy.
    pub fn load_strategy(&mut self, strategy: S)
        ensures
            final(self).strategies() == old(self).strategies().push(strategy),
            final(self).markets() == old(self).markets(),
            final(self).cache() == old(self).cache(),
            final(self).channel_list() == old(self).channel_list(),
            final(self).handler() == old(self).handler(),
            final(self).current_state() == old(self).current_state(),
    {
        self.executor.load_strategy(strategy);
    }

    /// Adds a market under its name.
    pub fn add_market(&mut self, name: String, market: M)
        ensures
            final(self).markets() == old(self).markets().push((name, market)),
            final(self).strategies() == old(self).strategies(),
            final(self).cache() == old(self).cache(),
            final(self).channel_list() == old(self).channel_list(),
            final(self).handler() == old(self).handler(),
            final(self).current_state() == old(self).current_state(),
    {
        let mut monitor = Monitor::new();
        std::mem::swap(&mut monitor, &mut self.monitor);
        monitor.add_market(name, market);
        self.monitor = monitor;
    }

    /// Adds a notification channel.
    pub fn add_channel(&mut self, channel: C)
        ensures
            final(self).channel_list() == old(self).channel_list().push(channel),
            final(self).strategies() == old(self).strategies(),
            final(self).markets() == old(self).markets(),
            final(self).cache() == old(self).cache(),
            final(self).handler() == old(self).handler(),
            final(self).current_state() == old(self).current_state(),
    {
        self.channels.push(channel);
    }

    /// Sets the agent task handler, replacing any earlier one.
    pub fn set_agent_handler(&mut self, handler: H)
        ensures
            final(self).handler() == Some(handler),
            final(self).strategies() == old(self).strategies(),
            final(self).markets() == old(self).markets(),
            final(self).cache() == old(self).cache(),
            final(self).channel_list() == old(self).channel_list(),
            final(self).current_state() == old(self).current_state(),
    {
        self.agent_handler = Some(handler);
    }

    /// The handler that agent tasks go to; without one, a task is dropped.
    pub fn agent_handler(&self) -> (h: Option<&H>)
        ensures
            h is Some <==> self.handler() is Some,
            h matches Some(x) ==> *x == self.handler()->0,
    {
        match &self.agent_handler {
            Some(x) => Some(x),
            None => None,
        }
    }

    /// The lifecycle state.
    pub fn state(&self) -> (s: RuntimeState)
        ensures
            s == self.current_state(),
    {
        self.state
    }

    /// Start hook: the engine is `Running`.
    pub fn on_start(&mut self)
        ensures
            final(self).current_state() == RuntimeState::Running,
            final(self).strategies() == old(self).strategies(),
            final(self).markets() == old(self).markets(),
            final(self).cache() == old(self).cache(),
            final(self).channel_list() == old(self).channel_list(),
            final(self).handler() == old(self).handler(),
    {
        self.state = RuntimeState::Running;
    }

    /// Stop hook: the engine is `Stopped`.
    pub fn on_stop(&mut self)
        ensures
            final(self).current_state() == RuntimeState::Stopped,
            final(self).strategies() == old(self).strategies(),
            final(self).markets() == old(self).markets(),
            final(self).cache() == old(self).cache(),
            final(self).channel_list() == old(self).channel_list(),
            final(self).handler() == old(self).handler(),
    {
        self.state = RuntimeState::Stopped;
    }

    /// The strategy executor.
    pub fn executor(&self) -> (e: &Executor<S>)
        ensures
            e.strategies() == self.strategies(),
    {
        &self.executor
    }

    /// The market monitor.
    pub fn monitor(&self) -> (m: &Monitor<M, D>)
        ensures
            m.markets() == self.markets(),
            m.cache() == self.cache(),
    {
        &self.monitor
    }

    /// The notification channels, in the order they were added.
    pub fn channels(&self) -> (c: &Vec<C>)
        ensures
            c@ == self.channel_list(),
    {
        &self.channels
    }

    /// Caches market data fetched from `market_name` for `inst_id`.
    pub fn cache_market_data(&mut self, market_name: &str, inst_id: &str, data: D)
        ensures
            final(self).cache() == old(self).cache().insert(cache_key(market_name@, inst_id@), data),
            final(self).strategies() == old(self).strategies(),
            final(self).markets() == old(self).markets(),
            final(self).channel_list() == old(self).channel_list(),
            final(self).handler() == old(self).handler(),
            final(self).current_state() == old(self).current_state(),
    {
        let mut monitor = Monitor::new();
        std::mem::swap(&mut monitor, &mut self.monitor);
        monitor.cache_data(market_name, inst_id, data);
        self.monitor = monitor;
    }
}

} // verus!

verus! {

// ==================== Sweeps over loaded items ====================

/// What a sweep over loaded items asks for next.
#[derive(PartialEq, Eq, Structural, Clone, Copy, Debug)]
pub enum SweepAction {
    /// Use the item at this position (run the strategy, fetch from the market, send through
    /// the channel).
    Visit(usize),
    /// Every item has been used once.
    Finished,
}

/// The action of a sweep over `total` items of which `visited` have been used.
pub open spec fn sweep_action(total: nat, visited: nat) -> SweepAction {
    if visited < total {
        SweepAction::Visit(visited as usize)
    } else {
        SweepAction::Finished
    }
}

/// The actions of a sweep over `total` items from `visited` on, until it finishes.
pub open spec fn sweep_actions(total: nat, visited: nat) -> Seq<SweepAction>
    decreases total - visited,
{
    if visited < total {
        seq![SweepAction::Visit(visited as usize)] + sweep_actions(total, visited + 1)
    } else {
        seq![SweepAction::Finished]
    }
}

/// A sweep visits each item once, in order, then finishes.
pub proof fn law_sweep_visits_each_item_once_in_order(total: nat)
    ensures
        sweep_actions(total, 0) == Seq::new(total, |k: int| SweepAction::Visit(k as usize)) + seq![
            SweepAction::Finished,
        ],
{
    lemma_sweep_actions_from(total, 0);
}

proof fn lemma_sweep_actions_from(total: nat, visited: nat)
    requires
        visited <= total,
    ensures
        sweep_actions(total, visited) == Seq::new((total - visited) as nat, |k: int| SweepAction::Visit((visited + k) as usize))
            + seq![SweepAction::Finished],
    decreases total - visited,
{
    if visited < total {
        lemma_sweep_actions_from(total, visited + 1);
        assert(sweep_actions(total, visited) =~= Seq::new((total - visited) as nat, |k: int| SweepAction::Visit((visited + k) as usize))
            + seq![SweepAction::Finished]);
    } else {
        assert(Seq::new((total - visited) as nat, |k: int| SweepAction::Visit((visited + k) as usize)) =~= Seq::<SweepAction>::empty());
        assert(sweep_actions(total, visited) =~= Seq::<SweepAction>::empty() + seq![SweepAction::Finished]);
    }
}

/// Progress of a sweep over a fixed number of items.
pub struct Sweep {
    total: usize,
    visited: usize,
}

impl Sweep {
    #[verifier::type_invariant]
    spec fn well_formed(self) -> bool {
        self.visited <= self.total
    }

    /// Number of items.
    pub closed spec fn total(&self) -> nat {
        self.total as nat
    }

    /// Number of items used so far.
    pub closed spec fn visited(&self) -> nat {
        self.visited as nat
    }

    /// A sweep over `total` items, none used yet.
    pub fn new(total: usize) -> (s: Sweep)
        ensures
            s.total() == total,
            s.visited() == 0,
    {
        Sweep { total, visited: 0 }
    }

    /// The next item to use, or the end of the sweep.
    pub fn next_action(&self) -> (a: SweepAction)
        ensures
            a == sweep_action(self.total(), self.visited()),
    {
        if self.visited < self.total {
            SweepAction::Visit(self.visited)
        } else {
            SweepAction::Finished
        }
    }

    /// The item last asked for has been used.
    pub fn advance(&mut self)
        requires
            old(self).visited() < old(self).total(),
        ensures
            final(self).total() == old(self).total(),
            final(self).visited() == old(self).visited() + 1,
    {
        self.visited = self.visited + 1;
    }
}

/// A run of the loaded strategies: each strategy is run once, in load order, and the signals of
/// those that succeed are collected in order.
pub struct StrategyRun<T, E> {
    total: usize,
    asked: usize,
    signals: Vec<T>,
    outcomes: Ghost<Seq<Result<Vec<T>, E>>>,
}

impl<T, E> StrategyRun<T, E> {
    /// The run's bookkeeping is consistent: one outcome per strategy asked for, and the
    /// signals collected are those of the successful outcomes.
    pub closed spec fn wf(&self) -> bool {
        &&& self.asked <= self.total
        &&& self.outcomes@.len() == self.asked
        &&& self.signals@ == successful_signals(self.outcomes@)
    }

    /// Number of strategies in the run.
    pub closed spec fn total(&self) -> nat {
        self.total as nat
    }

    /// The outcomes recorded so far, strategy by strategy in load order.
    pub closed spec fn outcomes(&self) -> Seq<Result<Vec<T>, E>> {
        self.outcomes@
    }

    /// The signals collected so far.
    pub closed spec fn signals(&self) -> Seq<T> {
        self.signals@
    }

    /// What the run asks for next: the next strategy in load order, or the end.
    pub fn next_action(&self) -> (a: SweepAction)
        requires
            self.wf(),
        ensures
            a == sweep_action(self.total(), self.outcomes().len()),
    {
        if self.asked < self.total {
            SweepAction::Visit(self.asked)
        } else {
            SweepAction::Finished
        }
    }

    /// Records the outcome of the strategy last asked for; its signals are added when it
    /// succeeded, and its error is handed back (for reporting) when it failed.
    pub fn record(&mut self, outcome: Result<Vec<T>, E>) -> (failure: Option<E>)
        requires
            old(self).wf(),
            old(self).outcomes().len() < old(self).total(),
        ensures
            final(self).wf(),
            final(self).total() == old(self).total(),
            final(self).outcomes() == old(self).outcomes().push(outcome),
            final(self).signals() == successful_signals(final(self).outcomes()),
            outcome matches Err(e) ==> failure == Some(e),
            outcome is Ok ==> failure is None,
    {
        proof {
            law_collect_outcomes_in_order(self.outcomes@, outcome);
        }
        let ghost go = outcome;
        let ghost before = self.outcomes@;
        let failure = collect_outcome(&mut self.signals, outcome);
        self.asked = self.asked + 1;
        self.outcomes = Ghost(before.push(go));
        failure
    }

    /// The collected signals.
    pub fn into_signals(self) -> (s: Vec<T>)
        requires
            self.wf(),
        ensures
            s@ == successful_signals(self.outcomes()),
    {
        self.signals
    }
}

/// Driving a run over `n` strategies by recording, whenever strategy `k` is asked for, its
/// outcome `os[k]`: the `k`-th request is for strategy `k` (each strategy is run once, in load
/// order), after the last one the run finishes, and the signals collected are those of the
/// successful outcomes, in order.
pub proof fn law_strategy_run_in_load_order<T, E>(n: nat, os: Seq<Result<Vec<T>, E>>)
    requires
        os.len() == n,
    ensures
        forall|k: int| 0 <= k < n ==> #[trigger] sweep_action(n, os.take(k).len()) == SweepAction::Visit(k as usize),
        sweep_action(n, os.len()) == SweepAction::Finished,
        os.take(n as int) == os,
{
    assert(os.take(n as int) =~= os);
}

impl<S> Executor<S> {
    /// A run over the loaded strategies, nothing recorded yet.
    pub fn begin_run<T, E>(&self) -> (r: StrategyRun<T, E>)
        ensures
            r.wf(),
            r.total() == self.strategies().len(),
            r.outcomes() == Seq::<Result<Vec<T>, E>>::empty(),
            r.signals() == Seq::<T>::empty(),
    {
        StrategyRun { total: self.strategies.len(), asked: 0, signals: Vec::new(), outcomes: Ghost(Seq::empty()) }
    }
}

} // verus!

verus! {

/// The tickers gathered from a sweep over the markets: for each market whose fetch succeeded,
/// its tickers under its name (a later market of the same name replaces an earlier one).
pub open spec fn ticker_table<E>(log: Seq<(Seq<char>, Result<Vec<Ticker>, E>)>) -> Map<Seq<char>, Vec<Ticker>>
    decreases log.len(),
{
    if log.len() == 0 {
        Map::empty()
    } else {
        let m = ticker_table(log.drop_last());
        match log.last().1 {
            Ok(v) => m.insert(log.last().0, v),
            Err(_) => m,
        }
    }
}

/// A sweep that fetches the tickers of every market once, in the order the markets were added,
/// keeping those of the markets that answered.
pub struct TickerCollection<E> {
    total: usize,
    asked: usize,
    table: Vec<(String, Vec<Ticker>)>,
    log: Ghost<Seq<(Seq<char>, Result<Vec<Ticker>, E>)>>,
}

impl<E> TickerCollection<E> {
    /// One logged outcome per market asked for, and the table holds what they gathered.
    pub closed spec fn wf(&self) -> bool {
        &&& self.asked <= self.total
        &&& self.log@.len() == self.asked
        &&& names_distinct(self.table@)
        &&& entry_map(self.table@) == ticker_table(self.log@)
    }

    /// Number of markets in the sweep.
    pub closed spec fn total(&self) -> nat {
        self.total as nat
    }

    /// Each market asked for so far, by name, with the outcome of its fetch.
    pub closed spec fn log(&self) -> Seq<(Seq<char>, Result<Vec<Ticker>, E>)> {
        self.log@
    }

    /// The next market to fetch from, or the end.
    pub fn next_action(&self) -> (a: SweepAction)
        requires
            self.wf(),
        ensures
            a == sweep_action(self.total(), self.log().len()),
    {
        if self.asked < self.total {
            SweepAction::Visit(self.asked)
        } else {
            SweepAction::Finished
        }
    }

    /// Records the outcome of fetching from the market `name` last asked for: its tickers are
    /// kept under its name when the fetch succeeded; the error is handed back when it failed.
    pub fn record(&mut self, name: String, outcome: Result<Vec<Ticker>, E>) -> (failure: Option<E>)
        requires
            old(self).wf(),
            old(self).log().len() < old(self).total(),
        ensures
            final(self).wf(),
            final(self).total() == old(self).total(),
            final(self).log() == old(self).log().push((name@, outcome)),
            outcome matches Err(e) ==> failure == Some(e),
            outcome is Ok ==> failure is None,
    {
        let ghost entry = (name@, outcome);
        let ghost before = self.log@;
        proof {
            assert(before.push(entry).drop_last() =~= before);
        }
        let failure = match outcome {
            Ok(v) => {
                insert_entry(&mut self.table, name, v);
                None
            },
            Err(e) => Some(e),
        };
        self.asked = self.asked + 1;
        self.log = Ghost(before.push(entry));
        failure
    }

    /// The gathered tickers, one entry per market name.
    pub fn into_table(self) -> (t: Vec<(String, Vec<Ticker>)>)
        requires
            self.wf(),
        ensures
            names_distinct(t@),
            entry_map(t@) == ticker_table(self.log()),
    {
        self.table
    }
}

impl<M, D> Monitor<M, D> {
    /// A sweep over the markets for their tickers, nothing fetched yet.
    pub fn begin_ticker_collection<E>(&self) -> (c: TickerCollection<E>)
        ensures
            c.wf(),
            c.total() == self.markets().len(),
            c.log() == Seq::<(Seq<char>, Result<Vec<Ticker>, E>)>::empty(),
    {
        let c = TickerCollection { total: self.markets.len(), asked: 0, table: Vec::new(), log: Ghost(Seq::empty()) };
        assert(entry_map(c.table@) =~= ticker_table(c.log@));
        c
    }
}

impl<S, M, C, H, D> Engine<S, M, C, H, D> {
    /// A sweep that sends through every channel once, in the order the channels were added.
    pub fn begin_notification(&self) -> (s: Sweep)
        ensures
            s.total() == self.channel_list().len(),
            s.visited() == 0,
    {
        Sweep::new(self.channels.len())
    }
}

/// Recording a market's outcome changes the table only at that market's name: a successful
/// fetch puts its tickers under the name and leaves every other entry as it was; a failed
/// fetch leaves the table unchanged.
pub proof fn law_ticker_record_changes_only_its_market<E>(
    log: Seq<(Seq<char>, Result<Vec<Ticker>, E>)>,
    name: Seq<char>,
    outcome: Result<Vec<Ticker>, E>,
)
    ensures
        outcome matches Ok(v) ==> ticker_table(log.push((name, outcome))) == ticker_table(log).insert(name, v),
        outcome is Err ==> ticker_table(log.push((name, outcome))) == ticker_table(log),
{
    assert(log.push((name, outcome)).drop_last() =~= log);
}

/// Every market whose fetch succeeded has an entry in the table, and only such markets have
/// one.
pub proof fn law_ticker_table_keeps_every_answer<E>(log: Seq<(Seq<char>, Result<Vec<Ticker>, E>)>, k: Seq<char>)
    ensures
        ticker_table(log).contains_key(k) <==> exists|i: int| 0 <= i < log.len() && (#[trigger] log[i]).0 == k && log[i].1 is Ok,
    decreases log.len(),
{
    if log.len() > 0 {
        let front = log.drop_last();
        law_ticker_table_keeps_every_answer(front, k);
        if ticker_table(log).contains_key(k) {
            if !(log.last().0 == k && log.last().1 is Ok) {
                let i = choose|i: int| 0 <= i < front.len() && (#[trigger] front[i]).0 == k && front[i].1 is Ok;
                assert(log[i] == front[i]);
            } else {
                assert(log[log.len() - 1] == log.last());
            }
        } else {
            assert forall|i: int| 0 <= i < log.len() && (#[trigger] log[i]).0 == k implies !(log[i].1 is Ok) by {
                if i < front.len() {
                    assert(log[i] == front[i]);
                }
            }
        }
    }
}

} // verus!
