//! The decisions of the volatility-increase short-selling strategy that do not
//! involve prices: which coins are traded both spot and as a perpetual swap,
//! which of them a scan checks, whether a spot and a swap instrument are the
//! same coin, when enough candles came back, and how a signal is named.
//!
//! Price changes and volatilities are floating-point figures and are computed
//! outside this library.

use vstd::prelude::*;
use crate::registry::{entry_map, find_entry, has_name, insert_entry, lemma_entry_map, names_distinct};
use crate::text::{ends_with, has_suffix, head_before, i64_to_string, replace_all, replace_str, signed_decimal, split_head};

verus! {

/// Name of the strategy.
pub const STRATEGY_NAME: &'static str = "VolatilityIncreaseShortSelling";

/// Most coins that one scan checks.
pub const MAX_COINS_PER_SCAN: usize = 30;

/// Suffix of a spot instrument quoted in USDT, e.g. `BTC-USDT`.
pub open spec fn spot_suffix() -> Seq<char> {
    "-USDT"@
}

/// Suffix of a USDT-margined perpetual swap, e.g. `BTC-USDT-SWAP`.
pub open spec fn swap_suffix() -> Seq<char> {
    "-USDT-SWAP"@
}

/// The coin of an instrument that ends with `suffix`: the instrument id with every
/// occurrence of `suffix` removed.
pub open spec fn coin_of(id: Seq<char>, suffix: Seq<char>) -> Option<Seq<char>> {
    if has_suffix(id, suffix) {
        Some(replace_all(id, suffix, Seq::empty()))
    } else {
        None
    }
}

/// Coin -> instrument id, over the instruments that end with `suffix`; a later instrument
/// of the same coin replaces an earlier one.
pub open spec fn coin_table(ids: Seq<Seq<char>>, suffix: Seq<char>) -> Map<Seq<char>, Seq<char>>
    decreases ids.len(),
{
    if ids.len() == 0 {
        Map::empty()
    } else {
        let m = coin_table(ids.drop_last(), suffix);
        match coin_of(ids.last(), suffix) {
            Some(c) => m.insert(c, ids.last()),
            None => m,
        }
    }
}

pub open spec fn string_views(v: Seq<String>) -> Seq<Seq<char>> {
    v.map_values(|s: String| s@)
}

/// The map that a table of text entries stands for, as text.
pub open spec fn text_map(s: Seq<(String, String)>) -> Map<Seq<char>, Seq<char>> {
    entry_map(s).map_values(|v: String| v@)
}

/// A coin traded both spot and as a swap, with the two instrument ids.
#[derive(Clone, Debug)]
pub struct CoinPair {
    pub coin: String,
    pub spot_id: String,
    pub swap_id: String,
}

/// The coin that a spot instrument id quotes in USDT, if it is one.
pub fn spot_coin(inst_id: &str) -> (r: Option<String>)
    ensures
        r matches Some(c) ==> coin_of(inst_id@, spot_suffix()) == Some(c@),
        r is None ==> coin_of(inst_id@, spot_suffix()) is None,
{
    proof {
        reveal_strlit("-USDT");
        reveal_strlit("");
        assert(""@ =~= Seq::<char>::empty());
    }
    if ends_with(inst_id, "-USDT") {
        Some(replace_str(inst_id, "-USDT", ""))
    } else {
        None
    }
}

/// The coin of a USDT perpetual swap id, if it is one.
pub fn swap_coin(inst_id: &str) -> (r: Option<String>)
    ensures
        r matches Some(c) ==> coin_of(inst_id@, swap_suffix()) == Some(c@),
        r is None ==> coin_of(inst_id@, swap_suffix()) is None,
{
    proof {
        reveal_strlit("-USDT-SWAP");
        reveal_strlit("");
        assert(""@ =~= Seq::<char>::empty());
    }
    if ends_with(inst_id, "-USDT-SWAP") {
        Some(replace_str(inst_id, "-USDT-SWAP", ""))
    } else {
        None
    }
}

proof fn lemma_text_map_insert(s: Seq<(String, String)>, t: Seq<(String, String)>, k: String, v: String)
    requires
        entry_map(t) == entry_map(s).insert(k@, v),
    ensures
        text_map(t) == text_map(s).insert(k@, v@),
{
    assert(text_map(t) =~= text_map(s).insert(k@, v@));
}

/// Coin -> instrument id over the instruments of `ids` that end with `suffix` (`"-USDT"` for
/// spot, `"-USDT-SWAP"` for swaps), as a table with one entry per coin in order of first
/// appearance.
fn build_coin_table(ids: &Vec<String>, spot: bool) -> (t: Vec<(String, String)>)
    ensures
        names_distinct(t@),
        text_map(t@) == coin_table(string_views(ids@), if spot { spot_suffix() } else { swap_suffix() }),
{
    let ghost suffix = if spot { spot_suffix() } else { swap_suffix() };
    let ghost views = string_views(ids@);
    let mut t: Vec<(String, String)> = Vec::new();
    let mut i: usize = 0;
    proof {
        assert(views.take(0) =~= Seq::<Seq<char>>::empty());
        assert(text_map(t@) =~= Map::<Seq<char>, Seq<char>>::empty());
    }
    while i < ids.len()
        invariant
            i <= ids.len(),
            views == string_views(ids@),
            suffix == (if spot { spot_suffix() } else { swap_suffix() }),
            names_distinct(t@),
            text_map(t@) == coin_table(views.take(i as int), suffix),
        decreases ids.len() - i,
    {
        let id = &ids[i];
        let coin = if spot { spot_coin(id.as_str()) } else { swap_coin(id.as_str()) };
        proof {
            assert(views.take(i + 1).drop_last() =~= views.take(i as int));
            assert(views.take(i + 1).last() == id@);
        }
        match coin {
            Some(c) => {
                let ghost before = t@;
                let v = id.clone();
                let ghost gc = c;
                let ghost gv = v;
                insert_entry(&mut t, c, v);
                proof {
                    lemma_text_map_insert(before, t@, gc, gv);
                }
            },
            None => {},
        }
        i = i + 1;
    }
    proof {
        assert(views.take(ids.len() as int) =~= views);
    }
    t
}

/// The coins a scan checks: coins with both a USDT spot instrument among `spot_ids` and a
/// USDT perpetual swap among `swap_ids`, each once, at most `max` of them, with the instrument
/// ids that the coin tables map them to. Fewer than `max` are returned only when every such
/// coin is.
pub fn select_coin_pairs(spot_ids: &Vec<String>, swap_ids: &Vec<String>, max: usize) -> (r: Vec<CoinPair>)
    ensures
        r.len() <= max,
        forall|i: int| #![trigger r@[i]] 0 <= i < r.len() ==> {
            let spot = coin_table(string_views(spot_ids@), spot_suffix());
            let swap = coin_table(string_views(swap_ids@), swap_suffix());
            &&& spot.contains_key(r@[i].coin@)
            &&& spot[r@[i].coin@] == r@[i].spot_id@
            &&& swap.contains_key(r@[i].coin@)
            &&& swap[r@[i].coin@] == r@[i].swap_id@
        },
        forall|i: int, j: int| 0 <= i < j < r.len() ==> (#[trigger] r@[i]).coin@ != (#[trigger] r@[j]).coin@,
        r.len() < max ==> forall|c: Seq<char>|
            coin_table(string_views(spot_ids@), spot_suffix()).contains_key(c)
                && #[trigger] coin_table(string_views(swap_ids@), swap_suffix()).contains_key(c)
                ==> exists|i: int| 0 <= i < r.len() && (#[trigger] r@[i]).coin@ == c,
{
    let spot = build_coin_table(spot_ids, true);
    let swap = build_coin_table(swap_ids, false);
    let ghost spot_map = coin_table(string_views(spot_ids@), spot_suffix());
    let ghost swap_map = coin_table(string_views(swap_ids@), swap_suffix());
    proof {
        lemma_entry_map(spot@);
        lemma_entry_map(swap@);
    }
    let mut r: Vec<CoinPair> = Vec::new();
    let mut j: usize = 0;
    while j < spot.len() && r.len() < max
        invariant
            j <= spot.len(),
            r.len() <= max,
            names_distinct(spot@),
            names_distinct(swap@),
            spot_map == text_map(spot@),
            swap_map == text_map(swap@),
            forall|k: Seq<char>| #[trigger] entry_map(spot@).contains_key(k) <==> has_name(spot@, k),
            forall|k: Seq<char>| #[trigger] entry_map(swap@).contains_key(k) <==> has_name(swap@, k),
            forall|a: int| 0 <= a < spot.len() ==> #[trigger] entry_map(spot@)[spot@[a].0@] == spot@[a].1,
            forall|a: int| 0 <= a < swap.len() ==> #[trigger] entry_map(swap@)[swap@[a].0@] == swap@[a].1,
            forall|i: int| #![trigger r@[i]] 0 <= i < r.len() ==> {
                &&& spot_map.contains_key(r@[i].coin@)
                &&& spot_map[r@[i].coin@] == r@[i].spot_id@
                &&& swap_map.contains_key(r@[i].coin@)
                &&& swap_map[r@[i].coin@] == r@[i].swap_id@
                &&& exists|a: int| 0 <= a < j && (#[trigger] spot@[a]).0@ == r@[i].coin@
            },
            forall|i: int, k: int| 0 <= i < k < r.len() ==> (#[trigger] r@[i]).coin@ != (#[trigger] r@[k]).coin@,
            forall|a: int| 0 <= a < j && #[trigger] has_name(swap@, spot@[a].0@) ==>
                exists|i: int| 0 <= i < r.len() && (#[trigger] r@[i]).coin@ == spot@[a].0@,
        decreases spot.len() - j,
    {
        let coin = &spot[j].0;
        match find_entry(&swap, coin.as_str()) {
            Some(k) => {
                let pair = CoinPair { coin: coin.clone(), spot_id: spot[j].1.clone(), swap_id: swap[k].1.clone() };
                proof {
                    assert(has_name(spot@, coin@)) by {
                        assert(spot@[j as int].0@ == coin@);
                    }
                    assert(has_name(swap@, coin@));
                    assert forall|i: int| 0 <= i < r.len() implies (#[trigger] r@[i]).coin@ != coin@ by {
                        let a = choose|a: int| 0 <= a < j && (#[trigger] spot@[a]).0@ == r@[i].coin@;
                        assert(spot@[a].0@ != spot@[j as int].0@);
                    }
                }
                let ghost r_before = r@;
                r.push(pair);
                proof {
                    assert(r@[r.len() - 1] == pair);
                    assert forall|i: int| #![trigger r@[i]] 0 <= i < r.len() implies
                        exists|a: int| 0 <= a < j + 1 && (#[trigger] spot@[a]).0@ == r@[i].coin@ by {
                        if i == r.len() - 1 {
                            assert(spot@[j as int].0@ == r@[i].coin@);
                        } else {
                            let a = choose|a: int| 0 <= a < j && (#[trigger] spot@[a]).0@ == r@[i].coin@;
                        }
                    }
                    assert forall|a: int| 0 <= a < j + 1 && #[trigger] has_name(swap@, spot@[a].0@) implies
                        exists|i: int| 0 <= i < r.len() && (#[trigger] r@[i]).coin@ == spot@[a].0@ by {
                        if a == j {
                            assert(r@[r.len() - 1].coin@ == spot@[a].0@);
                        } else {
                            let i = choose|i: int| 0 <= i < r_before.len() && (#[trigger] r_before[i]).coin@ == spot@[a].0@;
                            assert(r@[i] == r_before[i]);
                        }
                    }
                }
            },
            None => {
                proof {
                    assert forall|i: int| #![trigger r@[i]] 0 <= i < r.len() implies
                        exists|a: int| 0 <= a < j + 1 && (#[trigger] spot@[a]).0@ == r@[i].coin@ by {
                        let a = choose|a: int| 0 <= a < j && (#[trigger] spot@[a]).0@ == r@[i].coin@;
                    }
                }
            },
        }
        j = j + 1;
    }
    proof {
        if r.len() < max {
            assert forall|c: Seq<char>|
                spot_map.contains_key(c) && #[trigger] swap_map.contains_key(c)
                implies exists|i: int| 0 <= i < r.len() && (#[trigger] r@[i]).coin@ == c by {
                assert(entry_map(spot@).contains_key(c));
                let a = choose|a: int| 0 <= a < spot@.len() && (#[trigger] spot@[a]).0@ == c;
                assert(entry_map(swap@).contains_key(c));
                assert(has_name(swap@, spot@[a].0@));
            }
        }
    }
    r
}

/// The coin shared by a spot instrument and a swap instrument: the spot id up to its first
/// `-`, when it equals the swap id up to its first `-USDT-SWAP`; otherwise there is none.
pub fn matching_coin(spot_id: &str, swap_id: &str) -> (r: Option<String>)
    ensures
        r is Some <==> split_head(spot_id@, "-"@) == split_head(swap_id@, "-USDT-SWAP"@),
        r matches Some(c) ==> c@ == split_head(spot_id@, "-"@),
{
    let spot_coin = head_before(spot_id, "-");
    let swap_coin = head_before(swap_id, "-USDT-SWAP");
    if spot_coin == swap_coin {
        Some(spot_coin)
    } else {
        None
    }
}

/// The id of a signal for `coin` raised at `timestamp` (seconds): `vol-<coin>-<timestamp>`.
pub fn signal_id(coin: &str, timestamp: i64) -> (r: String)
    ensures
        r@ == "vol-"@ + coin@ + "-"@ + signed_decimal(timestamp as int),
{
    let mut s = "vol-".to_owned();
    s.append(coin);
    s.append("-");
    let ts = i64_to_string(timestamp);
    s.append(ts.as_str());
    s
}

} // verus!

verus! {

// ==================== The scan over coins ====================

/// What a scan asks its driver to do next.
#[derive(PartialEq, Eq, Structural, Clone, Copy, Debug)]
pub enum ScanAction {
    /// Fetch the candles of the spot instrument of coin `i`.
    FetchSpot(usize),
    /// Fetch the candles of the swap instrument of coin `i`.
    FetchSwap(usize),
    /// Both instruments of coin `i` have enough candles: compare them and raise a signal if due.
    Evaluate(usize),
    /// Every coin has been dealt with.
    Finished,
}

/// What the driver reports back.
#[derive(PartialEq, Eq, Structural, Clone, Copy, Debug)]
pub enum ScanEvent {
    /// Begin the scan.
    Start,
    /// The requested candles came back; this many of them.
    Candles(usize),
    /// Fetching the requested candles failed.
    FetchFailed,
    /// The requested evaluation is done.
    Evaluated,
}

/// Where a scan stands.
#[derive(PartialEq, Eq, Structural, Clone, Copy, Debug)]
pub enum ScanStage {
    NotStarted,
    AwaitSpot,
    AwaitSwap,
    AwaitEvaluation,
    Done,
}

/// A scan, as values.
pub struct ScanView {
    /// Number of coins to scan.
    pub total: nat,
    /// The coin being dealt with.
    pub index: nat,
    pub stage: ScanStage,
    /// Candles of the current coin's spot instrument, once fetched.
    pub spot_candles: nat,
    /// Fewest candles an instrument needs.
    pub min_candles: nat,
}

/// Move on to coin `i` (or finish when there is none).
pub open spec fn scan_visit(s: ScanView, i: nat) -> (ScanView, ScanAction) {
    if i >= s.total {
        (ScanView { stage: ScanStage::Done, index: s.total, spot_candles: 0, ..s }, ScanAction::Finished)
    } else {
        (ScanView { stage: ScanStage::AwaitSpot, index: i, spot_candles: 0, ..s }, ScanAction::FetchSpot(i as usize))
    }
}

/// One step of a scan.
pub open spec fn scan_step(s: ScanView, e: ScanEvent) -> (ScanView, ScanAction) {
    match s.stage {
        ScanStage::NotStarted => scan_visit(s, 0),
        ScanStage::AwaitSpot => match e {
            ScanEvent::Candles(n) => if n >= s.min_candles {
                (ScanView { stage: ScanStage::AwaitSwap, spot_candles: n as nat, ..s }, ScanAction::FetchSwap(s.index as usize))
            } else {
                scan_visit(s, s.index + 1)
            },
            _ => scan_visit(s, s.index + 1),
        },
        ScanStage::AwaitSwap => match e {
            ScanEvent::Candles(n) => if n >= s.min_candles {
                (ScanView { stage: ScanStage::AwaitEvaluation, ..s }, ScanAction::Evaluate(s.index as usize))
            } else {
                scan_visit(s, s.index + 1)
            },
            _ => scan_visit(s, s.index + 1),
        },
        ScanStage::AwaitEvaluation => scan_visit(s, s.index + 1),
        ScanStage::Done => (s, ScanAction::Finished),
    }
}

/// The scan over the selected coins: for each coin in turn, fetch the spot candles, then the
/// swap candles, and evaluate the coin only when both came back with at least `min_candles`
/// candles; a failed or short fetch skips to the next coin.
pub struct ScanPlan {
    pairs: Vec<CoinPair>,
    min_candles: usize,
    index: usize,
    stage: ScanStage,
    spot_candles: usize,
}

impl ScanPlan {
    #[verifier::type_invariant]
    spec fn well_formed(self) -> bool {
        &&& self.index <= self.pairs.len()
        &&& (self.stage == ScanStage::AwaitSpot || self.stage == ScanStage::AwaitSwap
            || self.stage == ScanStage::AwaitEvaluation) ==> self.index < self.pairs.len()
    }

    pub closed spec fn view(&self) -> ScanView {
        ScanView {
            total: self.pairs.len() as nat,
            index: self.index as nat,
            stage: self.stage,
            spot_candles: self.spot_candles as nat,
            min_candles: self.min_candles as nat,
        }
    }

    /// The coins of the scan.
    pub closed spec fn coins(&self) -> Seq<CoinPair> {
        self.pairs@
    }

    /// A scan over `pairs`, not started yet.
    pub fn new(pairs: Vec<CoinPair>, min_candles: usize) -> (p: ScanPlan)
        ensures
            p.coins() == pairs@,
            p.view() == (ScanView {
                total: pairs.len() as nat,
                index: 0,
                stage: ScanStage::NotStarted,
                spot_candles: 0,
                min_candles: min_candles as nat,
            }),
    {
        ScanPlan { pairs, min_candles, index: 0, stage: ScanStage::NotStarted, spot_candles: 0 }
    }

    /// The coin at position `i` of the scan, if any.
    pub fn pair(&self, i: usize) -> (r: Option<&CoinPair>)
        ensures
            i < self.coins().len() ==> r == Some(&self.coins()[i as int]),
            i >= self.coins().len() ==> r is None,
    {
        if i < self.pairs.len() {
            Some(&self.pairs[i])
        } else {
            None
        }
    }

    fn visit(&mut self, i: usize) -> (a: ScanAction)
        requires
            i <= old(self).pairs.len(),
        ensures
            (final(self).view(), a) == scan_visit(old(self).view(), i as nat),
            final(self).coins() == old(self).coins(),
    {
        proof {
            use_type_invariant(&*self);
        }
        if i >= self.pairs.len() {
            self.stage = ScanStage::Done;
            self.index = self.pairs.len();
            self.spot_candles = 0;
            ScanAction::Finished
        } else {
            self.index = i;
            self.spot_candles = 0;
            self.stage = ScanStage::AwaitSpot;
            ScanAction::FetchSpot(i)
        }
    }

    /// Advances the scan by one reported event.
    pub fn step(&mut self, event: ScanEvent) -> (a: ScanAction)
        ensures
            (final(self).view(), a) == scan_step(old(self).view(), event),
            final(self).coins() == old(self).coins(),
    {
        proof {
            use_type_invariant(&*self);
        }
        match self.stage {
            ScanStage::NotStarted => self.visit(0),
            ScanStage::AwaitSpot => match event {
                ScanEvent::Candles(n) => {
                    if n >= self.min_candles {
                        self.spot_candles = n;
                        self.stage = ScanStage::AwaitSwap;
                        ScanAction::FetchSwap(self.index)
                    } else {
                        let next = self.index + 1;
                        self.visit(next)
                    }
                },
                _ => {
                    let next = self.index + 1;
                    self.visit(next)
                },
            },
            ScanStage::AwaitSwap => match event {
                ScanEvent::Candles(n) => {
                    if n >= self.min_candles {
                        self.stage = ScanStage::AwaitEvaluation;
                        ScanAction::Evaluate(self.index)
                    } else {
                        let next = self.index + 1;
                        self.visit(next)
                    }
                },
                _ => {
                    let next = self.index + 1;
                    self.visit(next)
                },
            },
            ScanStage::AwaitEvaluation => {
                let next = self.index + 1;
                self.visit(next)
            },
            ScanStage::Done => ScanAction::Finished,
        }
    }
}

/// A scan that waits for swap candles or for an evaluation got enough spot candles first.
pub open spec fn scan_consistent(s: ScanView) -> bool {
    (s.stage == ScanStage::AwaitSwap || s.stage == ScanStage::AwaitEvaluation) ==> s.spot_candles >= s.min_candles
}

/// Every step keeps a scan consistent (and a new scan is consistent).
pub proof fn law_scan_stays_consistent(s: ScanView, e: ScanEvent)
    requires
        scan_consistent(s),
    ensures
        scan_consistent(scan_step(s, e).0),
{
}

/// A coin is evaluated only after its spot and its swap instrument each came back with at
/// least the required number of candles.
pub proof fn law_evaluate_needs_enough_candles(s: ScanView, e: ScanEvent, i: usize)
    requires
        scan_consistent(s),
        scan_step(s, e).1 == ScanAction::Evaluate(i),
    ensures
        s.stage == ScanStage::AwaitSwap,
        s.spot_candles >= s.min_candles,
        e matches ScanEvent::Candles(n) && n >= s.min_candles,
        i == s.index as usize,
{
}

/// The scan deals with the coins in order: whatever happens to coin `i`, the next coin that it
/// asks for is coin `i + 1`, and after the last coin it finishes.
pub proof fn law_scan_moves_to_next_coin(s: ScanView, e: ScanEvent)
    requires
        s.index < s.total,
        s.stage == ScanStage::AwaitSpot || s.stage == ScanStage::AwaitSwap || s.stage == ScanStage::AwaitEvaluation,
        scan_step(s, e).1 is FetchSpot || scan_step(s, e).1 is Finished,
    ensures
        s.index + 1 < s.total ==> scan_step(s, e).1 == ScanAction::FetchSpot((s.index + 1) as usize),
        s.index + 1 >= s.total ==> scan_step(s, e).1 == ScanAction::Finished,
{
}

/// Enough candles on both instruments means the coin is evaluated: a spot fetch with at least
/// `min_candles` candles leads to the swap fetch of the same coin, and a swap fetch with at
/// least `min_candles` candles leads to the evaluation of that coin; so from the spot fetch of
/// coin `i`, two such answers in a row make the scan evaluate coin `i`.
pub proof fn law_enough_candles_are_evaluated(s: ScanView, spot: usize, swap: usize)
    requires
        s.index < s.total,
        spot >= s.min_candles,
        swap >= s.min_candles,
    ensures
        s.stage == ScanStage::AwaitSpot ==> {
            let (t, a) = scan_step(s, ScanEvent::Candles(spot));
            &&& a == ScanAction::FetchSwap(s.index as usize)
            &&& t.stage == ScanStage::AwaitSwap
            &&& t.index == s.index
            &&& scan_step(t, ScanEvent::Candles(swap)).1 == ScanAction::Evaluate(s.index as usize)
            &&& scan_step(t, ScanEvent::Candles(swap)).0.stage == ScanStage::AwaitEvaluation
        },
        s.stage == ScanStage::AwaitSwap ==> {
            &&& scan_step(s, ScanEvent::Candles(swap)).1 == ScanAction::Evaluate(s.index as usize)
            &&& scan_step(s, ScanEvent::Candles(swap)).0.stage == ScanStage::AwaitEvaluation
            &&& scan_step(s, ScanEvent::Candles(swap)).0.index == s.index
        },
{
}

/// A fetch that fails or comes back with fewer than `min_candles` candles skips the coin: the
/// scan asks for the spot candles of the next coin, or finishes after the last one; and once a
/// coin has been evaluated, the scan moves on in the same way.
pub proof fn law_short_or_failed_fetch_skips_coin(s: ScanView, e: ScanEvent)
    requires
        s.index < s.total,
        s.stage == ScanStage::AwaitSpot || s.stage == ScanStage::AwaitSwap || s.stage == ScanStage::AwaitEvaluation,
        s.stage == ScanStage::AwaitEvaluation || !(e matches ScanEvent::Candles(n) && n >= s.min_candles),
    ensures
        s.index + 1 < s.total ==> {
            &&& scan_step(s, e).1 == ScanAction::FetchSpot((s.index + 1) as usize)
            &&& scan_step(s, e).0.stage == ScanStage::AwaitSpot
            &&& scan_step(s, e).0.index == s.index + 1
        },
        s.index + 1 >= s.total ==> {
            &&& scan_step(s, e).1 == ScanAction::Finished
            &&& scan_step(s, e).0.stage == ScanStage::Done
        },
{
}

} // verus!
