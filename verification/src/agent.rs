//! The agent layer's text and bookkeeping: report task kinds and
//! recommendations, the prompts that the discovery agent sends to the LLM, the
//! report summaries, and the agent manager's table of agents.
//!
//! Market figures are floating-point and are formatted outside this library;
//! the functions here take them as already formatted text.

use vstd::prelude::*;
use crate::engine::{signal_type_name, SignalType};
use crate::registry::{entry_map, find_entry, insert_entry, lemma_entry_map, names_distinct};
use crate::text::{append_u64, decimal, lemma_occurs_between, occurs_at};

verus! {

/// The kind of task that a report answers.
#[derive(PartialEq, Eq, Structural, Clone, Copy, Debug)]
pub enum AgentTaskType {
    DiscoverStrategy,
    AnalyzeSignal,
    RecognizePattern,
}

/// A recommended action.
#[derive(Clone, Debug)]
pub struct Recommendation {
    /// Action type.
    pub action_type: String,
    /// Priority: `high`, `medium` or `low`.
    pub priority: String,
    /// Description.
    pub description: String,
    /// Expected outcome.
    pub expected_outcome: String,
}

/// Name of the discovery agent.
pub const DISCOVERY_AGENT_NAME: &'static str = "DiscoveryAgent";

/// System prompt of strategy discovery.
pub const DISCOVERY_SYSTEM_PROMPT: &'static str = "You are a professional quantitative trading strategy analyst.";

/// System prompt of signal analysis.
pub const SIGNAL_SYSTEM_PROMPT: &'static str = "You are a professional trading signal analyst.";

/// System prompt of pattern recognition.
pub const PATTERN_SYSTEM_PROMPT: &'static str = "You are a professional market pattern recognition expert.";

pub open spec fn optional_line(label: Seq<char>, v: Option<Seq<char>>) -> Seq<char> {
    match v {
        Some(t) => label + t + "\n"@,
        None => Seq::empty(),
    }
}

pub open spec fn opt_string(o: Option<String>) -> Option<Seq<char>> {
    match o {
        Some(s) => Some(s@),
        None => None,
    }
}

/// The strategy discovery prompt.
pub open spec fn discovery_prompt_text(
    analysis: Seq<char>,
    trend: Option<Seq<char>>,
    volatility: Option<Seq<char>>,
    breakout: Option<Seq<char>>,
) -> Seq<char> {
    "Please analyze the following market data and identify potential trading opportunities:\n\n"@ + analysis
        + "\n"@ + optional_line("\nTrend Recognition: "@, trend) + optional_line("Volatility: "@, volatility)
        + optional_line("Breakout Pattern: "@, breakout) + "\nPlease provide:\n"@
        + "1. Trading opportunity assessment\n"@ + "2. Recommended strategy type\n"@
        + "3. Risk level assessment\n"@ + "4. Specific operation recommendations\n"@
}

fn append_optional_line(s: &mut String, label: &str, v: &Option<String>)
    ensures
        final(s)@ == old(s)@ + optional_line(label@, opt_string(*v)),
{
    match v {
        Some(t) => {
            s.append(label);
            s.append(t.as_str());
            s.append("\n");
        },
        None => {
            assert(old(s)@ + Seq::<char>::empty() =~= old(s)@);
        },
    }
}

/// The prompt that asks the LLM to discover opportunities in the analysed market data, with
/// the recognised trend, volatility and breakout where there are any.
pub fn build_discovery_prompt(
    analysis: &str,
    trend: &Option<String>,
    volatility: &Option<String>,
    breakout: &Option<String>,
) -> (p: String)
    ensures
        p@ == discovery_prompt_text(analysis@, opt_string(*trend), opt_string(*volatility), opt_string(*breakout)),
{
    let mut p = "Please analyze the following market data and identify potential trading opportunities:\n\n".to_owned();
    p.append(analysis);
    p.append("\n");
    append_optional_line(&mut p, "\nTrend Recognition: ", trend);
    append_optional_line(&mut p, "Volatility: ", volatility);
    append_optional_line(&mut p, "Breakout Pattern: ", breakout);
    p.append("\nPlease provide:\n");
    p.append("1. Trading opportunity assessment\n");
    p.append("2. Recommended strategy type\n");
    p.append("3. Risk level assessment\n");
    p.append("4. Specific operation recommendations\n");
    p
}

/// The signal analysis prompt.
pub open spec fn signal_prompt_text(
    id: Seq<char>,
    strategy: Seq<char>,
    kind: SignalType,
    inst_id: Seq<char>,
    description: Seq<char>,
    data: Seq<char>,
) -> Seq<char> {
    "Please analyze the following trading signal:\n\n"@ + "Signal ID: "@ + id + "\n"@ + "Strategy: "@ + strategy
        + "\n"@ + "Type: "@ + signal_type_name(kind) + "\n"@ + "Trading Pair: "@ + inst_id + "\n"@
        + "Description: "@ + description + "\n"@ + "Data: "@ + data + "\n\n"@ + "Please provide:\n"@
        + "1. Signal quality assessment\n"@ + "2. Potential risk points\n"@ + "3. Execution recommendations"@
}

/// The prompt that asks the LLM to analyse a signal; `data` is the signal's data as JSON text.
pub fn signal_analysis_prompt(
    id: &str,
    strategy: &str,
    kind: SignalType,
    inst_id: &str,
    description: &str,
    data: &str,
) -> (p: String)
    ensures
        p@ == signal_prompt_text(id@, strategy@, kind, inst_id@, description@, data@),
{
    let mut p = "Please analyze the following trading signal:\n\n".to_owned();
    p.append("Signal ID: ");
    p.append(id);
    p.append("\n");
    p.append("Strategy: ");
    p.append(strategy);
    p.append("\n");
    p.append("Type: ");
    p.append(kind.name());
    p.append("\n");
    p.append("Trading Pair: ");
    p.append(inst_id);
    p.append("\n");
    p.append("Description: ");
    p.append(description);
    p.append("\n");
    p.append("Data: ");
    p.append(data);
    p.append("\n\n");
    p.append("Please provide:\n");
    p.append("1. Signal quality assessment\n");
    p.append("2. Potential risk points\n");
    p.append("3. Execution recommendations");
    p
}

/// The pattern recognition prompt.
pub open spec fn pattern_prompt_text(analysis: Seq<char>) -> Seq<char> {
    "Please analyze the following multiple trading pairs' market data and identify common patterns:\n\n"@
        + analysis + "\n\n"@ + "Please identify:\n"@ + "1. Overall market trend\n"@
        + "2. Sector rotation patterns\n"@ + "3. Correlation analysis\n"@
        + "4. Potential arbitrage opportunities"@
}

/// The prompt that asks the LLM to find common patterns across several trading pairs.
pub fn pattern_recognition_prompt(analysis: &str) -> (p: String)
    ensures
        p@ == pattern_prompt_text(analysis@),
{
    let mut p = "Please analyze the following multiple trading pairs' market data and identify common patterns:\n\n".to_owned();
    p.append(analysis);
    p.append("\n\n");
    p.append("Please identify:\n");
    p.append("1. Overall market trend\n");
    p.append("2. Sector rotation patterns\n");
    p.append("3. Correlation analysis\n");
    p.append("4. Potential arbitrage opportunities");
    p
}

/// Summary of a signal analysis report.
pub fn signal_analysis_summary(inst_id: &str) -> (s: String)
    ensures
        s@ == "Signal analysis completed: "@ + inst_id@,
{
    let mut s = "Signal analysis completed: ".to_owned();
    s.append(inst_id);
    s
}

/// Summary of a strategy discovery report.
pub fn discovery_summary(inst_id: &str) -> (s: String)
    ensures
        s@ == "Strategy discovery: "@ + inst_id@,
{
    let mut s = "Strategy discovery: ".to_owned();
    s.append(inst_id);
    s
}

/// Summary of a pattern recognition report over `count` trading pairs.
pub fn pattern_summary(count: usize) -> (s: String)
    ensures
        s@ == "Pattern recognition completed: analyzed "@ + decimal(count as nat) + " trading pairs"@,
{
    let mut s = "Pattern recognition completed: analyzed ".to_owned();
    append_u64(&mut s, count as u64);
    s.append(" trading pairs");
    s
}

/// Most trading pairs listed one by one in a multi-pair analysis.
pub const LISTED_PAIRS: usize = 5;

/// The lines of a multi-pair analysis for the given `(instrument, formatted change)` pairs.
pub open spec fn pair_lines(pairs: Seq<(Seq<char>, Seq<char>)>) -> Seq<char>
    decreases pairs.len(),
{
    if pairs.len() == 0 {
        Seq::empty()
    } else {
        pair_lines(pairs.drop_last()) + "- "@ + pairs.last().0 + ": "@ + pairs.last().1 + "%\n"@
    }
}

pub open spec fn pair_views(pairs: Seq<(String, String)>) -> Seq<(Seq<char>, Seq<char>)> {
    pairs.map_values(|p: (String, String)| (p.0@, p.1@))
}

/// A multi-pair analysis.
pub open spec fn multi_pair_text(pairs: Seq<(Seq<char>, Seq<char>)>) -> Seq<char> {
    "Analyzing "@ + decimal(pairs.len()) + " trading pairs\n\n"@ + pair_lines(pairs.take(if pairs.len() < 5 { pairs.len() as int } else { 5 }))
        + if pairs.len() > 5 {
        "... and "@ + decimal((pairs.len() - 5) as nat) + " more trading pairs\n"@
    } else {
        Seq::empty()
    }
}

/// Turns market data into the text that the agent hands to the LLM.
pub struct Analyzer;

impl Analyzer {
    /// The analysis of several trading pairs, given each pair's instrument id and its price change
    /// already formatted with two decimals: a count, one line for each of the first five pairs,
    /// and how many more there are.
    pub fn analyze_multiple_data(pairs: &Vec<(String, String)>) -> (s: String)
        ensures
            s@ == multi_pair_text(pair_views(pairs@)),
    {
        let ghost views = pair_views(pairs@);
        let mut s = "Analyzing ".to_owned();
        append_u64(&mut s, pairs.len() as u64);
        s.append(" trading pairs\n\n");
        let ghost head = s@;
        let shown: usize = if pairs.len() < LISTED_PAIRS { pairs.len() } else { LISTED_PAIRS };
        let mut i: usize = 0;
        proof {
            assert(views.take(0) =~= Seq::<(Seq<char>, Seq<char>)>::empty());
            assert(s@ =~= head + pair_lines(views.take(0)));
        }
        while i < shown
            invariant
                i <= shown,
                shown <= pairs.len(),
                shown == (if pairs.len() < 5 { pairs.len() } else { 5 }),
                views == pair_views(pairs@),
                s@ == head + pair_lines(views.take(i as int)),
            decreases shown - i,
        {
            s.append("- ");
            s.append(pairs[i].0.as_str());
            s.append(": ");
            s.append(pairs[i].1.as_str());
            s.append("%\n");
            proof {
                assert(views.take(i + 1).drop_last() =~= views.take(i as int));
                assert(views.take(i + 1).last() == (pairs@[i as int].0@, pairs@[i as int].1@));
            }
            i = i + 1;
        }
        if pairs.len() > LISTED_PAIRS {
            s.append("... and ");
            append_u64(&mut s, (pairs.len() - LISTED_PAIRS) as u64);
            s.append(" more trading pairs\n");
        }
        proof {
            assert(s@ =~= multi_pair_text(views));
        }
        s
    }

    /// The analysis of one market's data: its pair, source, price change, number of candles and,
    /// when there are candles, its prices. The figures come already formatted.
    pub fn analyze_market_data(
        inst_id: &str,
        source: &str,
        change: &str,
        candle_count: usize,
        prices: &Option<PriceLines>,
    ) -> (s: String)
        requires
            (candle_count > 0) == (prices is Some),
        ensures
            s@ == market_analysis_text(inst_id@, source@, change@, candle_count as nat, price_views(*prices)),
    {
        let mut s = "Trading Pair: ".to_owned();
        s.append(inst_id);
        s.append("\n");
        s.append("Data Source: ");
        s.append(source);
        s.append("\n");
        s.append("Price Change: ");
        s.append(change);
        s.append("%\n");
        s.append("Candle Count: ");
        append_u64(&mut s, candle_count as u64);
        s.append("\n");
        let ghost before = s@;
        match prices {
            Some(l) => {
                s.append("Open Price: ");
                s.append(l.open.as_str());
                s.append("\n");
                s.append("Latest Price: ");
                s.append(l.latest.as_str());
                s.append("\n");
                s.append("Highest Price: ");
                s.append(l.highest.as_str());
                s.append("\n");
                s.append("Lowest Price: ");
                s.append(l.lowest.as_str());
                s.append("\n");
            },
            None => {
                assert(before + Seq::<char>::empty() =~= before);
            },
        }
        s
    }

}


/// The prices of a market data analysis, already formatted with two decimals:
/// opening, latest, highest and lowest.
pub struct PriceLines {
    pub open: String,
    pub latest: String,
    pub highest: String,
    pub lowest: String,
}

/// The analysis of one market's data.
pub open spec fn market_analysis_text(
    inst_id: Seq<char>,
    source: Seq<char>,
    change: Seq<char>,
    candle_count: nat,
    prices: Option<(Seq<char>, Seq<char>, Seq<char>, Seq<char>)>,
) -> Seq<char> {
    "Trading Pair: "@ + inst_id + "\n"@ + "Data Source: "@ + source + "\n"@ + "Price Change: "@ + change + "%\n"@
        + "Candle Count: "@ + decimal(candle_count) + "\n"@ + match prices {
        Some((o, l, h, w)) => "Open Price: "@ + o + "\n"@ + "Latest Price: "@ + l + "\n"@ + "Highest Price: "@ + h
            + "\n"@ + "Lowest Price: "@ + w + "\n"@,
        None => Seq::empty(),
    }
}

pub open spec fn price_views(p: Option<PriceLines>) -> Option<(Seq<char>, Seq<char>, Seq<char>, Seq<char>)> {
    match p {
        Some(l) => Some((l.open@, l.latest@, l.highest@, l.lowest@)),
        None => None,
    }
}


/// The recommendation attached to a signal analysis report.
pub fn review_recommendation() -> (r: Recommendation)
    ensures
        r.action_type@ == "Review"@,
        r.priority@ == "medium"@,
        r.description@ == "Please carefully review the signal analysis results"@,
        r.expected_outcome@ == "Make informed trading decisions"@,
{
    Recommendation {
        action_type: "Review".to_owned(),
        priority: "medium".to_owned(),
        description: "Please carefully review the signal analysis results".to_owned(),
        expected_outcome: "Make informed trading decisions".to_owned(),
    }
}

/// The recommendation attached to a strategy discovery report, with the given priority.
pub fn monitor_recommendation(priority: &str) -> (r: Recommendation)
    ensures
        r.action_type@ == "Monitor"@,
        r.priority@ == priority@,
        r.description@ == "Continue monitoring this trading pair"@,
        r.expected_outcome@ == "Capture trading opportunities"@,
{
    Recommendation {
        action_type: "Monitor".to_owned(),
        priority: priority.to_owned(),
        description: "Continue monitoring this trading pair".to_owned(),
        expected_outcome: "Capture trading opportunities".to_owned(),
    }
}

// ==================== Agent manager ====================

/// The registered agents (handles of type `A`), by name.
pub struct AgentManager<A> {
    agents: Vec<(String, A)>,
}

impl<A> AgentManager<A> {
    #[verifier::type_invariant]
    spec fn well_formed(self) -> bool {
        names_distinct(self.agents@)
    }

    /// The registered agents, by name.
    pub closed spec fn agents(&self) -> Map<Seq<char>, A> {
        entry_map(self.agents@)
    }

    /// A manager with no agents.
    pub fn new() -> (m: AgentManager<A>)
        ensures
            m.agents() == Map::<Seq<char>, A>::empty(),
    {
        AgentManager { agents: Vec::new() }
    }

    /// Registers `agent` under `name`, replacing an agent of that name.
    pub fn register_agent(&mut self, name: String, agent: A)
        ensures
            final(self).agents() == old(self).agents().insert(name@, agent),
    {
        proof {
            use_type_invariant(&*self);
        }
        let mut entries: Vec<(String, A)> = Vec::new();
        std::mem::swap(&mut entries, &mut self.agents);
        insert_entry(&mut entries, name, agent);
        self.agents = entries;
    }

    /// The agent registered under `name`, if any; a task for an unknown agent is dropped.
    pub fn get_agent(&self, name: &str) -> (r: Option<&A>)
        ensures
            r is Some <==> self.agents().contains_key(name@),
            r matches Some(a) ==> *a == self.agents()[name@],
    {
        proof {
            use_type_invariant(self);
            lemma_entry_map(self.agents@);
        }
        match find_entry(&self.agents, name) {
            Some(i) => Some(&self.agents[i].1),
            None => None,
        }
    }
}

/// The fixed text that opens the strategy discovery prompt.
pub open spec fn discovery_intro() -> Seq<char> {
    "Please analyze the following market data and identify potential trading opportunities:\n\n"@
}

/// The fixed request that closes the strategy discovery prompt.
pub open spec fn discovery_request() -> Seq<char> {
    "\nPlease provide:\n"@ + "1. Trading opportunity assessment\n"@ + "2. Recommended strategy type\n"@
        + "3. Risk level assessment\n"@ + "4. Specific operation recommendations\n"@
}

/// Every recognition supplied to the discovery prompt reaches the LLM: the prompt opens with the
/// analysis, then carries the trend line (when there is a trend), directly followed by the
/// volatility line (when there is a volatility), then the breakout line (when there is a
/// breakout), and closes with the request for an assessment.
pub proof fn law_discovery_prompt_carries_recognitions(
    analysis: Seq<char>,
    trend: Option<Seq<char>>,
    volatility: Option<Seq<char>>,
    breakout: Option<Seq<char>>,
)
    ensures
        ({
            let p = discovery_prompt_text(analysis, trend, volatility, breakout);
            let trend_line = optional_line("\nTrend Recognition: "@, trend);
            let head = discovery_intro() + analysis + "\n"@;
            &&& p.take(head.len() as int) == head
            &&& (trend matches Some(t) ==> occurs_at(p, "\nTrend Recognition: "@ + t + "\n"@, head.len() as int))
            &&& (volatility matches Some(v) ==> occurs_at(
                p,
                "Volatility: "@ + v + "\n"@,
                (head.len() + trend_line.len()) as int,
            ))
            &&& (breakout matches Some(b) ==> occurs_at(
                p,
                "Breakout Pattern: "@ + b + "\n"@,
                (head.len() + trend_line.len() + optional_line("Volatility: "@, volatility).len()) as int,
            ))
            &&& p.skip(p.len() - discovery_request().len()) == discovery_request()
        }),
{
    let head = discovery_intro() + analysis + "\n"@;
    let tl = optional_line("\nTrend Recognition: "@, trend);
    let vl = optional_line("Volatility: "@, volatility);
    let bl = optional_line("Breakout Pattern: "@, breakout);
    let req = discovery_request();
    let p = discovery_prompt_text(analysis, trend, volatility, breakout);
    assert(p =~= head + tl + vl + bl + req);
    assert(p.take(head.len() as int) =~= head);
    assert(p.skip(p.len() - req.len()) =~= req);
    lemma_occurs_between(head, tl, vl + bl + req);
    assert(p =~= head + tl + (vl + bl + req));
    lemma_occurs_between(head + tl, vl, bl + req);
    assert(p =~= (head + tl) + vl + (bl + req));
    lemma_occurs_between(head + tl + vl, bl, req);
}

} // verus!
