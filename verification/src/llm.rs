//! The LLM layer: chat messages, provider kinds, prompt templates and the
//! gateway's routing of requests to registered providers.
//!
//! The gateway holds each provider as an opaque handle `P`; sending a request
//! through a provider is asynchronous work that the caller performs on the
//! handle that the gateway routes it to.

use vstd::prelude::*;
use crate::registry::{entry_map, find_entry, has_name, insert_entry, lemma_entry_map, names_distinct};
use crate::text::{chars_of, push_char, replace_all, replace_str};

verus! {

// ==================== Messages ====================

/// Who speaks in a chat message.
#[derive(PartialEq, Eq, Structural, Clone, Copy, Debug)]
pub enum MessageRole {
    System,
    User,
    Assistant,
}

/// One chat message.
#[derive(Clone, Debug)]
pub struct Message {
    pub role: MessageRole,
    pub content: String,
}

impl Message {
    /// A system message with the given content.
    pub fn system(content: &str) -> (m: Message)
        ensures
            m.role == MessageRole::System,
            m.content@ == content@,
    {
        Message { role: MessageRole::System, content: content.to_owned() }
    }

    /// A user message with the given content.
    pub fn user(content: &str) -> (m: Message)
        ensures
            m.role == MessageRole::User,
            m.content@ == content@,
    {
        Message { role: MessageRole::User, content: content.to_owned() }
    }

    /// An assistant message with the given content.
    pub fn assistant(content: &str) -> (m: Message)
        ensures
            m.role == MessageRole::Assistant,
            m.content@ == content@,
    {
        Message { role: MessageRole::Assistant, content: content.to_owned() }
    }
}

/// An event of a streamed response.
#[derive(Clone, Debug)]
pub enum MessageEvent {
    /// A piece of content.
    Delta(String),
    /// The stream is complete.
    Done,
    /// The stream failed.
    Error(String),
}

/// Kinds of LLM provider.
#[derive(Clone, Copy, PartialEq, Eq, Hash, Debug)]
pub enum ProviderType {
    OpenAI,
    Anthropic,
    Custom(&'static str),
}

/// The name of a provider kind.
pub open spec fn provider_type_name(p: ProviderType) -> Seq<char> {
    match p {
        ProviderType::OpenAI => "openai"@,
        ProviderType::Anthropic => "anthropic"@,
        ProviderType::Custom(s) => s@,
    }
}

impl ProviderType {
    /// The provider kind's name: `"openai"`, `"anthropic"`, or the custom name.
    pub fn as_str(&self) -> (s: &str)
        ensures
            s@ == provider_type_name(*self),
    {
        match self {
            ProviderType::OpenAI => "openai",
            ProviderType::Anthropic => "anthropic",
            ProviderType::Custom(s) => s,
        }
    }
}

// ==================== Prompt templates ====================

/// What a prompt template holds, as text.
pub struct PromptTemplateView {
    pub name: Seq<char>,
    pub template: Seq<char>,
    pub description: Option<Seq<char>>,
    pub version: Seq<char>,
}

/// A prompt template: text with `{{variable}}` placeholders.
#[derive(Clone, Debug)]
pub struct PromptTemplate {
    /// Template name.
    pub name: String,
    /// Template text, with placeholders such as `{{variable}}`.
    pub template: String,
    /// Description.
    pub description: Option<String>,
    /// Version.
    pub version: String,
}

pub open spec fn opt_view(o: Option<String>) -> Option<Seq<char>> {
    match o {
        Some(s) => Some(s@),
        None => None,
    }
}

impl View for PromptTemplate {
    type V = PromptTemplateView;

    open spec fn view(&self) -> PromptTemplateView {
        PromptTemplateView {
            name: self.name@,
            template: self.template@,
            description: opt_view(self.description),
            version: self.version@,
        }
    }
}

/// The placeholder for a variable: `{{key}}`.
pub open spec fn placeholder(key: Seq<char>) -> Seq<char> {
    seq!['{', '{'] + key + seq!['}', '}']
}

/// The variables of a rendering request, as text.
pub open spec fn variable_views(vars: Seq<(String, String)>) -> Seq<(Seq<char>, Seq<char>)> {
    vars.map_values(|p: (String, String)| (p.0@, p.1@))
}

/// `text` with the placeholder of each variable replaced by its value, one variable after
/// another in the given order.
pub open spec fn render_text(text: Seq<char>, vars: Seq<(Seq<char>, Seq<char>)>) -> Seq<char>
    decreases vars.len(),
{
    if vars.len() == 0 {
        text
    } else {
        replace_all(render_text(text, vars.drop_last()), placeholder(vars.last().0), vars.last().1)
    }
}

/// Errors of template rendering.
#[derive(Clone, Debug)]
pub enum PromptError {
    /// No template is registered under the name.
    TemplateNotFound(String),
}

fn placeholder_for(key: &str) -> (p: String)
    ensures
        p@ == placeholder(key@),
{
    let mut p = String::new();
    push_char(&mut p, '{');
    push_char(&mut p, '{');
    let kc = chars_of(key);
    let mut i: usize = 0;
    while i < kc.len()
        invariant
            i <= kc.len(),
            kc@ == key@,
            p@ == seq!['{', '{'] + kc@.take(i as int),
        decreases kc.len() - i,
    {
        push_char(&mut p, kc[i]);
        proof {
            assert(kc@.take(i + 1) =~= kc@.take(i as int).push(kc@[i as int]));
        }
        i = i + 1;
    }
    push_char(&mut p, '}');
    push_char(&mut p, '}');
    proof {
        assert(kc@.take(kc.len() as int) =~= kc@);
    }
    assert(p@ =~= placeholder(key@));
    p
}

fn copy_text(s: &Option<String>) -> (r: Option<String>)
    ensures
        opt_view(r) == opt_view(*s),
{
    match s {
        Some(t) => Some(t.clone()),
        None => None,
    }
}

impl PromptTemplate {
    /// A template with the given name and text, no description, version `1.0.0`.
    pub fn new(name: &str, template: &str) -> (t: PromptTemplate)
        ensures
            t@.name == name@,
            t@.template == template@,
            t@.description is None,
            t@.version == "1.0.0"@,
    {
        PromptTemplate {
            name: name.to_owned(),
            template: template.to_owned(),
            description: None,
            version: "1.0.0".to_owned(),
        }
    }

    /// The template with its description set.
    pub fn with_description(self, desc: &str) -> (t: PromptTemplate)
        ensures
            t@ == (PromptTemplateView { description: Some(desc@), ..self@ }),
    {
        let mut t = self;
        t.description = Some(desc.to_owned());
        t
    }

    /// The template with its version set.
    pub fn with_version(self, version: &str) -> (t: PromptTemplate)
        ensures
            t@ == (PromptTemplateView { version: version@, ..self@ }),
    {
        let mut t = self;
        t.version = version.to_owned();
        t
    }

    /// Renders the template with variables of distinct names: for each `(key, value)` in order, every `{{key}}` in the text
    /// so far is replaced by `value`. Rendering always succeeds.
    pub fn render(&self, variables: &Vec<(String, String)>) -> (r: Result<String, PromptError>)
        requires
            names_distinct(variables@),
        ensures
            r matches Ok(s) && s@ == render_text(self.template@, variable_views(variables@)),
    {
        let mut result = self.template.clone();
        let ghost vars = variable_views(variables@);
        let mut i: usize = 0;
        proof {
            assert(vars.take(0) =~= Seq::<(Seq<char>, Seq<char>)>::empty());
        }
        while i < variables.len()
            invariant
                i <= variables.len(),
                vars == variable_views(variables@),
                vars.len() == variables.len(),
                result@ == render_text(self.template@, vars.take(i as int)),
            decreases variables.len() - i,
        {
            let ph = placeholder_for(variables[i].0.as_str());
            proof {
                assert(vars[i as int] == (variables@[i as int].0@, variables@[i as int].1@));
                assert(vars.take(i + 1).drop_last() =~= vars.take(i as int));
                assert(vars.take(i + 1).last() == vars[i as int]);
            }
            result = replace_str(result.as_str(), ph.as_str(), variables[i].1.as_str());
            i = i + 1;
        }
        proof {
            assert(vars.take(variables.len() as int) =~= vars);
        }
        Ok(result)
    }

    fn copy(&self) -> (t: PromptTemplate)
        ensures
            t@ == self@,
    {
        PromptTemplate {
            name: self.name.clone(),
            template: self.template.clone(),
            description: copy_text(&self.description),
            version: self.version.clone(),
        }
    }
}

} // verus!

verus! {

// ==================== Prompt manager ====================

/// The text of the strategy discovery template.
pub const STRATEGY_DISCOVERY_TEXT: &'static str = r#"你是一个量化交易策略分析专家。

请分析以下市场数据，识别潜在的交易机会：

市场数据：
{{market_data}}

请从以下角度分析：
1. 市场趋势识别
2. 波动率异常检测
3. 潜在交易机会
4. 风险评估

请以 JSON 格式返回分析结果：
{
    "opportunities": [
        {
            "type": "趋势跟踪/均值回归/突破",
            "confidence": 0.85,
            "description": "描述",
            "suggested_action": "建议操作"
        }
    ],
    "risk_level": "low/medium/high",
    "summary": "分析摘要"
}"#;

/// The text of the signal analysis template.
pub const SIGNAL_ANALYSIS_TEXT: &'static str = r#"你是一个交易信号分析专家。

请分析以下交易信号：

信号信息：
{{signal_data}}

历史上下文：
{{context}}

请分析：
1. 信号质量评估
2. 历史相似情况回顾
3. 潜在风险点
4. 执行建议

请提供结构化的分析报告。"#;

/// A registry of prompt templates, keyed by template name.
pub struct PromptManager {
    templates: Vec<(String, PromptTemplate)>,
}

impl PromptManager {
    #[verifier::type_invariant]
    spec fn well_formed(self) -> bool {
        names_distinct(self.templates@)
    }

    /// The registered templates, by name.
    pub closed spec fn view(&self) -> Map<Seq<char>, PromptTemplateView> {
        entry_map(self.templates@).map_values(|t: PromptTemplate| t@)
    }

    /// An empty manager.
    pub fn new() -> (m: PromptManager)
        ensures
            m.view() == Map::<Seq<char>, PromptTemplateView>::empty(),
    {
        let m = PromptManager { templates: Vec::new() };
        assert(m.view() =~= Map::<Seq<char>, PromptTemplateView>::empty());
        m
    }

    /// Registers `template` under its name, replacing any template of that name.
    pub fn register_template(&mut self, template: PromptTemplate)
        ensures
            final(self).view() == old(self).view().insert(template@.name, template@),
    {
        proof {
            use_type_invariant(&*self);
        }
        let name = template.name.clone();
        let ghost t = template@;
        let mut entries: Vec<(String, PromptTemplate)> = Vec::new();
        std::mem::swap(&mut entries, &mut self.templates);
        insert_entry(&mut entries, name, template);
        self.templates = entries;
        assert(self.view() =~= old(self).view().insert(t.name, t));
    }

    /// The template registered under `name`, if any.
    pub fn get_template(&self, name: &str) -> (r: Option<PromptTemplate>)
        ensures
            r is Some <==> self.view().contains_key(name@),
            r matches Some(t) ==> t@ == self.view()[name@],
    {
        proof {
            use_type_invariant(self);
            lemma_entry_map(self.templates@);
        }
        match find_entry(&self.templates, name) {
            Some(i) => Some(self.templates[i].1.copy()),
            None => None,
        }
    }

    /// Renders the template registered under `name`; fails when there is none.
    pub fn render_template(&self, name: &str, variables: &Vec<(String, String)>) -> (r: Result<
        String,
        PromptError,
    >)
        requires
            names_distinct(variables@),
        ensures
            r is Ok <==> self.view().contains_key(name@),
            r matches Ok(s) ==> s@ == render_text(self.view()[name@].template, variable_views(variables@)),
            r matches Err(PromptError::TemplateNotFound(n)) ==> n@ == name@,
    {
        match self.get_template(name) {
            Some(t) => t.render(variables),
            None => Err(PromptError::TemplateNotFound(name.to_owned())),
        }
    }

    /// The strategy discovery template: name `strategy_discovery`, the text
    /// [`STRATEGY_DISCOVERY_TEXT`], and a description.
    pub fn create_strategy_discovery_prompt() -> (t: PromptTemplate)
        ensures
            t@.name == "strategy_discovery"@,
            t@.template == STRATEGY_DISCOVERY_TEXT@,
            t@.description == Some("策略发现分析提示词"@),
            t@.version == "1.0.0"@,
    {
        PromptTemplate::new("strategy_discovery", STRATEGY_DISCOVERY_TEXT).with_description("策略发现分析提示词")
    }

    /// The signal analysis template: name `signal_analysis`, the text
    /// [`SIGNAL_ANALYSIS_TEXT`], and a description.
    pub fn create_signal_analysis_prompt() -> (t: PromptTemplate)
        ensures
            t@.name == "signal_analysis"@,
            t@.template == SIGNAL_ANALYSIS_TEXT@,
            t@.description == Some("交易信号分析提示词"@),
            t@.version == "1.0.0"@,
    {
        PromptTemplate::new("signal_analysis", SIGNAL_ANALYSIS_TEXT).with_description("交易信号分析提示词")
    }
}

// ==================== Gateway ====================

/// Errors of the gateway's routing.
#[derive(Clone, Debug)]
pub enum GatewayError {
    /// No provider has been registered, so there is no default.
    NoDefaultProvider,
    /// A request named a provider that is not registered.
    ProviderNotFound(String),
    /// A provider that is not registered cannot become the default.
    ProviderNotRegistered(String),
    /// A request named a template that is not registered.
    TemplateNotFound(String),
}

/// The human-readable text of a gateway error.
pub open spec fn gateway_error_text(e: GatewayError) -> Seq<char> {
    match e {
        GatewayError::NoDefaultProvider => "No default provider set"@,
        GatewayError::ProviderNotFound(n) => "Provider '"@ + n@ + "' not found"@,
        GatewayError::ProviderNotRegistered(n) => "Provider '"@ + n@ + "' not registered"@,
        GatewayError::TemplateNotFound(n) => "Template '"@ + n@ + "' not found"@,
    }
}

impl GatewayError {
    /// The error's message.
    pub fn message(&self) -> (s: String)
        ensures
            s@ == gateway_error_text(*self),
    {
        match self {
            GatewayError::NoDefaultProvider => "No default provider set".to_owned(),
            GatewayError::ProviderNotFound(n) => {
                let mut s = "Provider '".to_owned();
                s.append(n.as_str());
                s.append("' not found");
                s
            },
            GatewayError::ProviderNotRegistered(n) => {
                let mut s = "Provider '".to_owned();
                s.append(n.as_str());
                s.append("' not registered");
                s
            },
            GatewayError::TemplateNotFound(n) => {
                let mut s = "Template '".to_owned();
                s.append(n.as_str());
                s.append("' not found");
                s
            },
        }
    }
}

/// The default provider after registering `name`: unchanged if there was one, else `name`.
pub open spec fn default_after_register(default_before: Option<Seq<char>>, name: Seq<char>) -> Option<Seq<char>> {
    if default_before is None {
        Some(name)
    } else {
        default_before
    }
}

/// The LLM gateway: registered providers (handles of type `P`) by name, the default
/// provider, and the prompt templates.
pub struct LLMGateway<P> {
    providers: Vec<(String, P)>,
    default_provider: Option<String>,
    prompt_manager: PromptManager,
}

impl<P> LLMGateway<P> {
    #[verifier::type_invariant]
    spec fn well_formed(self) -> bool {
        &&& names_distinct(self.providers@)
        &&& (self.default_provider matches Some(d) ==> has_name(self.providers@, d@))
    }

    /// The registered providers, by name.
    pub closed spec fn providers(&self) -> Map<Seq<char>, P> {
        entry_map(self.providers@)
    }

    /// The name of the default provider.
    pub closed spec fn default_name(&self) -> Option<Seq<char>> {
        opt_view(self.default_provider)
    }

    /// The registered prompt templates.
    pub closed spec fn templates(&self) -> Map<Seq<char>, PromptTemplateView> {
        self.prompt_manager.view()
    }

    /// A gateway with no providers and no templates.
    pub fn new() -> (g: LLMGateway<P>)
        ensures
            g.providers() == Map::<Seq<char>, P>::empty(),
            g.default_name() is None,
            g.templates() == Map::<Seq<char>, PromptTemplateView>::empty(),
    {
        LLMGateway { providers: Vec::new(), default_provider: None, prompt_manager: PromptManager::new() }
    }

    /// Registers `provider` under `name` (replacing a provider of that name); the first
    /// provider registered becomes the default.
    pub fn register_provider(&mut self, name: String, provider: P)
        ensures
            final(self).providers() == old(self).providers().insert(name@, provider),
            final(self).default_name() == default_after_register(old(self).default_name(), name@),
            final(self).templates() == old(self).templates(),
    {
        proof {
            use_type_invariant(&*self);
        }
        let key = name.clone();
        let ghost before = self.providers@;
        let mut dflt: Option<String> = None;
        std::mem::swap(&mut dflt, &mut self.default_provider);
        let mut entries: Vec<(String, P)> = Vec::new();
        std::mem::swap(&mut entries, &mut self.providers);
        let slot = insert_entry(&mut entries, name, provider);
        let ghost after = entries@;
        proof {
            lemma_entry_map(before);
            lemma_entry_map(after);
            // The default, if any, is still a registered name.
            if dflt is Some {
                let d = dflt->0;
                let j = choose|j: int| 0 <= j < before.len() && (#[trigger] before[j]).0@ == d@;
                assert(after[j].0@ == d@);
            } else {
                assert(after[slot as int].0@ == key@);
            }
        }
        self.providers = entries;
        if dflt.is_none() {
            self.default_provider = Some(key);
        } else {
            self.default_provider = dflt;
        }
    }

    /// Makes the registered provider `name` the default; fails, changing nothing, when no
    /// provider of that name is registered.
    pub fn set_default_provider(&mut self, name: &str) -> (r: Result<(), GatewayError>)
        ensures
            r is Ok <==> old(self).providers().contains_key(name@),
            r is Ok ==> final(self).default_name() == Some(name@),
            r is Err ==> final(self).default_name() == old(self).default_name(),
            r is Err ==> (r matches Err(GatewayError::ProviderNotRegistered(n)) && n@ == name@),
            final(self).providers() == old(self).providers(),
            final(self).templates() == old(self).templates(),
    {
        proof {
            use_type_invariant(&*self);
            lemma_entry_map(self.providers@);
        }
        match find_entry(&self.providers, name) {
            Some(i) => {
                self.default_provider = Some(name.to_owned());
                Ok(())
            },
            None => Err(GatewayError::ProviderNotRegistered(name.to_owned())),
        }
    }

    /// The name of the default provider.
    pub fn default_provider(&self) -> (r: Option<String>)
        ensures
            opt_view(r) == self.default_name(),
    {
        copy_text(&self.default_provider)
    }

    /// The provider that a request addressed to `provider_name` goes to.
    pub fn provider(&self, provider_name: &str) -> (r: Result<&P, GatewayError>)
        ensures
            r is Ok <==> self.providers().contains_key(provider_name@),
            r matches Ok(p) ==> *p == self.providers()[provider_name@],
            r is Err ==> (r matches Err(GatewayError::ProviderNotFound(n)) && n@ == provider_name@),
    {
        proof {
            use_type_invariant(self);
            lemma_entry_map(self.providers@);
        }
        match find_entry(&self.providers, provider_name) {
            Some(i) => Ok(&self.providers[i].1),
            None => Err(GatewayError::ProviderNotFound(provider_name.to_owned())),
        }
    }

    /// The provider that a request without a provider name goes to: the default.
    pub fn default_route(&self) -> (r: Result<&P, GatewayError>)
        ensures
            r is Ok <==> self.default_name() is Some,
            r matches Ok(p) ==> self.providers().contains_key(self.default_name()->0)
                && *p == self.providers()[self.default_name()->0],
            r is Err ==> (r matches Err(GatewayError::NoDefaultProvider)),
    {
        proof {
            use_type_invariant(self);
            lemma_entry_map(self.providers@);
        }
        match &self.default_provider {
            Some(d) => self.provider(d.as_str()),
            None => Err(GatewayError::NoDefaultProvider),
        }
    }

    /// Registers a prompt template with the gateway's prompt manager.
    pub fn register_template(&mut self, template: PromptTemplate)
        ensures
            final(self).templates() == old(self).templates().insert(template@.name, template@),
            final(self).providers() == old(self).providers(),
            final(self).default_name() == old(self).default_name(),
    {
        proof {
            use_type_invariant(&*self);
        }
        let mut pm = PromptManager::new();
        std::mem::swap(&mut pm, &mut self.prompt_manager);
        pm.register_template(template);
        self.prompt_manager = pm;
    }

    /// The gateway's prompt manager.
    pub fn prompt_manager(&self) -> (m: &PromptManager)
        ensures
            m.view() == self.templates(),
    {
        &self.prompt_manager
    }

    /// The messages of a templated request: one user message holding the rendered
    /// template `template_name`; fails when no such template is registered.
    pub fn template_messages(&self, template_name: &str, variables: &Vec<(String, String)>) -> (r:
        Result<Vec<Message>, GatewayError>)
        requires
            names_distinct(variables@),
        ensures
            r is Ok <==> self.templates().contains_key(template_name@),
            r matches Ok(ms) ==> ms@.len() == 1 && ms@[0].role == MessageRole::User
                && ms@[0].content@ == render_text(self.templates()[template_name@].template, variable_views(variables@)),
            r is Err ==> (r matches Err(GatewayError::TemplateNotFound(n)) && n@ == template_name@),
    {
        match self.prompt_manager.render_template(template_name, variables) {
            Ok(prompt) => {
                let mut ms: Vec<Message> = Vec::new();
                ms.push(Message::user(prompt.as_str()));
                Ok(ms)
            },
            Err(PromptError::TemplateNotFound(n)) => Err(GatewayError::TemplateNotFound(n)),
        }
    }
}

} // verus!

verus! {

// ==================== Laws ====================

/// Replacing a pattern that does not occur leaves the text unchanged.
pub proof fn lemma_replace_absent(s: Seq<char>, pat: Seq<char>, rep: Seq<char>)
    requires
        pat.len() > 0,
        forall|i: int| !#[trigger] crate::text::occurs_at(s, pat, i),
    ensures
        replace_all(s, pat, rep) == s,
    decreases s.len(),
{
    if s.len() >= pat.len() {
        assert(s.take(pat.len() as int) != pat) by {
            assert(!crate::text::occurs_at(s, pat, 0));
            assert(s.take(pat.len() as int) =~= s.subrange(0, pat.len() as int));
        }
        let t = s.skip(1);
        assert forall|i: int| !#[trigger] crate::text::occurs_at(t, pat, i) by {
            if crate::text::occurs_at(t, pat, i) {
                assert(s.subrange(i + 1, i + 1 + pat.len()) =~= t.subrange(i, i + pat.len()));
                assert(crate::text::occurs_at(s, pat, i + 1));
            }
        }
        lemma_replace_absent(t, pat, rep);
        assert(seq![s[0]] + t =~= s);
    }
}

/// Rendering with no variables gives the template text itself.
pub proof fn law_render_without_variables(text: Seq<char>)
    ensures
        render_text(text, Seq::empty()) == text,
{
}

/// A variable whose placeholder does not occur in the text leaves the rendering unchanged.
pub proof fn law_render_absent_placeholder(text: Seq<char>, key: Seq<char>, value: Seq<char>)
    requires
        forall|i: int| !#[trigger] crate::text::occurs_at(text, placeholder(key), i),
    ensures
        render_text(text, seq![(key, value)]) == text,
{
    let vars = seq![(key, value)];
    assert(vars.drop_last() =~= Seq::<(Seq<char>, Seq<char>)>::empty());
    assert(render_text(text, vars.drop_last()) == text);
    assert(vars.last() == (key, value));
    lemma_replace_absent(text, placeholder(key), value);
}

/// Rendering one variable replaces every occurrence of its placeholder by its value.
pub proof fn law_render_one_variable(text: Seq<char>, key: Seq<char>, value: Seq<char>)
    ensures
        render_text(text, seq![(key, value)]) == replace_all(text, placeholder(key), value),
{
    let vars = seq![(key, value)];
    assert(vars.drop_last() =~= Seq::<(Seq<char>, Seq<char>)>::empty());
    assert(render_text(text, vars.drop_last()) == text);
    assert(vars.last() == (key, value));
}

/// Every variable is applied: rendering with one more variable at the end replaces, in the
/// rendering with the others, every occurrence of that variable's placeholder by its value.
pub proof fn law_render_applies_each_variable(
    text: Seq<char>,
    vars: Seq<(Seq<char>, Seq<char>)>,
    key: Seq<char>,
    value: Seq<char>,
)
    ensures
        render_text(text, vars.push((key, value))) == replace_all(render_text(text, vars), placeholder(key), value),
{
    assert(vars.push((key, value)).drop_last() =~= vars);
}

/// A template registered under a name is what a later lookup of that name gives back, and
/// the templates under other names are untouched.
pub proof fn law_template_read_back(before: Map<Seq<char>, PromptTemplateView>, t: PromptTemplateView)
    ensures
        before.insert(t.name, t).contains_key(t.name),
        before.insert(t.name, t)[t.name] == t,
        forall|k: Seq<char>| k != t.name ==> (#[trigger] before.insert(t.name, t).contains_key(k) <==> before.contains_key(k)),
        forall|k: Seq<char>| k != t.name && before.contains_key(k) ==> #[trigger] before.insert(t.name, t)[k] == before[k],
{
}

/// The first provider registered with a gateway becomes its default, and a request without a
/// provider name then goes to it; later registrations leave the default as it is.
pub proof fn law_first_provider_is_default<P>(providers: Map<Seq<char>, P>, name: Seq<char>, p: P, other: Seq<char>)
    ensures
        default_after_register(None, name) == Some(name),
        providers.insert(name, p).contains_key(name),
        providers.insert(name, p)[name] == p,
        default_after_register(Some(other), name) == Some(other),
{
}

} // verus!

verus! {

/// The providers and the default of a new gateway after registering `regs` in order, with no
/// call of `set_default_provider` in between: each step is what `register_provider` does.
pub open spec fn after_registrations<P>(regs: Seq<(Seq<char>, P)>) -> (Map<Seq<char>, P>, Option<Seq<char>>)
    decreases regs.len(),
{
    if regs.len() == 0 {
        (Map::empty(), None)
    } else {
        let (m, d) = after_registrations(regs.drop_last());
        (m.insert(regs.last().0, regs.last().1), default_after_register(d, regs.last().0))
    }
}

/// Over a sequence of registrations on a new gateway: the first provider registered becomes the
/// default and stays it; each registered name maps to the provider registered last under that
/// name; and no other name is registered.
pub proof fn law_registrations<P>(regs: Seq<(Seq<char>, P)>)
    ensures
        regs.len() >= 1 ==> after_registrations(regs).1 == Some(regs[0].0),
        regs.len() == 0 ==> after_registrations(regs).1 is None,
        forall|i: int|
            0 <= i < regs.len() && (forall|j: int| i < j < regs.len() ==> (#[trigger] regs[j]).0 != regs[i].0) ==> {
                &&& after_registrations(regs).0.contains_key(#[trigger] regs[i].0)
                &&& after_registrations(regs).0[regs[i].0] == regs[i].1
            },
        forall|k: Seq<char>| #[trigger] after_registrations(regs).0.contains_key(k) ==> exists|i: int|
            0 <= i < regs.len() && (#[trigger] regs[i]).0 == k,
    decreases regs.len(),
{
    if regs.len() > 0 {
        let p = regs.drop_last();
        law_registrations(p);
        let last = regs[regs.len() - 1];
        assert(regs.last() == last);
        if p.len() >= 1 {
            assert(p[0] == regs[0]);
        }
        assert forall|i: int|
            0 <= i < regs.len() && (forall|j: int| i < j < regs.len() ==> (#[trigger] regs[j]).0 != regs[i].0) implies {
                &&& after_registrations(regs).0.contains_key(#[trigger] regs[i].0)
                &&& after_registrations(regs).0[regs[i].0] == regs[i].1
            } by {
            if i < regs.len() - 1 {
                assert(regs[i] == p[i]);
                assert(regs[regs.len() - 1].0 != regs[i].0);
                assert forall|j: int| i < j < p.len() implies (#[trigger] p[j]).0 != p[i].0 by {
                    assert(p[j] == regs[j]);
                }
            }
        }
        assert forall|k: Seq<char>| #[trigger] after_registrations(regs).0.contains_key(k) implies exists|i: int|
            0 <= i < regs.len() && (#[trigger] regs[i]).0 == k by {
            if k == last.0 {
                assert(regs[regs.len() - 1].0 == k);
            } else {
                assert(after_registrations(p).0.contains_key(k));
                let i = choose|i: int| 0 <= i < p.len() && (#[trigger] p[i]).0 == k;
                assert(regs[i] == p[i]);
            }
        }
    }
}

} // verus!

verus! {

/// The law over the gateway itself: take gateways `gs[0]`, ..., `gs[k]` where `gs[0]` is new and
/// each `gs[i + 1]` is `gs[i]` after `register_provider(regs[i].0, regs[i].1)` (the relation that
/// `register_provider`'s contract states), with no other change in between. Then after every
/// registration the default is the first name registered, and each gateway holds exactly what
/// [`after_registrations`] gives for the registrations so far: every registered name maps to the
/// provider registered last under it.
pub proof fn law_gateway_registrations<P>(gs: Seq<LLMGateway<P>>, regs: Seq<(Seq<char>, P)>)
    requires
        gs.len() == regs.len() + 1,
        gs[0].providers() == Map::<Seq<char>, P>::empty(),
        gs[0].default_name() is None,
        forall|i: int| 0 <= i < regs.len() ==> {
            &&& (#[trigger] gs[i + 1]).providers() == gs[i].providers().insert(regs[i].0, regs[i].1)
            &&& gs[i + 1].default_name() == default_after_register(gs[i].default_name(), regs[i].0)
        },
    ensures
        forall|i: int| 0 <= i <= regs.len() ==> (#[trigger] gs[i]).providers() == after_registrations(regs.take(i)).0
            && gs[i].default_name() == after_registrations(regs.take(i)).1,
        forall|i: int| 1 <= i <= regs.len() ==> (#[trigger] gs[i]).default_name() == Some(regs[0].0),
        forall|i: int|
            0 <= i < regs.len() && (forall|j: int| i < j < regs.len() ==> (#[trigger] regs[j]).0 != regs[i].0) ==> {
                &&& gs[regs.len() as int].providers().contains_key(#[trigger] regs[i].0)
                &&& gs[regs.len() as int].providers()[regs[i].0] == regs[i].1
            },
{
    lemma_gateway_chain(gs, regs, regs.len() as int);
    assert forall|i: int| 1 <= i <= regs.len() implies (#[trigger] gs[i]).default_name() == Some(regs[0].0) by {
        lemma_gateway_chain(gs, regs, i);
        law_registrations(regs.take(i));
        assert(regs.take(i)[0] == regs[0]);
    }
    assert forall|i: int| 0 <= i <= regs.len() implies (#[trigger] gs[i]).providers() == after_registrations(regs.take(i)).0
        && gs[i].default_name() == after_registrations(regs.take(i)).1 by {
        lemma_gateway_chain(gs, regs, i);
    }
    assert(regs.take(regs.len() as int) =~= regs);
    law_registrations(regs);
}

proof fn lemma_gateway_chain<P>(gs: Seq<LLMGateway<P>>, regs: Seq<(Seq<char>, P)>, i: int)
    requires
        gs.len() == regs.len() + 1,
        gs[0].providers() == Map::<Seq<char>, P>::empty(),
        gs[0].default_name() is None,
        forall|i: int| 0 <= i < regs.len() ==> {
            &&& (#[trigger] gs[i + 1]).providers() == gs[i].providers().insert(regs[i].0, regs[i].1)
            &&& gs[i + 1].default_name() == default_after_register(gs[i].default_name(), regs[i].0)
        },
        0 <= i <= regs.len(),
    ensures
        gs[i].providers() == after_registrations(regs.take(i)).0,
        gs[i].default_name() == after_registrations(regs.take(i)).1,
    decreases i,
{
    if i == 0 {
        assert(regs.take(0) =~= Seq::<(Seq<char>, P)>::empty());
    } else {
        lemma_gateway_chain(gs, regs, i - 1);
        let t = regs.take(i);
        assert(t.drop_last() =~= regs.take(i - 1));
        assert(t.last() == regs[i - 1]);
        assert(gs[(i - 1) + 1].providers() == gs[i - 1].providers().insert(regs[i - 1].0, regs[i - 1].1));
    }
}

} // verus!
