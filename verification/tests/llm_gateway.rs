use cluebot::llm::{
    GatewayError, LLMGateway, Message, MessageEvent, MessageRole, PromptError, PromptManager, PromptTemplate,
    ProviderType,
};

fn vars(pairs: &[(&str, &str)]) -> Vec<(String, String)> {
    pairs.iter().map(|(k, v)| (k.to_string(), v.to_string())).collect()
}

/// A stand-in provider that answers every request with fixed content.
struct MockProvider {
    name: String,
    reply: String,
}

impl MockProvider {
    fn chat(&self, _messages: &[Message]) -> String {
        self.reply.clone()
    }
}

#[test]
fn test_llm_gateway_basic() {
    let mut gateway: LLMGateway<MockProvider> = LLMGateway::new();
    gateway.register_provider(
        "mock".to_string(),
        MockProvider { name: "mock".to_string(), reply: "Mock response".to_string() },
    );
    let messages = vec![Message::user("Hello")];
    let provider = gateway.default_route().ok().unwrap();
    assert_eq!(provider.name, "mock");
    let response = provider.chat(&messages);
    assert_eq!(response, "Mock response");
}

#[test]
fn test_prompt_template() {
    let template = PromptTemplate::new("test", "Hello {{name}}, welcome to {{place}}!");
    let variables = vars(&[("name", "Alice"), ("place", "Wonderland")]);
    let result = template.render(&variables).ok().unwrap();
    assert_eq!(result, "Hello Alice, welcome to Wonderland!");
}

#[test]
fn test_prompt_manager() {
    let mut manager = PromptManager::new();
    let template = PromptTemplate::new("greeting", "Hello {{name}}!");
    manager.register_template(template);
    let variables = vars(&[("name", "World")]);
    let result = manager.render_template("greeting", &variables).ok().unwrap();
    assert_eq!(result, "Hello World!");
}

#[test]
fn test_message_creation() {
    let system_msg = Message::system("You are a helpful assistant");
    assert_eq!(system_msg.role, MessageRole::System);

    let user_msg = Message::user("Hello");
    assert_eq!(user_msg.role, MessageRole::User);

    let assistant_msg = Message::assistant("Hi there");
    assert_eq!(assistant_msg.role, MessageRole::Assistant);
    assert_eq!(assistant_msg.content, "Hi there");
}

#[test]
fn test_render_replaces_every_occurrence() {
    let template = PromptTemplate::new("t", "{{x}}+{{x}}={{y}}");
    let result = template.render(&vars(&[("x", "1"), ("y", "2")])).ok().unwrap();
    assert_eq!(result, "1+1=2");
}

#[test]
fn test_render_leaves_unknown_placeholders() {
    let template = PromptTemplate::new("t", "Hi {{who}} and {{other}}");
    let result = template.render(&vars(&[("who", "Bob")])).ok().unwrap();
    assert_eq!(result, "Hi Bob and {{other}}");
    let unchanged = template.render(&Vec::new()).ok().unwrap();
    assert_eq!(unchanged, "Hi {{who}} and {{other}}");
}

#[test]
fn test_render_applies_variables_in_order() {
    // The first value introduces a placeholder that the second variable then fills.
    let template = PromptTemplate::new("t", "{{a}}");
    let result = template.render(&vars(&[("a", "{{b}}"), ("b", "done")])).ok().unwrap();
    assert_eq!(result, "done");
}

#[test]
fn test_render_non_ascii() {
    let template = PromptTemplate::new("t", "市场数据：{{market_data}}。");
    let result = template.render(&vars(&[("market_data", "BTC 上涨")])).ok().unwrap();
    assert_eq!(result, "市场数据：BTC 上涨。");
}

#[test]
fn test_template_builders() {
    let t = PromptTemplate::new("n", "body").with_description("desc").with_version("2.0.0");
    assert_eq!(t.name, "n");
    assert_eq!(t.template, "body");
    assert_eq!(t.description.as_deref(), Some("desc"));
    assert_eq!(t.version, "2.0.0");
    let fresh = PromptTemplate::new("n", "body");
    assert_eq!(fresh.version, "1.0.0");
    assert!(fresh.description.is_none());
}

#[test]
fn test_prompt_manager_missing_template() {
    let manager = PromptManager::new();
    match manager.render_template("absent", &Vec::new()) {
        Err(PromptError::TemplateNotFound(name)) => assert_eq!(name, "absent"),
        Ok(_) => panic!("rendering a missing template succeeded"),
    }
    assert!(manager.get_template("absent").is_none());
}

#[test]
fn test_prompt_manager_replaces_by_name() {
    let mut manager = PromptManager::new();
    manager.register_template(PromptTemplate::new("greeting", "Hello {{name}}!"));
    manager.register_template(PromptTemplate::new("greeting", "Bye {{name}}!"));
    manager.register_template(PromptTemplate::new("other", "x"));
    let got = manager.get_template("greeting").unwrap();
    assert_eq!(got.template, "Bye {{name}}!");
    let result = manager.render_template("greeting", &vars(&[("name", "World")])).ok().unwrap();
    assert_eq!(result, "Bye World!");
}

#[test]
fn test_builtin_prompts() {
    let discovery = PromptManager::create_strategy_discovery_prompt();
    assert_eq!(discovery.name, "strategy_discovery");
    assert!(discovery.template.contains("{{market_data}}"));
    assert_eq!(discovery.description.as_deref(), Some("策略发现分析提示词"));
    let signal = PromptManager::create_signal_analysis_prompt();
    assert_eq!(signal.name, "signal_analysis");
    assert!(signal.template.contains("{{signal_data}}"));
    assert!(signal.template.contains("{{context}}"));
    let rendered = signal
        .render(&vars(&[("signal_data", "S"), ("context", "C")]))
        .ok()
        .unwrap();
    assert!(rendered.contains("信号信息：\nS\n"));
    assert!(rendered.contains("历史上下文：\nC\n"));
}

#[test]
fn test_provider_type_names() {
    assert_eq!(ProviderType::OpenAI.as_str(), "openai");
    assert_eq!(ProviderType::Anthropic.as_str(), "anthropic");
    assert_eq!(ProviderType::Custom("local").as_str(), "local");
}

#[test]
fn test_message_event_variants() {
    let events = vec![MessageEvent::Delta("Mock ".to_string()), MessageEvent::Done, MessageEvent::Error("x".to_string())];
    assert!(matches!(events[0], MessageEvent::Delta(ref s) if s == "Mock "));
    assert!(matches!(events[1], MessageEvent::Done));
}

fn mock(name: &str) -> MockProvider {
    MockProvider { name: name.to_string(), reply: format!("reply from {}", name) }
}

#[test]
fn test_first_provider_becomes_default() {
    let mut gateway: LLMGateway<MockProvider> = LLMGateway::new();
    assert!(gateway.default_provider().is_none());
    assert!(matches!(gateway.default_route(), Err(GatewayError::NoDefaultProvider)));
    gateway.register_provider("a".to_string(), mock("a"));
    gateway.register_provider("b".to_string(), mock("b"));
    assert_eq!(gateway.default_provider().as_deref(), Some("a"));
    assert_eq!(gateway.default_route().ok().unwrap().name, "a");
    assert_eq!(gateway.provider("b").ok().unwrap().name, "b");
}

#[test]
fn test_set_default_provider() {
    let mut gateway: LLMGateway<MockProvider> = LLMGateway::new();
    gateway.register_provider("a".to_string(), mock("a"));
    gateway.register_provider("b".to_string(), mock("b"));
    assert!(gateway.set_default_provider("b").is_ok());
    assert_eq!(gateway.default_route().ok().unwrap().name, "b");
    match gateway.set_default_provider("missing") {
        Err(e) => {
            assert!(matches!(e, GatewayError::ProviderNotRegistered(ref n) if n == "missing"));
            assert_eq!(e.message(), "Provider 'missing' not registered");
        }
        Ok(()) => panic!("an unregistered provider became the default"),
    }
    assert_eq!(gateway.default_provider().as_deref(), Some("b"));
}

#[test]
fn test_unknown_provider() {
    let gateway: LLMGateway<MockProvider> = LLMGateway::new();
    match gateway.provider("nobody") {
        Err(e) => assert_eq!(e.message(), "Provider 'nobody' not found"),
        Ok(_) => panic!("routed to an unregistered provider"),
    }
    assert_eq!(GatewayError::NoDefaultProvider.message(), "No default provider set");
}

#[test]
fn test_template_messages() {
    let mut gateway: LLMGateway<MockProvider> = LLMGateway::new();
    gateway.register_template(PromptTemplate::new("greeting", "Hello {{name}}!"));
    let messages = gateway.template_messages("greeting", &vars(&[("name", "World")])).ok().unwrap();
    assert_eq!(messages.len(), 1);
    assert_eq!(messages[0].role, MessageRole::User);
    assert_eq!(messages[0].content, "Hello World!");
    match gateway.template_messages("nope", &Vec::new()) {
        Err(e) => assert_eq!(e.message(), "Template 'nope' not found"),
        Ok(_) => panic!("a missing template rendered"),
    }
    assert!(gateway.prompt_manager().get_template("greeting").is_some());
}

#[test]
fn test_registration_sequence() {
    let mut gateway: LLMGateway<MockProvider> = LLMGateway::new();
    gateway.register_provider("a".to_string(), mock("a"));
    assert_eq!(gateway.default_provider().as_deref(), Some("a"));
    gateway.register_provider("b".to_string(), mock("b"));
    assert_eq!(gateway.default_provider().as_deref(), Some("a"));
    let mut replacement = mock("a");
    replacement.reply = "second a".to_string();
    gateway.register_provider("a".to_string(), replacement);
    assert_eq!(gateway.default_provider().as_deref(), Some("a"));
    assert_eq!(gateway.default_route().ok().unwrap().reply, "second a");
    assert_eq!(gateway.provider("b").ok().unwrap().reply, "reply from b");
}
