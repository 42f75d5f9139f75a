//! The e-mail notification channel: SMTP settings, recipients, and how a
//! notification becomes an e-mail's subject and body.
//!
//! Connecting to the SMTP server and sending are done outside this library.

use vstd::prelude::*;

verus! {

/// A JSON document (serde_json's `Value`).
#[verifier::external_type_specification]
#[verifier::external_body]
pub struct ExJsonValue(serde_json::Value);

/// serde_json's error.
#[verifier::external_type_specification]
#[verifier::external_body]
pub struct ExJsonError(serde_json::Error);

/// Whether serde_json accepts `text` as one JSON document.
pub uninterp spec fn json_text_parses(text: Seq<char>) -> bool;

/// `serde_json::from_str::<Value>`: succeeds exactly on the texts that serde_json accepts as JSON,
/// which depends on the text alone.
#[verifier::external_body]
fn parse_json(text: &str) -> (r: Result<serde_json::Value, serde_json::Error>)
    ensures
        r is Ok <==> json_text_parses(text@),
{
    serde_json::from_str::<serde_json::Value>(text)
}

/// The text of the string member `key` of the JSON document `text`: `None` when `text` is not
/// JSON, is not an object, has no member `key`, or that member is not a string. It depends on
/// the text and the key alone.
pub uninterp spec fn json_str_member(text: Seq<char>, key: Seq<char>) -> Option<Seq<char>>;

/// The pretty-printed form of the JSON document `text` (`None` when `text` is not JSON or
/// printing fails). It depends on the text alone: serde_json's default object map keeps its
/// members in sorted order.
pub uninterp spec fn json_pretty_text(text: Seq<char>) -> Option<Seq<char>>;

/// The string member `key` of the JSON document `text`: `serde_json::from_str::<Value>`, then
/// `Value::get` with the key and `Value::as_str`; the result is exactly [`json_str_member`].
#[verifier::external_body]
fn json_string_member(text: &str, key: &str) -> (r: Option<String>)
    ensures
        opt_text(r) == json_str_member(text@, key@),
{
    match serde_json::from_str::<serde_json::Value>(text) {
        Ok(v) => match v.get(key) {
            Some(m) => match m.as_str() {
                Some(s) => Some(s.to_string()),
                None => None,
            },
            None => None,
        },
        Err(_) => None,
    }
}

/// The pretty form of the JSON document `text`: `serde_json::from_str::<Value>`, then
/// `serde_json::to_string_pretty`; the result is exactly [`json_pretty_text`].
#[verifier::external_body]
fn json_pretty_of(text: &str) -> (r: Option<String>)
    ensures
        opt_text(r) == json_pretty_text(text@),
{
    match serde_json::from_str::<serde_json::Value>(text) {
        Ok(v) => match serde_json::to_string_pretty(&v) {
            Ok(p) => Some(p),
            Err(_) => None,
        },
        Err(_) => None,
    }
}

/// SMTP settings.
#[derive(Clone, Debug)]
pub struct EmailConfig {
    /// SMTP server address.
    pub smtp_server: String,
    /// SMTP port.
    pub smtp_port: u16,
    /// Sender address.
    pub from_email: String,
    /// Sender name.
    pub from_name: String,
    /// Account name.
    pub username: String,
    /// Password or authorisation code.
    pub password: String,
    /// Whether to use TLS.
    pub use_tls: bool,
}

impl EmailConfig {
    /// Settings for Gmail: `smtp.gmail.com`, port 587, TLS, sending from the account.
    pub fn email(username: &str, password: &str) -> (c: EmailConfig)
        ensures
            c.smtp_server@ == "smtp.gmail.com"@,
            c.smtp_port == 587,
            c.from_email@ == username@,
            c.from_name@ == "ClueBot"@,
            c.username@ == username@,
            c.password@ == password@,
            c.use_tls,
    {
        EmailConfig {
            smtp_server: "smtp.gmail.com".to_owned(),
            smtp_port: 587,
            from_email: username.to_owned(),
            from_name: "ClueBot".to_owned(),
            username: username.to_owned(),
            password: password.to_owned(),
            use_tls: true,
        }
    }

    /// Settings for QQ mail: `smtp.qq.com`, port 587, TLS, sending from the account.
    pub fn qq(username: &str, password: &str) -> (c: EmailConfig)
        ensures
            c.smtp_server@ == "smtp.qq.com"@,
            c.smtp_port == 587,
            c.from_email@ == username@,
            c.from_name@ == "ClueBot"@,
            c.username@ == username@,
            c.password@ == password@,
            c.use_tls,
    {
        EmailConfig {
            smtp_server: "smtp.qq.com".to_owned(),
            smtp_port: 587,
            from_email: username.to_owned(),
            from_name: "ClueBot".to_owned(),
            username: username.to_owned(),
            password: password.to_owned(),
            use_tls: true,
        }
    }

    /// Custom settings; the sender address may differ from the account (enterprise mail).
    pub fn custom(
        smtp_server: &str,
        smtp_port: u16,
        from_email: &str,
        username: &str,
        password: &str,
        use_tls: bool,
    ) -> (c: EmailConfig)
        ensures
            c.smtp_server@ == smtp_server@,
            c.smtp_port == smtp_port,
            c.from_email@ == from_email@,
            c.from_name@ == "ClueBot"@,
            c.username@ == username@,
            c.password@ == password@,
            c.use_tls == use_tls,
    {
        EmailConfig {
            smtp_server: smtp_server.to_owned(),
            smtp_port,
            from_email: from_email.to_owned(),
            from_name: "ClueBot".to_owned(),
            username: username.to_owned(),
            password: password.to_owned(),
            use_tls,
        }
    }
}

/// What a notification becomes as an e-mail, given what was read from it: `None` when the
/// notification is not JSON; otherwise its `strategy_name` text, if any, and its pretty form,
/// if that could be produced.
pub open spec fn email_content(message: Seq<char>, json: Option<(Option<Seq<char>>, Option<Seq<char>>)>) -> (Seq<char>, Seq<char>) {
    match json {
        None => ("[ClueBot] Notification"@, message + "\n\n---\nGenerated by ClueBot"@),
        Some((name, pretty)) => (
            "[ClueBot] "@ + match name {
                Some(n) => n,
                None => "Trading Signal"@,
            },
            "ClueBot Trading Alert\n\n"@ + match pretty {
                Some(p) => p,
                None => message,
            } + "\n\n---\nGenerated by ClueBot"@,
        ),
    }
}

pub open spec fn opt_text(o: Option<String>) -> Option<Seq<char>> {
    match o {
        Some(s) => Some(s@),
        None => None,
    }
}

/// The subject and body of the e-mail for `message`, given what was read from it as JSON
/// (see [`email_content`]).
pub fn compose_email(message: &str, json: Option<(Option<String>, Option<String>)>) -> (r: (String, String))
    ensures
        (r.0@, r.1@) == email_content(
            message@,
            match json {
                None => None,
                Some((n, p)) => Some((opt_text(n), opt_text(p))),
            },
        ),
{
    match json {
        None => {
            let mut body = message.to_owned();
            body.append("\n\n---\nGenerated by ClueBot");
            ("[ClueBot] Notification".to_owned(), body)
        },
        Some((name, pretty)) => {
            let mut subject = "[ClueBot] ".to_owned();
            match &name {
                Some(n) => subject.append(n.as_str()),
                None => subject.append("Trading Signal"),
            }
            let mut body = "ClueBot Trading Alert\n\n".to_owned();
            match &pretty {
                Some(p) => body.append(p.as_str()),
                None => body.append(message),
            }
            body.append("\n\n---\nGenerated by ClueBot");
            (subject, body)
        },
    }
}

/// The e-mail channel: settings and recipients.
pub struct EmailChannel {
    config: EmailConfig,
    recipients: Vec<String>,
}

impl EmailChannel {
    pub closed spec fn settings(&self) -> EmailConfig {
        self.config
    }

    /// The recipients, in the order they were added.
    pub closed spec fn recipient_list(&self) -> Seq<Seq<char>> {
        self.recipients@.map_values(|s: String| s@)
    }

    /// A channel with the given settings and no recipients.
    pub fn new(config: EmailConfig) -> (c: EmailChannel)
        ensures
            c.settings() == config,
            c.recipient_list() == Seq::<Seq<char>>::empty(),
    {
        let c = EmailChannel { config, recipients: Vec::new() };
        assert(c.recipient_list() =~= Seq::<Seq<char>>::empty());
        c
    }

    /// Adds a recipient after those already present.
    pub fn add_recipient(&mut self, email: &str) -> (r: &mut Self)
        ensures
            r.recipient_list() == old(self).recipient_list().push(email@),
            r.settings() == old(self).settings(),
            *final(self) == *final(r),
    {
        let ghost before = self.recipients@;
        self.recipients.push(email.to_owned());
        assert(self.recipients@.map_values(|s: String| s@) =~= before.map_values(|s: String| s@).push(email@));
        self
    }

    /// The channel with its recipients replaced by `emails`.
    pub fn with_recipients(self, emails: Vec<String>) -> (c: EmailChannel)
        ensures
            c.settings() == self.settings(),
            c.recipient_list() == emails@.map_values(|s: String| s@),
    {
        let mut c = self;
        c.recipients = emails;
        c
    }

    /// The channel's name: `Email`.
    pub fn name(&self) -> (s: &'static str)
        ensures
            s@ == "Email"@,
    {
        "Email"
    }

    /// The settings.
    pub fn config(&self) -> (c: &EmailConfig)
        ensures
            *c == self.settings(),
    {
        &self.config
    }

    /// The recipients.
    pub fn recipients(&self) -> (r: &Vec<String>)
        ensures
            r@.map_values(|s: String| s@) == self.recipient_list(),
    {
        &self.recipients
    }

    /// The sender mailbox: `<from_name> <<from_email>>`.
    pub fn sender(&self) -> (s: String)
        ensures
            s@ == self.settings().from_name@ + " <"@ + self.settings().from_email@ + ">"@,
    {
        let mut s = self.config.from_name.clone();
        s.append(" <");
        s.append(self.config.from_email.as_str());
        s.append(">");
        s
    }

    /// The subject and body of the e-mail for a notification. A notification that is not JSON
    /// keeps its text under a fixed subject; a JSON one gets a subject naming its
    /// `strategy_name` (or "Trading Signal") and its pretty-printed form as the body.
    pub fn format_email_content(&self, message: &str) -> (r: (String, String))
        ensures
            (r.0@, r.1@) == email_content(
                message@,
                if json_text_parses(message@) {
                    Some((json_str_member(message@, "strategy_name"@), json_pretty_text(message@)))
                } else {
                    None
                },
            ),
    {
        match parse_json(message) {
            Ok(_) => {
                let name = json_string_member(message, "strategy_name");
                let pretty = json_pretty_of(message);
                compose_email(message, Some((name, pretty)))
            },
            Err(_) => compose_email(message, None),
        }
    }
}

/// What an e-mail says of a notification. The body carries the notification whole between the
/// alert header and the footer: its pretty-printed JSON when it is JSON that could be printed,
/// else its own text; the subject names the strategy when the JSON gives one. The body does not
/// depend on the strategy name: two notifications that differ only in it get the same body.
pub proof fn law_email_carries_notification(
    message: Seq<char>,
    name: Option<Seq<char>>,
    other_name: Option<Seq<char>>,
    pretty: Option<Seq<char>>,
)
    ensures
        ({
            let (subject, body) = email_content(message, Some((name, pretty)));
            let content = match pretty {
                Some(p) => p,
                None => message,
            };
            &&& body == "ClueBot Trading Alert\n\n"@ + content + "\n\n---\nGenerated by ClueBot"@
            &&& subject == "[ClueBot] "@ + match name {
                Some(n) => n,
                None => "Trading Signal"@,
            }
            &&& body == email_content(message, Some((other_name, pretty))).1
        }),
        email_content(message, None) == ("[ClueBot] Notification"@, message + "\n\n---\nGenerated by ClueBot"@),
{
}

} // verus!
