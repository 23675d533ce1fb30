//! Notification messages, priorities, the push backends' addressing, and the
//! rule that turns per-backend outcomes into one result.
//!
//! The network calls themselves are made by the caller; the functions here
//! decide what is sent where and what the outcomes add up to.
use vstd::prelude::*;
use vstd::string::*;
use crate::text::{push_char, push_text};

verus! {

#[verifier::external_type_specification]
#[verifier::external_body]
pub struct ExClient(reqwest::Client);

/// Relies on reqwest's `Clone for Client`: a second handle to the same
/// connection pool. Nothing is promised of it.
pub assume_specification[ <reqwest::Client as Clone>::clone ](c: &reqwest::Client) -> reqwest::Client;

#[verifier::external_type_specification]
#[verifier::external_body]
pub struct ExJsonValue(serde_json::Value);

/// Why a notification could not be delivered.
pub enum NotificationError {
    /// The request could not be sent.
    SendError(String),
    /// The service answered with an error.
    ServiceError(String),
    /// No backend is configured.
    NoServicesConfigured,
}

/// Urgency of a notification, lowest first.
#[derive(Clone, Copy, PartialEq, Eq, Structural, Default)]
pub enum Priority {
    Min,
    Low,
    #[default]
    Default,
    High,
    Urgent,
}

/// The position of a priority in the order `Min < Low < Default < High < Urgent`.
pub open spec fn priority_rank(p: Priority) -> int {
    match p {
        Priority::Min => 0,
        Priority::Low => 1,
        Priority::Default => 2,
        Priority::High => 3,
        Priority::Urgent => 4,
    }
}

/// The 1 to 5 scale of the topic-based service.
pub open spec fn ntfy_level(p: Priority) -> int {
    match p {
        Priority::Min => 1,
        Priority::Low => 2,
        Priority::Default => 3,
        Priority::High => 4,
        Priority::Urgent => 5,
    }
}

/// The 0 to 10 scale of the token-based service.
pub open spec fn gotify_level(p: Priority) -> int {
    match p {
        Priority::Min => 0,
        Priority::Low => 2,
        Priority::Default => 5,
        Priority::High => 7,
        Priority::Urgent => 10,
    }
}

/// The three-level scale of the multi-recipient push service.
pub open spec fn expo_level(p: Priority) -> Seq<char> {
    match p {
        Priority::Min | Priority::Low => "normal"@,
        Priority::Default => "default"@,
        Priority::High | Priority::Urgent => "high"@,
    }
}

/// Rank of an Expo priority name, lowest first.
pub open spec fn expo_rank(s: Seq<char>) -> int {
    if s == "normal"@ {
        0
    } else if s == "default"@ {
        1
    } else {
        2
    }
}

impl Priority {
    /// The priority on the topic-based service's 1 to 5 scale.
    pub fn as_ntfy_priority(self) -> (r: u8)
        ensures
            r == ntfy_level(self),
    {
        match self {
            Priority::Min => 1,
            Priority::Low => 2,
            Priority::Default => 3,
            Priority::High => 4,
            Priority::Urgent => 5,
        }
    }

    /// The priority on the token-based service's 0 to 10 scale.
    pub fn as_gotify_priority(self) -> (r: u8)
        ensures
            r == gotify_level(self),
    {
        match self {
            Priority::Min => 0,
            Priority::Low => 2,
            Priority::Default => 5,
            Priority::High => 7,
            Priority::Urgent => 10,
        }
    }

    /// The priority name of the multi-recipient push service.
    pub fn as_expo_priority(self) -> (r: String)
        ensures
            r@ == expo_level(self),
    {
        match self {
            Priority::Min | Priority::Low => String::from_str("normal"),
            Priority::Default => String::from_str("default"),
            Priority::High | Priority::Urgent => String::from_str("high"),
        }
    }
}

/// Every backend maps every priority, and keeps their order: strictly on the
/// two numeric scales, without inversion on the three-level one.
pub proof fn lemma_priority_order(a: Priority, b: Priority)
    requires
        priority_rank(a) < priority_rank(b),
    ensures
        ntfy_level(a) < ntfy_level(b),
        gotify_level(a) < gotify_level(b),
        expo_rank(expo_level(a)) <= expo_rank(expo_level(b)),
        1 <= ntfy_level(a) <= 5,
        0 <= gotify_level(a) <= 10,
{
    reveal_strlit("normal");
    reveal_strlit("default");
    reveal_strlit("high");
    assert("default"@.len() != "normal"@.len());
    assert("high"@.len() != "normal"@.len());
    assert("high"@.len() != "default"@.len());
}

/// One logical message.
pub struct NotificationMessage {
    pub title: String,
    pub body: String,
    pub priority: Priority,
    pub tags: Vec<String>,
    /// City the message is about, for navigation in the app.
    pub city: Option<String>,
}

/// The result the senders report: success when at least one configured
/// backend succeeded, the first backend's error when all failed, and "not
/// configured" when there was none.
pub open spec fn aggregate(outcomes: Seq<Result<(), NotificationError>>) -> Result<
    (),
    NotificationError,
> {
    if outcomes.len() == 0 {
        Err(NotificationError::NoServicesConfigured)
    } else if exists|i: int| 0 <= i < outcomes.len() && (#[trigger] outcomes[i]) is Ok {
        Ok(())
    } else {
        outcomes[0]
    }
}

/// Combines the outcomes of the configured backends, in configuration order.
pub fn aggregate_outcomes(outcomes: Vec<Result<(), NotificationError>>) -> (r: Result<
    (),
    NotificationError,
>)
    ensures
        r == aggregate(outcomes@),
{
    if outcomes.len() == 0 {
        return Err(NotificationError::NoServicesConfigured);
    }
    let mut i: usize = 0;
    while i < outcomes.len()
        invariant
            i <= outcomes@.len(),
            forall|j: int| 0 <= j < i ==> (#[trigger] outcomes@[j]) is Err,
        decreases outcomes.len() - i,
    {
        if outcomes[i].is_ok() {
            assert(outcomes@[i as int] is Ok);
            return Ok(());
        }
        i = i + 1;
    }
    let mut failed = outcomes;
    failed.remove(0)
}

/// With one backend failing and one succeeding the send succeeds; with both
/// failing it fails with a backend's error; with none it is "not configured",
/// which no backend error is taken for.
pub proof fn lemma_fan_out(e1: NotificationError, e2: NotificationError)
    requires
        !(e1 is NoServicesConfigured),
        !(e2 is NoServicesConfigured),
    ensures
        aggregate(seq![Err(e1), Ok(())]) is Ok,
        aggregate(seq![Ok(()), Err(e2)]) is Ok,
        aggregate(seq![Err(e1), Err(e2)]) == Err::<(), NotificationError>(e1),
        aggregate(Seq::<Result<(), NotificationError>>::empty()) == Err::<(), NotificationError>(
            NotificationError::NoServicesConfigured,
        ),
{
    let s1 = seq![Err(e1), Ok(())];
    assert(s1[1] is Ok);
    let s2 = seq![Ok(()), Err(e2)];
    assert(s2[0] is Ok);
    let s3 = seq![Err::<(), NotificationError>(e1), Err(e2)];
    assert(forall|i: int| 0 <= i < 2 ==> (#[trigger] s3[i]) is Err);
}

/// `s` without its trailing slashes.
pub open spec fn strip_slashes(s: Seq<char>) -> Seq<char>
    decreases s.len(),
{
    if s.len() > 0 && s.last() == '/' {
        strip_slashes(s.drop_last())
    } else {
        s
    }
}

/// A base URL without its trailing slashes.
pub fn trim_trailing_slashes(url: &str) -> (r: String)
    ensures
        r@ == strip_slashes(url@),
{
    let mut n = url.unicode_len();
    proof {
        assert(url@.subrange(0, n as int) =~= url@);
    }
    while n > 0 && url.get_char(n - 1) == '/'
        invariant
            n <= url@.len(),
            strip_slashes(url@.subrange(0, n as int)) == strip_slashes(url@),
        decreases n,
    {
        proof {
            assert(url@.subrange(0, n as int).drop_last() =~= url@.subrange(0, n - 1));
        }
        n = n - 1;
    }
    String::from_str(url.substring_char(0, n))
}

/// How the topic-based service authenticates.
pub enum NtfyAuth {
    /// A bearer token.
    Token(String),
    /// A user name and password.
    Basic { username: String, password: String },
}

/// The standard base64 encoding (with padding) of the UTF-8 bytes of `t`.
pub uninterp spec fn base64_of_text(t: Seq<char>) -> Seq<char>;

/// Relies on base64's `STANDARD.encode`: standard alphabet with padding; the
/// result depends on the input bytes alone.
#[verifier::external_body]
fn encode_base64(t: &str) -> (r: String)
    ensures
        r@ == base64_of_text(t@),
{
    base64::Engine::encode(&base64::engine::general_purpose::STANDARD, t)
}

/// The Authorization header value for an auth method.
pub open spec fn auth_header_of(auth: NtfyAuth) -> Seq<char> {
    match auth {
        NtfyAuth::Token(t) => "Bearer "@ + t@,
        NtfyAuth::Basic { username, password } => "Basic "@ + base64_of_text(
            username@ + ":"@ + password@,
        ),
    }
}

/// Client settings of the topic-based push service.
pub struct NtfyClient {
    pub client: reqwest::Client,
    pub url: String,
    pub topic: String,
    pub auth: Option<NtfyAuth>,
}

impl NtfyClient {
    /// Settings for `topic` on the server at `url` (trailing slashes dropped).
    pub fn new(client: reqwest::Client, url: &str, topic: &str, auth: Option<NtfyAuth>) -> (c: Self)
        ensures
            c.url@ == strip_slashes(url@),
            c.topic@ == topic@,
            c.auth == auth,
    {
        NtfyClient { client, url: trim_trailing_slashes(url), topic: String::from_str(topic), auth }
    }

    /// Settings that authenticate with a bearer token.
    pub fn with_token(client: reqwest::Client, url: &str, topic: &str, token: &str) -> (c: Self)
        ensures
            c.url@ == strip_slashes(url@),
            c.topic@ == topic@,
            c.auth matches Some(NtfyAuth::Token(t)) && t@ == token@,
    {
        Self::new(client, url, topic, Some(NtfyAuth::Token(String::from_str(token))))
    }

    /// Settings that authenticate with a user name and password.
    pub fn with_basic_auth(
        client: reqwest::Client,
        url: &str,
        topic: &str,
        username: &str,
        password: &str,
    ) -> (c: Self)
        ensures
            c.url@ == strip_slashes(url@),
            c.topic@ == topic@,
            c.auth matches Some(NtfyAuth::Basic { username: u, password: p }) && u@ == username@
                && p@ == password@,
    {
        Self::new(
            client,
            url,
            topic,
            Some(
                NtfyAuth::Basic {
                    username: String::from_str(username),
                    password: String::from_str(password),
                },
            ),
        )
    }

    /// The URL a message is posted to: the server URL, a slash, the topic.
    pub fn endpoint(&self) -> (r: String)
        ensures
            r@ == self.url@ + "/"@ + self.topic@,
    {
        let mut s = self.url.clone();
        push_text(&mut s, "/");
        push_text(&mut s, self.topic.as_str());
        s
    }

    /// The Authorization header to send, if any.
    pub fn auth_header(&self) -> (r: Option<String>)
        ensures
            match self.auth {
                None => r is None,
                Some(a) => r matches Some(h) && h@ == auth_header_of(a),
            },
    {
        match &self.auth {
            None => None,
            Some(NtfyAuth::Token(t)) => {
                let mut s = String::from_str("Bearer ");
                push_text(&mut s, t.as_str());
                Some(s)
            },
            Some(NtfyAuth::Basic { username, password }) => {
                let mut creds = username.clone();
                push_text(&mut creds, ":");
                push_text(&mut creds, password.as_str());
                let mut s = String::from_str("Basic ");
                let encoded = encode_base64(creds.as_str());
                push_text(&mut s, encoded.as_str());
                Some(s)
            },
        }
    }
}

/// The tags of `tags[0..k]` joined by commas.
pub open spec fn joined_upto(tags: Seq<String>, k: nat) -> Seq<char>
    decreases k,
{
    if k == 0 {
        seq![]
    } else if k == 1 {
        tags[0]@
    } else {
        joined_upto(tags, (k - 1) as nat) + ","@ + tags[k - 1]@
    }
}

/// The Tags header: the tags joined by commas, or none when there are no tags.
pub fn tags_header(tags: &Vec<String>) -> (r: Option<String>)
    ensures
        tags@.len() == 0 ==> r is None,
        tags@.len() > 0 ==> (r matches Some(h) && h@ == joined_upto(tags@, tags@.len())),
{
    if tags.len() == 0 {
        return None;
    }
    let mut s = tags[0].clone();
    let mut i: usize = 1;
    while i < tags.len()
        invariant
            1 <= i <= tags@.len(),
            s@ == joined_upto(tags@, i as nat),
        decreases tags.len() - i,
    {
        push_char(&mut s, ',');
        push_text(&mut s, tags[i].as_str());
        proof {
            reveal_strlit(",");
            assert(s@ =~= joined_upto(tags@, i as nat) + ","@ + tags@[i as int]@);
        }
        i = i + 1;
    }
    Some(s)
}

/// Client settings of the token-based push service.
pub struct GotifyClient {
    pub client: reqwest::Client,
    pub url: String,
    pub token: String,
}

impl GotifyClient {
    /// Settings for the server at `url` (trailing slashes dropped) and an app token.
    pub fn new(client: reqwest::Client, url: &str, token: &str) -> (c: Self)
        ensures
            c.url@ == strip_slashes(url@),
            c.token@ == token@,
    {
        GotifyClient { client, url: trim_trailing_slashes(url), token: String::from_str(token) }
    }

    /// The URL a message is posted to.
    pub fn endpoint(&self) -> (r: String)
        ensures
            r@ == self.url@ + "/message?token="@ + self.token@,
    {
        let mut s = self.url.clone();
        push_text(&mut s, "/message?token=");
        push_text(&mut s, self.token.as_str());
        s
    }
}

/// Settings from which the configured backends are built.
pub struct NotificationServiceConfig<'a> {
    pub client: reqwest::Client,
    pub ntfy_url: Option<&'a str>,
    pub ntfy_topic: Option<&'a str>,
    pub ntfy_token: Option<&'a str>,
    pub ntfy_username: Option<&'a str>,
    pub ntfy_password: Option<&'a str>,
    pub gotify_url: Option<&'a str>,
    pub gotify_token: Option<&'a str>,
}

/// The topic service authenticates with the token when one is given, else
/// with user name and password when both are, else not at all.
pub open spec fn chosen_auth(
    auth: Option<NtfyAuth>,
    token: Option<&str>,
    username: Option<&str>,
    password: Option<&str>,
) -> bool {
    match token {
        Some(t) => auth matches Some(NtfyAuth::Token(a)) && a@ == t@,
        None => match (username, password) {
            (Some(u), Some(p)) => auth matches Some(NtfyAuth::Basic { username: a, password: b })
                && a@ == u@ && b@ == p@,
            _ => auth is None,
        },
    }
}

/// A backend the dispatcher can send to.
#[derive(Clone, Copy, PartialEq, Eq, Structural)]
pub enum Backend {
    Ntfy,
    Gotify,
}

/// The backends that are configured, each at most once.
pub struct NotificationService {
    ntfy: Option<NtfyClient>,
    gotify: Option<GotifyClient>,
}

impl NotificationService {
    /// The topic service's settings, if configured.
    pub closed spec fn ntfy_settings(&self) -> Option<NtfyClient> {
        self.ntfy
    }

    /// The token service's settings, if configured.
    pub closed spec fn gotify_settings(&self) -> Option<GotifyClient> {
        self.gotify
    }

    pub closed spec fn has_ntfy(&self) -> bool {
        self.ntfy is Some
    }

    pub closed spec fn has_gotify(&self) -> bool {
        self.gotify is Some
    }

    /// The configured backends in the order they are sent to.
    pub open spec fn backends(&self) -> Seq<Backend> {
        if self.has_ntfy() && self.has_gotify() {
            seq![Backend::Ntfy, Backend::Gotify]
        } else if self.has_ntfy() {
            seq![Backend::Ntfy]
        } else if self.has_gotify() {
            seq![Backend::Gotify]
        } else {
            seq![]
        }
    }

    pub fn new(ntfy: Option<NtfyClient>, gotify: Option<GotifyClient>) -> (s: Self)
        ensures
            s.has_ntfy() == ntfy is Some,
            s.has_gotify() == gotify is Some,
    {
        NotificationService { ntfy, gotify }
    }

    /// Builds the backends whose settings are complete: the topic service
    /// needs a URL and a topic (a token is preferred over a user name and
    /// password), the token service a URL and a token.
    pub fn from_config(config: NotificationServiceConfig<'_>) -> (s: Self)
        ensures
            s.has_ntfy() == (config.ntfy_url is Some && config.ntfy_topic is Some),
            s.has_gotify() == (config.gotify_url is Some && config.gotify_token is Some),
            s.has_ntfy() == s.ntfy_settings() is Some,
            s.has_gotify() == s.gotify_settings() is Some,
            s.ntfy_settings() matches Some(c) ==> {
                &&& c.url@ == strip_slashes(config.ntfy_url->0@)
                &&& c.topic@ == config.ntfy_topic->0@
                &&& chosen_auth(
                    c.auth,
                    config.ntfy_token,
                    config.ntfy_username,
                    config.ntfy_password,
                )
            },
            s.gotify_settings() matches Some(c) ==> c.url@ == strip_slashes(config.gotify_url->0@)
                && c.token@ == config.gotify_token->0@,
    {
        let ntfy = match (config.ntfy_url, config.ntfy_topic) {
            (Some(url), Some(topic)) => {
                let auth = match config.ntfy_token {
                    Some(token) => Some(NtfyAuth::Token(String::from_str(token))),
                    None => match (config.ntfy_username, config.ntfy_password) {
                        (Some(username), Some(password)) => Some(
                            NtfyAuth::Basic {
                                username: String::from_str(username),
                                password: String::from_str(password),
                            },
                        ),
                        _ => None,
                    },
                };
                Some(NtfyClient::new(config.client.clone(), url, topic, auth))
            },
            _ => None,
        };
        let gotify = match (config.gotify_url, config.gotify_token) {
            (Some(url), Some(token)) => Some(GotifyClient::new(config.client, url, token)),
            _ => None,
        };
        NotificationService { ntfy, gotify }
    }

    /// Whether any backend is configured.
    pub fn is_configured(&self) -> (r: bool)
        ensures
            r == (self.backends().len() > 0),
    {
        self.ntfy.is_some() || self.gotify.is_some()
    }

    /// The backends a message goes to, or "not configured" when there are none.
    pub fn send_targets(&self) -> (r: Result<Vec<Backend>, NotificationError>)
        ensures
            self.backends().len() == 0 ==> r matches Err(NotificationError::NoServicesConfigured),
            self.backends().len() > 0 ==> (r matches Ok(v) && v@ == self.backends()),
    {
        let mut v: Vec<Backend> = Vec::new();
        if self.ntfy.is_some() {
            v.push(Backend::Ntfy);
        }
        if self.gotify.is_some() {
            v.push(Backend::Gotify);
        }
        if v.len() == 0 {
            Err(NotificationError::NoServicesConfigured)
        } else {
            proof {
                assert(v@ =~= self.backends());
            }
            Ok(v)
        }
    }

    /// The topic service's settings, or "not configured".
    pub fn ntfy_target(&self) -> (r: Result<&NtfyClient, NotificationError>)
        ensures
            self.has_ntfy() <==> r is Ok,
            !self.has_ntfy() ==> r matches Err(NotificationError::NoServicesConfigured),
    {
        match &self.ntfy {
            Some(c) => Ok(c),
            None => Err(NotificationError::NoServicesConfigured),
        }
    }

    /// The token service's settings, or "not configured".
    pub fn gotify_target(&self) -> (r: Result<&GotifyClient, NotificationError>)
        ensures
            self.has_gotify() <==> r is Ok,
            !self.has_gotify() ==> r matches Err(NotificationError::NoServicesConfigured),
    {
        match &self.gotify {
            Some(c) => Ok(c),
            None => Err(NotificationError::NoServicesConfigured),
        }
    }
}

} // verus!
