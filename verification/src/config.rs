//! Which backend is used, and how it is set up.

use crate::backend::claude;
use crate::backend::claude::{ClaudeBackend, ClaudeView};
use crate::backend::claude_cli;
use crate::backend::claude_cli::{ClaudeCliBackend, ClaudeCliView};
use crate::backend::mock;
use crate::backend::mock::MockBackend;
use crate::backend::ollama;
use crate::backend::ollama::{OllamaBackend, OllamaView};
use crate::backend::{Backend, ChatCall, ChatView, Entry, Message, ModelsCall, ModelsView};
use crate::text;
use vstd::prelude::*;

verus! {

// ---------------------------------------------------------------------------
// Settings
// ---------------------------------------------------------------------------

/// The kinds of backend that can be asked for.
#[derive(Clone, Copy, Debug, PartialEq, Eq, Structural)]
pub enum BackendKind {
    Ollama,
    Claude,
    /// The locally installed, already authenticated command-line program; it needs
    /// no API key.
    ClaudeCli,
}

/// The name of a kind of backend. Anthropic's two are named after its family of
/// models.
pub open spec fn kind_name(kind: BackendKind, family: Seq<char>) -> Seq<char> {
    match kind {
        BackendKind::Ollama => "ollama"@,
        BackendKind::Claude => family,
        BackendKind::ClaudeCli => family + "-cli"@,
    }
}

/// The kind of backend with this name.
pub open spec fn kind_named(name: Seq<char>, family: Seq<char>) -> Option<BackendKind> {
    if name == "ollama"@ {
        Some(BackendKind::Ollama)
    } else if name == family {
        Some(BackendKind::Claude)
    } else if name == family + "-cli"@ {
        Some(BackendKind::ClaudeCli)
    } else {
        None
    }
}

impl BackendKind {
    /// The name of this kind, where Anthropic's models are called `family`.
    pub fn name(self, family: &str) -> (r: String)
        ensures
            r@ == kind_name(self, family@),
    {
        match self {
            BackendKind::Ollama => "ollama".to_owned(),
            BackendKind::Claude => family.to_owned(),
            BackendKind::ClaudeCli => text::concat2(family, "-cli"),
        }
    }

    /// The kind with this name, where Anthropic's models are called `family`.
    pub fn from_name(name: &str, family: &str) -> (r: Option<BackendKind>)
        ensures
            r == kind_named(name@, family@),
    {
        if text::same_text(name, "ollama") {
            Some(BackendKind::Ollama)
        } else if text::same_text(name, family) {
            Some(BackendKind::Claude)
        } else if text::same_text(name, text::concat2(family, "-cli").as_str()) {
            Some(BackendKind::ClaudeCli)
        } else {
            None
        }
    }
}

/// A name says which kind is meant, and each kind has its own.
pub proof fn law_names_are_understood(kind: BackendKind, family: Seq<char>)
    requires
        family != "ollama"@,
    ensures
        kind_named(kind_name(kind, family), family) == Some(kind),
{
    reveal_strlit("ollama");
    reveal_strlit("-cli");
    let cli = family + "-cli"@;
    assert(cli.len() == family.len() + 4);
    assert(cli.last() == 'i' && "ollama"@.last() == 'a');
}

/// The settings of the command line, as far as they concern conversations.
#[derive(Debug)]
pub struct Args {
    pub backend: BackendKind,
    pub server: String,
    pub port: u16,
    pub api_base: Option<String>,
    pub model: Option<String>,
    pub max_tokens: u32,
    pub system: Option<String>,
    pub command_per_response: usize,
}

/// Everything that is needed to set up a backend.
#[derive(Debug)]
pub struct BackendConfig {
    pub backend: BackendKind,
    pub server: String,
    pub port: u16,
    pub api_base: Option<String>,
    pub model: Option<String>,
    pub max_tokens: u32,
}

/// Everything that is needed to set up a backend.
#[verifier::ext_equal]
pub struct ConfigView {
    pub backend: BackendKind,
    pub server: Seq<char>,
    pub port: u16,
    pub api_base: Option<Seq<char>>,
    pub model: Option<Seq<char>>,
    pub max_tokens: u32,
}

impl View for BackendConfig {
    type V = ConfigView;

    open spec fn view(&self) -> ConfigView {
        ConfigView {
            backend: self.backend,
            server: self.server@,
            port: self.port,
            api_base: text::opt_text(self.api_base),
            model: text::opt_text(self.model),
            max_tokens: self.max_tokens,
        }
    }
}

impl Clone for BackendConfig {
    /// The same settings.
    fn clone(&self) -> (r: BackendConfig)
        ensures
            r@ == self@,
    {
        BackendConfig {
            backend: self.backend,
            server: self.server.clone(),
            port: self.port,
            api_base: text::clone_option(&self.api_base),
            model: text::clone_option(&self.model),
            max_tokens: self.max_tokens,
        }
    }
}

impl BackendConfig {
    /// The settings of the command line.
    pub fn from_args(args: &Args) -> (r: BackendConfig)
        ensures
            r@ == (ConfigView {
                backend: args.backend,
                server: args.server@,
                port: args.port,
                api_base: text::opt_text(args.api_base),
                model: text::opt_text(args.model),
                max_tokens: args.max_tokens,
            }),
    {
        BackendConfig {
            backend: args.backend,
            server: args.server.clone(),
            port: args.port,
            api_base: text::clone_option(&args.api_base),
            model: text::clone_option(&args.model),
            max_tokens: args.max_tokens,
        }
    }
}

/// The settings that come from the environment.
#[derive(Debug)]
pub struct BackendEnv {
    /// What Anthropic's family of models is called. Its command-line program has the
    /// same name, unless another is given.
    pub family: String,
    /// `OCHA_MOCK_BACKEND`: `1` puts the scripted backend in place of any other.
    pub mock_backend: Option<String>,
    /// `OCHA_MOCK_REPLY`: its script.
    pub mock_reply: Option<String>,
    /// `ANTHROPIC_API_KEY`.
    pub api_key: Option<String>,
    /// `OCHA_CLAUDE_CLI`: where the command-line program is.
    pub claude_cli: Option<String>,
}

/// The settings that come from the environment.
#[verifier::ext_equal]
pub struct EnvView {
    pub family: Seq<char>,
    pub mock_backend: Option<Seq<char>>,
    pub mock_reply: Option<Seq<char>>,
    pub api_key: Option<Seq<char>>,
    pub claude_cli: Option<Seq<char>>,
}

impl View for BackendEnv {
    type V = EnvView;

    open spec fn view(&self) -> EnvView {
        EnvView {
            family: self.family@,
            mock_backend: text::opt_text(self.mock_backend),
            mock_reply: text::opt_text(self.mock_reply),
            api_key: text::opt_text(self.api_key),
            claude_cli: text::opt_text(self.claude_cli),
        }
    }
}

// ---------------------------------------------------------------------------
// Backends
// ---------------------------------------------------------------------------

/// Any one of the backends.
pub enum AnyBackend {
    Mock(MockBackend),
    Ollama(OllamaBackend),
    Claude(ClaudeBackend),
    ClaudeCli(ClaudeCliBackend),
}

/// Any one of the backends, with what it was set up with.
#[verifier::ext_equal]
pub enum BackendView {
    Mock(Seq<char>),
    Ollama(OllamaView),
    Claude(ClaudeView),
    ClaudeCli(ClaudeCliView),
}

impl View for AnyBackend {
    type V = BackendView;

    open spec fn view(&self) -> BackendView {
        match self {
            AnyBackend::Mock(b) => BackendView::Mock(b@),
            AnyBackend::Ollama(b) => BackendView::Ollama(b@),
            AnyBackend::Claude(b) => BackendView::Claude(b@),
            AnyBackend::ClaudeCli(b) => BackendView::ClaudeCli(b@),
        }
    }
}

/// How the models of a backend are found.
pub open spec fn models_request(b: BackendView) -> ModelsView {
    match b {
        BackendView::Mock(_) => mock::models_known(),
        BackendView::Ollama(v) => ollama::models_request(v),
        BackendView::Claude(v) => claude::models_request(v),
        BackendView::ClaudeCli(v) => claude_cli::models_known(v),
    }
}

impl Backend for AnyBackend {
    open spec fn chat_sends(&self, system: Option<Seq<char>>, history: Seq<Entry>) -> ChatView {
        match self {
            AnyBackend::Mock(b) => b.chat_sends(system, history),
            AnyBackend::Ollama(b) => b.chat_sends(system, history),
            AnyBackend::Claude(b) => b.chat_sends(system, history),
            AnyBackend::ClaudeCli(b) => b.chat_sends(system, history),
        }
    }

    open spec fn models_sends(&self) -> ModelsView {
        models_request(self@)
    }

    fn chat(&self, system: Option<&str>, messages: &[Message]) -> (c: ChatCall) {
        match self {
            AnyBackend::Mock(b) => b.chat(system, messages),
            AnyBackend::Ollama(b) => b.chat(system, messages),
            AnyBackend::Claude(b) => b.chat(system, messages),
            AnyBackend::ClaudeCli(b) => b.chat(system, messages),
        }
    }

    fn list_models(&self) -> (c: ModelsCall) {
        match self {
            AnyBackend::Mock(b) => b.list_models(),
            AnyBackend::Ollama(b) => b.list_models(),
            AnyBackend::Claude(b) => b.list_models(),
            AnyBackend::ClaudeCli(b) => b.list_models(),
        }
    }
}

/// `v`, or `default` where there is none.
pub open spec fn or_else(v: Option<Seq<char>>, default: Seq<char>) -> Seq<char> {
    match v {
        Some(s) => s,
        None => default,
    }
}

/// The backend that these settings ask for. Only the Messages API needs a key;
/// without one it cannot be used.
pub open spec fn built(cfg: ConfigView, env: EnvView) -> Result<BackendView, Seq<char>> {
    if env.mock_backend == Some("1"@) {
        Ok(BackendView::Mock(or_else(env.mock_reply, "mock reply"@)))
    } else {
        match cfg.backend {
            BackendKind::Ollama => Ok(
                BackendView::Ollama(
                    OllamaView {
                        base_url: or_else(
                            cfg.api_base,
                            "http://"@ + cfg.server + ":"@ + text::decimal(cfg.port as nat),
                        ),
                        model: or_else(cfg.model, "gemma3:27b"@),
                    },
                ),
            ),
            BackendKind::Claude => match env.api_key {
                Some(api_key) => Ok(
                    BackendView::Claude(
                        ClaudeView {
                            base_url: or_else(cfg.api_base, "https://api.anthropic.com"@),
                            api_key,
                            model: or_else(cfg.model, env.family + "-sonnet-4-6"@),
                            max_tokens: cfg.max_tokens,
                        },
                    ),
                ),
                None => Err(
                    "ANTHROPIC_API_KEY environment variable is required for the "@ + env.family
                        + " backend"@,
                ),
            },
            BackendKind::ClaudeCli => Ok(
                BackendView::ClaudeCli(
                    ClaudeCliView {
                        family: env.family,
                        binary: or_else(env.claude_cli, env.family),
                        model: cfg.model,
                    },
                ),
            ),
        }
    }
}

/// A copy of `v`, or of `default` where there is none.
fn value_or(v: &Option<String>, default: &str) -> (r: String)
    ensures
        r@ == or_else(text::opt_text(*v), default@),
{
    match v {
        Some(s) => s.clone(),
        None => default.to_owned(),
    }
}

/// Sets up the backend that these settings ask for.
pub fn build_backend(cfg: &BackendConfig, env: &BackendEnv) -> (r: Result<AnyBackend, String>)
    ensures
        match r {
            Ok(b) => built(cfg@, env@) == Ok::<BackendView, Seq<char>>(b@),
            Err(e) => built(cfg@, env@) == Err::<BackendView, Seq<char>>(e@),
        },
{
    let mocked = match &env.mock_backend {
        Some(s) => text::same_text(s.as_str(), "1"),
        None => false,
    };
    if mocked {
        return Ok(AnyBackend::Mock(MockBackend::new(value_or(&env.mock_reply, "mock reply"))));
    }
    match cfg.backend {
        BackendKind::Ollama => {
            let mut address = text::concat3("http://", cfg.server.as_str(), ":");
            address.append(text::decimal_of(cfg.port as u64).as_str());
            let base = value_or(&cfg.api_base, address.as_str());
            let model = value_or(&cfg.model, "gemma3:27b");
            Ok(AnyBackend::Ollama(OllamaBackend::new(base, model)))
        },
        BackendKind::Claude => {
            let base = value_or(&cfg.api_base, "https://api.anthropic.com");
            let usual = text::concat2(env.family.as_str(), "-sonnet-4-6");
            let model = value_or(&cfg.model, usual.as_str());
            match &env.api_key {
                Some(key) => Ok(
                    AnyBackend::Claude(
                        ClaudeBackend::new(base, key.clone(), model, cfg.max_tokens),
                    ),
                ),
                None => Err(
                    text::concat3(
                        "ANTHROPIC_API_KEY environment variable is required for the ",
                        env.family.as_str(),
                        " backend",
                    ),
                ),
            }
        },
        BackendKind::ClaudeCli => {
            let binary = value_or(&env.claude_cli, env.family.as_str());
            Ok(
                AnyBackend::ClaudeCli(
                    ClaudeCliBackend::new(
                        env.family.clone(),
                        binary,
                        text::clone_option(&cfg.model),
                    ),
                ),
            )
        },
    }
}

// ---------------------------------------------------------------------------
// Laws
// ---------------------------------------------------------------------------

/// The names that are understood are `ollama`, the name of the family, and that with
/// `-cli` behind it; any other name means no kind at all.
pub proof fn law_which_names_there_are(name: Seq<char>, family: Seq<char>)
    requires
        family != "ollama"@,
    ensures
        name == "ollama"@ ==> kind_named(name, family) == Some(BackendKind::Ollama),
        name == family ==> kind_named(name, family) == Some(BackendKind::Claude),
        name == family + "-cli"@ ==> kind_named(name, family) == Some(BackendKind::ClaudeCli),
        kind_named(name, family) is Some ==> name == "ollama"@ || name == family || name == family
            + "-cli"@,
{
    law_names_are_understood(BackendKind::ClaudeCli, family);
}

/// Where the scripted backend is asked for, it stands in for any other, with the script
/// that is given; and it stands in only then.
pub proof fn law_the_script_stands_in(cfg: ConfigView, env: EnvView)
    ensures
        env.mock_backend == Some("1"@) ==> built(cfg, env) == Ok::<BackendView, Seq<char>>(
            BackendView::Mock(
                if env.mock_reply is Some {
                    env.mock_reply->0
                } else {
                    "mock reply"@
                },
            ),
        ),
        built(cfg, env) matches Ok(BackendView::Mock(_)) ==> env.mock_backend == Some("1"@),
{
}

/// Of the three real backends, the one that was asked for is set up.
pub proof fn law_the_backend_asked_for_is_set_up(cfg: ConfigView, env: EnvView)
    requires
        env.mock_backend != Some("1"@),
    ensures
        cfg.backend == BackendKind::Ollama <==> (built(cfg, env) matches Ok(b) && b is Ollama),
        cfg.backend == BackendKind::ClaudeCli <==> (built(cfg, env) matches Ok(b) && b is ClaudeCli),
        cfg.backend == BackendKind::Claude && env.api_key is Some <==> (built(cfg, env) matches Ok(b)
            && b is Claude),
        cfg.backend == BackendKind::Claude && env.api_key is None <==> built(cfg, env) is Err,
        built(cfg, env) matches Err(e) ==> e
            == "ANTHROPIC_API_KEY environment variable is required for the "@ + env.family
            + " backend"@,
{
}

/// A setting that is given is used as it is, whatever the others are.
pub proof fn law_settings_that_are_given_are_used(cfg: ConfigView, env: EnvView)
    ensures
        built(cfg, env) matches Ok(BackendView::Ollama(b)) ==> {
            &&& cfg.api_base matches Some(u) ==> b.base_url == u
            &&& cfg.model matches Some(m) ==> b.model == m
        },
        built(cfg, env) matches Ok(BackendView::Claude(b)) ==> {
            &&& cfg.api_base matches Some(u) ==> b.base_url == u
            &&& cfg.model matches Some(m) ==> b.model == m
            &&& b.max_tokens == cfg.max_tokens
            &&& env.api_key == Some(b.api_key)
        },
        built(cfg, env) matches Ok(BackendView::ClaudeCli(b)) ==> {
            &&& b.model == cfg.model
            &&& b.family == env.family
            &&& env.claude_cli matches Some(p) ==> b.binary == p
        },
{
}

/// What stands in for a setting that is left out.
pub proof fn law_settings_that_are_left_out(cfg: ConfigView, env: EnvView)
    ensures
        built(cfg, env) matches Ok(BackendView::Ollama(b)) ==> {
            &&& cfg.api_base is None ==> b.base_url == "http://"@ + cfg.server + ":"@ + text::decimal(
                cfg.port as nat,
            )
            &&& cfg.model is None ==> b.model == "gemma3:27b"@
        },
        built(cfg, env) matches Ok(BackendView::Claude(b)) ==> {
            &&& cfg.api_base is None ==> b.base_url == "https://api.anthropic.com"@
            &&& cfg.model is None ==> b.model == env.family + "-sonnet-4-6"@
        },
        built(cfg, env) matches Ok(BackendView::ClaudeCli(b)) ==> {
            &&& env.claude_cli is None ==> b.binary == env.family
        },
{
}

/// A backend is asked, and lists its models, as the provider that it stands for.
pub proof fn law_any_backend_is_the_one_it_holds(
    b: AnyBackend,
    system: Option<Seq<char>>,
    history: Seq<Entry>,
)
    ensures
        b matches AnyBackend::Mock(x) ==> b.chat_sends(system, history) == x.chat_sends(
            system,
            history,
        ) && b.models_sends() == x.models_sends(),
        b matches AnyBackend::Ollama(x) ==> b.chat_sends(system, history) == x.chat_sends(
            system,
            history,
        ) && b.models_sends() == x.models_sends(),
        b matches AnyBackend::Claude(x) ==> b.chat_sends(system, history) == x.chat_sends(
            system,
            history,
        ) && b.models_sends() == x.models_sends(),
        b matches AnyBackend::ClaudeCli(x) ==> b.chat_sends(system, history) == x.chat_sends(
            system,
            history,
        ) && b.models_sends() == x.models_sends(),
{
}

} // verus!
