//! Client configuration: named server contexts and inspector defaults.
use vstd::prelude::*;
use crate::strmap::StrMap;
use crate::text::{string_of, push_str};

verus! {

/// One named server context.
#[derive(Debug)]
pub struct Context {
    /// Base URL of the funnel server.
    pub server: String,
    /// Authentication token for the server.
    pub token: Option<String>,
}

impl Clone for Context {
    fn clone(&self) -> (r: Self)
        ensures
            r == *self,
    {
        let token = match &self.token {
            Some(t) => Some(t.clone()),
            None => None,
        };
        Context { server: self.server.clone(), token }
    }
}

impl Default for Context {
    fn default() -> (r: Self)
        ensures
            r.server@ == Seq::<char>::empty(),
            r.token is None,
    {
        Context { server: String::new(), token: None }
    }
}

/// Defaults for the local HTTP inspector.
#[derive(Debug)]
pub struct InspectorConfig {
    /// Start the inspector automatically for HTTP tunnels.
    pub enabled: bool,
    /// Address the inspector binds to.
    pub addr: String,
}

/// The effective client configuration.
#[derive(Debug)]
pub struct FunnelConfig {
    /// Context used when none is named on the command line.
    pub current_context: String,
    /// Named server contexts.
    pub contexts: StrMap<Context>,
    /// Inspector defaults.
    pub inspector: InspectorConfig,
}

/// The context resolved for a command, after environment overrides.
#[derive(Debug)]
pub struct ResolvedContext {
    pub name: String,
    pub server: String,
    pub token: Option<String>,
}

/// What went wrong in a configuration operation.
#[derive(Debug, Clone, Copy, PartialEq, Eq, Structural)]
pub enum ConfigErrorKind {
    /// No context of that name, when resolving one for a command.
    ContextNotFound,
    /// The context has no server URL.
    ServerNotConfigured,
    /// The context has no token.
    NotLoggedIn,
    /// No context of that name, when clearing its token.
    UnknownContext,
    /// No context of that name, when selecting or deleting it.
    ContextDoesNotExist,
    /// A context of that name exists already.
    ContextExists,
}

/// A failed configuration operation and the context it concerned.
#[derive(Debug)]
pub struct ConfigError {
    pub kind: ConfigErrorKind,
    pub context: String,
}

impl ConfigError {
    /// The error as plain values: its kind and the context's name.
    pub open spec fn view(self) -> (ConfigErrorKind, Seq<char>) {
        (self.kind, self.context@)
    }
}

/// The name of the context used when none is configured.
pub open spec fn default_context_name_spec() -> Seq<char> {
    "default"@
}

/// The inspector's default address.
pub open spec fn default_inspector_addr_spec() -> Seq<char> {
    "127.0.0.1:4040"@
}

pub fn default_context_name() -> (r: String)
    ensures
        r@ == default_context_name_spec(),
{
    string_of("default")
}

pub fn default_inspector_addr() -> (r: String)
    ensures
        r@ == default_inspector_addr_spec(),
{
    string_of("127.0.0.1:4040")
}

impl Default for InspectorConfig {
    fn default() -> (r: Self)
        ensures
            !r.enabled,
            r.addr@ == default_inspector_addr_spec(),
    {
        InspectorConfig { enabled: false, addr: default_inspector_addr() }
    }
}

impl Default for FunnelConfig {
    fn default() -> (r: Self)
        ensures
            r.current_context@ == default_context_name_spec(),
            r.contexts@ == Map::<Seq<char>, Context>::empty(),
            !r.inspector.enabled,
            r.inspector.addr@ == default_inspector_addr_spec(),
    {
        FunnelConfig {
            current_context: default_context_name(),
            contexts: StrMap::new(),
            inspector: InspectorConfig::default(),
        }
    }
}

/// The message shown for a configuration error about context `n`.
pub open spec fn config_error_message(kind: ConfigErrorKind, n: Seq<char>) -> Seq<char> {
    match kind {
        ConfigErrorKind::ContextNotFound => "context '"@ + n + "' not found, run: funnel context create "@
            + n + " --server <url>"@,
        ConfigErrorKind::ServerNotConfigured => "server not configured for context '"@ + n + "'"@,
        ConfigErrorKind::NotLoggedIn => "not logged in for context '"@ + n + "', run: funnel login"@,
        ConfigErrorKind::UnknownContext => "context '"@ + n + "' not found"@,
        ConfigErrorKind::ContextDoesNotExist => "context '"@ + n + "' does not exist"@,
        ConfigErrorKind::ContextExists => "context '"@ + n + "' already exists"@,
    }
}

impl ConfigError {
    /// The error's message.
    pub fn to_string(&self) -> (r: String)
        ensures
            r@ == config_error_message(self.kind, self.context@),
    {
        let mut s = String::new();
        let n = self.context.as_str();
        match self.kind {
            ConfigErrorKind::ContextNotFound => {
                push_str(&mut s, "context '");
                push_str(&mut s, n);
                push_str(&mut s, "' not found, run: funnel context create ");
                push_str(&mut s, n);
                push_str(&mut s, " --server <url>");
            },
            ConfigErrorKind::ServerNotConfigured => {
                push_str(&mut s, "server not configured for context '");
                push_str(&mut s, n);
                push_str(&mut s, "'");
            },
            ConfigErrorKind::NotLoggedIn => {
                push_str(&mut s, "not logged in for context '");
                push_str(&mut s, n);
                push_str(&mut s, "', run: funnel login");
            },
            ConfigErrorKind::UnknownContext => {
                push_str(&mut s, "context '");
                push_str(&mut s, n);
                push_str(&mut s, "' not found");
            },
            ConfigErrorKind::ContextDoesNotExist => {
                push_str(&mut s, "context '");
                push_str(&mut s, n);
                push_str(&mut s, "' does not exist");
            },
            ConfigErrorKind::ContextExists => {
                push_str(&mut s, "context '");
                push_str(&mut s, n);
                push_str(&mut s, "' already exists");
            },
        }
        proof {
            assert(s@ =~= config_error_message(self.kind, self.context@));
        }
        s
    }
}

/// The name of the context a command uses: the override if given, else the current one.
pub open spec fn selected_context(config: FunnelConfig, context_override: Option<Seq<char>>) -> Seq<
    char,
> {
    match context_override {
        Some(n) => n,
        None => config.current_context@,
    }
}

/// The outcome of resolving a context, with the `FUNNEL_SERVER` and
/// `FUNNEL_TOKEN` environment values (when set) overriding the stored ones.
pub open spec fn resolve_spec(
    config: FunnelConfig,
    context_override: Option<Seq<char>>,
    env_server: Option<Seq<char>>,
    env_token: Option<Seq<char>>,
) -> Result<(Seq<char>, Seq<char>, Option<Seq<char>>), (ConfigErrorKind, Seq<char>)> {
    let name = selected_context(config, context_override);
    if !config.contexts@.contains_key(name) {
        Err((ConfigErrorKind::ContextNotFound, name))
    } else {
        let ctx = config.contexts@[name];
        let server = match env_server {
            Some(s) => s,
            None => ctx.server@,
        };
        let token = match env_token {
            Some(t) => Some(t),
            None => match ctx.token {
                Some(t) => Some(t@),
                None => None,
            },
        };
        if server.len() == 0 {
            Err((ConfigErrorKind::ServerNotConfigured, name))
        } else {
            Ok((name, server, token))
        }
    }
}

/// The view of a string option.
pub open spec fn opt_view(o: Option<String>) -> Option<Seq<char>> {
    match o {
        Some(s) => Some(s@),
        None => None,
    }
}

/// The view of a string slice option.
pub open spec fn opt_str_view(o: Option<&str>) -> Option<Seq<char>> {
    match o {
        Some(s) => Some(s@),
        None => None,
    }
}

/// Whether a resolved context matches the expected name, server and token.
pub open spec fn resolved_matches(
    r: ResolvedContext,
    v: (Seq<char>, Seq<char>, Option<Seq<char>>),
) -> bool {
    r.name@ == v.0 && r.server@ == v.1 && opt_view(r.token) == v.2
}

fn clone_opt(o: &Option<String>) -> (r: Option<String>)
    ensures
        opt_view(r) == opt_view(*o),
{
    match o {
        Some(s) => Some(s.clone()),
        None => None,
    }
}

/// Resolves the context a command should use. `context_override` is the
/// `--context` argument; `env_server` and `env_token` are the values of
/// `FUNNEL_SERVER` and `FUNNEL_TOKEN` when set.
pub fn resolve(
    config: &FunnelConfig,
    context_override: Option<&str>,
    env_server: Option<String>,
    env_token: Option<String>,
) -> (r: Result<ResolvedContext, ConfigError>)
    ensures
        match (r, resolve_spec(*config, opt_str_view(context_override), opt_view(env_server), opt_view(env_token))) {
            (Ok(rc), Ok(v)) => resolved_matches(rc, v),
            (Err(e), Err(se)) => e.view() == se,
            _ => false,
        },
{
    let name: String = match context_override {
        Some(n) => string_of(n),
        None => config.current_context.clone(),
    };
    let ctx = match config.contexts.get(name.as_str()) {
        Some(c) => c,
        None => return Err(ConfigError { kind: ConfigErrorKind::ContextNotFound, context: name }),
    };
    let server = match env_server {
        Some(s) => s,
        None => ctx.server.clone(),
    };
    let token = match env_token {
        Some(t) => Some(t),
        None => clone_opt(&ctx.token),
    };
    if server.as_str().is_empty() {
        return Err(ConfigError { kind: ConfigErrorKind::ServerNotConfigured, context: name });
    }
    Ok(ResolvedContext { name, server, token })
}

/// Resolves the context and requires a token, returning it beside the context.
pub fn resolve_authenticated(
    config: &FunnelConfig,
    context_override: Option<&str>,
    env_server: Option<String>,
    env_token: Option<String>,
) -> (r: Result<(ResolvedContext, String), ConfigError>)
    ensures
        match (r, resolve_spec(*config, opt_str_view(context_override), opt_view(env_server), opt_view(env_token))) {
            (Ok((rc, tok)), Ok(v)) => resolved_matches(rc, v) && v.2 == Some(tok@),
            (Err(e), Ok(v)) => v.2 is None && e.view() == (ConfigErrorKind::NotLoggedIn, v.0),
            (Err(e), Err(se)) => e.view() == se,
            _ => false,
        },
{
    let resolved = match resolve(config, context_override, env_server, env_token) {
        Ok(rc) => rc,
        Err(e) => return Err(e),
    };
    match clone_opt(&resolved.token) {
        Some(t) => Ok((resolved, t)),
        None => Err(ConfigError { kind: ConfigErrorKind::NotLoggedIn, context: resolved.name }),
    }
}

/// What storing `token` in context `name` does: the context exists
/// afterwards, keeps its server (an empty one when it is new) and holds the
/// token; nothing else in the configuration changes.
pub open spec fn token_stored(before: FunnelConfig, after: FunnelConfig, name: Seq<char>, token: Seq<char>) -> bool {
    &&& after.contexts@.contains_key(name)
    &&& after.contexts@[name].server@ == (if before.contexts@.contains_key(name) {
        before.contexts@[name].server@
    } else {
        Seq::<char>::empty()
    })
    &&& opt_view(after.contexts@[name].token) == Some(token)
    &&& after.contexts@.remove(name) == before.contexts@.remove(name)
    &&& after.current_context == before.current_context
    &&& after.inspector == before.inspector
}

/// Stores `token` in context `name`, creating the context (with no
/// server) when it does not exist.
pub fn set_token(config: &mut FunnelConfig, context_name: &str, token: &str)
    ensures
        token_stored(*old(config), *final(config), context_name@, token@),
{
    let mut ctx = match config.contexts.get(context_name) {
        Some(c) => c.clone(),
        None => Context::default(),
    };
    ctx.token = Some(string_of(token));
    let _ = config.contexts.insert(string_of(context_name), ctx);
    proof {
        assert(config.contexts@.remove(context_name@) =~= old(config).contexts@.remove(context_name@));
    }
}

/// What removing the token of an existing context `name` does: the context
/// keeps its server and holds no token; nothing else changes.
pub open spec fn token_cleared(before: FunnelConfig, after: FunnelConfig, name: Seq<char>) -> bool {
    &&& after.contexts@.contains_key(name)
    &&& after.contexts@[name].server@ == before.contexts@[name].server@
    &&& after.contexts@[name].token is None
    &&& after.contexts@.remove(name) == before.contexts@.remove(name)
    &&& after.current_context == before.current_context
    &&& after.inspector == before.inspector
}

/// Removes the token of context `name`.
pub fn clear_token(config: &mut FunnelConfig, context_name: &str) -> (r: Result<(), ConfigError>)
    ensures
        !old(config).contexts@.contains_key(context_name@) ==> r is Err && r->Err_0.view() == (
        ConfigErrorKind::UnknownContext, context_name@) && *final(config) == *old(config),
        old(config).contexts@.contains_key(context_name@) ==> r is Ok && token_cleared(
            *old(config),
            *final(config),
            context_name@,
        ),
{
    let mut ctx = match config.contexts.get(context_name) {
        Some(c) => c.clone(),
        None => {
            return Err(
                ConfigError { kind: ConfigErrorKind::UnknownContext, context: string_of(context_name) },
            );
        },
    };
    ctx.token = None;
    let _ = config.contexts.insert(string_of(context_name), ctx);
    proof {
        assert(config.contexts@.remove(context_name@) =~= old(config).contexts@.remove(context_name@));
    }
    Ok(())
}

/// Makes `name` the current context.
pub fn set_current_context(config: &mut FunnelConfig, name: &str) -> (r: Result<(), ConfigError>)
    ensures
        !old(config).contexts@.contains_key(name@) ==> r is Err && r->Err_0.view() == (
        ConfigErrorKind::ContextDoesNotExist, name@) && *final(config) == *old(config),
        old(config).contexts@.contains_key(name@) ==> r is Ok && final(config).current_context@
            == name@ && final(config).contexts == old(config).contexts && final(config).inspector
            == old(config).inspector,
{
    if !config.contexts.contains_key(name) {
        return Err(ConfigError { kind: ConfigErrorKind::ContextDoesNotExist, context: string_of(name) });
    }
    config.current_context = string_of(name);
    Ok(())
}

/// Adds context `name` for `server`, with no token. The first context
/// created becomes the current one.
pub fn create_context(config: &mut FunnelConfig, name: &str, server: &str) -> (r: Result<
    (),
    ConfigError,
>)
    ensures
        old(config).contexts@.contains_key(name@) ==> r is Err && r->Err_0.view() == (
        ConfigErrorKind::ContextExists, name@) && *final(config) == *old(config),
        !old(config).contexts@.contains_key(name@) ==> {
            &&& r is Ok
            &&& final(config).contexts@.contains_key(name@)
            &&& final(config).contexts@[name@].server@ == server@
            &&& final(config).contexts@[name@].token is None
            &&& final(config).contexts@.remove(name@) == old(config).contexts@
            &&& final(config).current_context@ == (if old(config).contexts@ == Map::<
                Seq<char>,
                Context,
            >::empty() {
                name@
            } else {
                old(config).current_context@
            })
            &&& final(config).inspector == old(config).inspector
        },
{
    if config.contexts.contains_key(name) {
        return Err(ConfigError { kind: ConfigErrorKind::ContextExists, context: string_of(name) });
    }
    let was_empty = config.contexts.is_empty();
    let _ = config.contexts.insert(string_of(name), Context { server: string_of(server), token: None });
    proof {
        assert(config.contexts@.remove(name@) =~= old(config).contexts@);
    }
    if was_empty {
        config.current_context = string_of(name);
    }
    Ok(())
}

/// Removes context `name`. When it was the current context, another
/// remaining context becomes current, or the default name when none is left.
pub fn delete_context(config: &mut FunnelConfig, name: &str) -> (r: Result<(), ConfigError>)
    ensures
        !old(config).contexts@.contains_key(name@) ==> r is Err && r->Err_0.view() == (
        ConfigErrorKind::ContextDoesNotExist, name@) && *final(config) == *old(config),
        old(config).contexts@.contains_key(name@) ==> {
            &&& r is Ok
            &&& final(config).contexts@ == old(config).contexts@.remove(name@)
            &&& old(config).current_context@ != name@ ==> final(config).current_context
                == old(config).current_context
            &&& old(config).current_context@ == name@ ==> if final(config).contexts@ == Map::<
                Seq<char>,
                Context,
            >::empty() {
                final(config).current_context@ == default_context_name_spec()
            } else {
                final(config).contexts@.contains_key(final(config).current_context@)
            }
            &&& final(config).inspector == old(config).inspector
        },
{
    match config.contexts.remove(name) {
        None => {
            return Err(ConfigError { kind: ConfigErrorKind::ContextDoesNotExist, context: string_of(name) });
        },
        Some(_) => {},
    }
    if crate::text::str_eq(config.current_context.as_str(), name) {
        config.current_context = match config.contexts.first_key() {
            Some(k) => k,
            None => default_context_name(),
        };
    }
    Ok(())
}

/// After a token is stored in a context that has a server, resolving that
/// context without environment overrides gives its server and that token.
pub proof fn lemma_set_token_then_resolve(
    before: FunnelConfig,
    after: FunnelConfig,
    name: Seq<char>,
    token: Seq<char>,
)
    requires
        before.contexts@.contains_key(name),
        before.contexts@[name].server@.len() > 0,
        token_stored(before, after, name, token),
    ensures
        resolve_spec(after, Some(name), None, None) == Ok::<
            (Seq<char>, Seq<char>, Option<Seq<char>>),
            (ConfigErrorKind, Seq<char>),
        >((name, before.contexts@[name].server@, Some(token))),
{
}

/// After logging out of a context that has a server, resolving it without
/// environment overrides gives its server and no token.
pub proof fn lemma_clear_token_then_resolve(before: FunnelConfig, after: FunnelConfig, name: Seq<char>)
    requires
        before.contexts@.contains_key(name),
        before.contexts@[name].server@.len() > 0,
        token_cleared(before, after, name),
    ensures
        resolve_spec(after, Some(name), None, None) == Ok::<
            (Seq<char>, Seq<char>, Option<Seq<char>>),
            (ConfigErrorKind, Seq<char>),
        >((name, before.contexts@[name].server@, None)),
{
}

/// Storing a token in one context changes nothing of how any other context
/// resolves, whatever the environment says.
pub proof fn lemma_set_token_keeps_other_contexts(
    before: FunnelConfig,
    after: FunnelConfig,
    name: Seq<char>,
    token: Seq<char>,
    other: Seq<char>,
    env_server: Option<Seq<char>>,
    env_token: Option<Seq<char>>,
)
    requires
        token_stored(before, after, name, token),
        other != name,
    ensures
        resolve_spec(after, Some(other), env_server, env_token) == resolve_spec(
            before,
            Some(other),
            env_server,
            env_token,
        ),
{
    assert(after.contexts@.remove(name).contains_key(other) == after.contexts@.contains_key(other));
    assert(before.contexts@.remove(name).contains_key(other) == before.contexts@.contains_key(other));
    if after.contexts@.contains_key(other) {
        assert(after.contexts@.remove(name)[other] == after.contexts@[other]);
        assert(before.contexts@.remove(name)[other] == before.contexts@[other]);
    }
}

/// `FUNNEL_SERVER` and `FUNNEL_TOKEN` override the selected context: when
/// that context exists and the server given is not empty, resolving gives
/// the context's name with the server and token from the environment.
pub proof fn lemma_environment_overrides_context(
    config: FunnelConfig,
    context_override: Option<Seq<char>>,
    env_server: Seq<char>,
    env_token: Seq<char>,
)
    requires
        config.contexts@.contains_key(selected_context(config, context_override)),
        env_server.len() > 0,
    ensures
        resolve_spec(config, context_override, Some(env_server), Some(env_token)) == Ok::<
            (Seq<char>, Seq<char>, Option<Seq<char>>),
            (ConfigErrorKind, Seq<char>),
        >((selected_context(config, context_override), env_server, Some(env_token))),
{
}

/// `FUNNEL_TOKEN` decides the token whenever it is set, whatever
/// `FUNNEL_SERVER` says, and `FUNNEL_SERVER` decides the server whenever it
/// is set; without them the selected context's server and stored token are
/// used. (Whenever the selected context exists and the server that results is
/// not empty.)
pub proof fn lemma_environment_sources(
    config: FunnelConfig,
    context_override: Option<Seq<char>>,
    env_server: Option<Seq<char>>,
    env_token: Option<Seq<char>>,
)
    requires
        config.contexts@.contains_key(selected_context(config, context_override)),
        match env_server {
            Some(s) => s.len() > 0,
            None => config.contexts@[selected_context(config, context_override)].server@.len() > 0,
        },
    ensures
        ({
            let name = selected_context(config, context_override);
            let ctx = config.contexts@[name];
            match resolve_spec(config, context_override, env_server, env_token) {
                Ok((n, server, token)) => {
                    &&& n == name
                    &&& server == (match env_server {
                        Some(s) => s,
                        None => ctx.server@,
                    })
                    &&& token == (match env_token {
                        Some(t) => Some(t),
                        None => opt_view(ctx.token),
                    })
                },
                Err(_) => false,
            }
        }),
{
}

/// Setting `FUNNEL_TOKEN` changes only the token: the context and server
/// resolved are those resolved without it, and the token is the one set.
pub proof fn lemma_environment_token_changes_only_token(
    config: FunnelConfig,
    context_override: Option<Seq<char>>,
    env_server: Option<Seq<char>>,
    token: Seq<char>,
)
    ensures
        match (
            resolve_spec(config, context_override, env_server, Some(token)),
            resolve_spec(config, context_override, env_server, None),
        ) {
            (Ok((n1, s1, t1)), Ok((n2, s2, _))) => n1 == n2 && s1 == s2 && t1 == Some(token),
            (Err(e1), Err(e2)) => e1 == e2,
            _ => false,
        },
{
}

} // verus!
