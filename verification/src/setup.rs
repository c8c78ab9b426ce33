//! The setup wizard: what the system reports about its readiness, and how it
//! takes a new API key.

use vstd::prelude::*;

use crate::auth::request_allowed;
use crate::config::{opt_string_view, Config};
use crate::text::chars_of;

verus! {

/// How ready the system is to run agents.
#[derive(Debug, Clone)]
pub struct SetupStatus {
    pub docker_connected: bool,
    pub agent_image_ready: bool,
    pub agent_image_name: String,
    pub api_key_configured: bool,
    pub all_ready: bool,
    pub project_root: String,
}

impl SetupStatus {
    /// The report, given what probing Docker found (`None` where no Docker client
    /// is configured; else whether it answered a ping and whether it holds the agent
    /// image), the configured image and key, and the working directory.
    pub fn from_probe(
        docker_probe: Option<(bool, bool)>,
        agent_image: String,
        api_key: &Option<String>,
        project_root: String,
    ) -> (r: SetupStatus)
        ensures
            r.docker_connected == (docker_probe matches Some((ping, _)) && ping),
            r.agent_image_ready == (docker_probe matches Some((_, found)) && found),
            r.agent_image_name@ == (if docker_probe is Some { agent_image@ } else { Seq::empty() }),
            r.api_key_configured == api_key is Some,
            r.all_ready == (r.docker_connected && r.agent_image_ready && r.api_key_configured),
            r.project_root == project_root,
    {
        let (docker_connected, agent_image_ready, agent_image_name) = match docker_probe {
            Some((ping, found)) => (ping, found, agent_image),
            None => (false, false, String::new()),
        };
        let api_key_configured = api_key.is_some();
        SetupStatus {
            docker_connected,
            agent_image_ready,
            agent_image_name,
            api_key_configured,
            all_ready: docker_connected && agent_image_ready && api_key_configured,
            project_root,
        }
    }
}

/// A request of the setup wizard to change the API key.
#[derive(Debug, Clone)]
pub struct UpdateConfigRequest {
    pub api_key: Option<String>,
}

/// The answer to a key change: whether the key changed, and to what.
#[derive(Debug, Clone)]
pub struct UpdateConfigResponse {
    pub api_key_updated: bool,
    pub new_api_key: Option<String>,
}

/// A request changes the key when it carries a key that is not empty.
pub open spec fn updates_key(req: UpdateConfigRequest) -> bool {
    req.api_key matches Some(k) && k@.len() > 0
}

/// Applies the key change that `req` asks for to `config`; a missing or empty key
/// changes nothing. The answer says what happened.
pub fn apply_config_update(config: &mut Config, req: &UpdateConfigRequest) -> (r: UpdateConfigResponse)
    ensures
        r.api_key_updated == updates_key(*req),
        r.new_api_key == (if updates_key(*req) { req.api_key } else { None }),
        final(config).api_key == (if updates_key(*req) { req.api_key } else { old(config).api_key }),
        final(config).database_url == old(config).database_url,
        final(config).server_addr == old(config).server_addr,
        final(config).agent_image == old(config).agent_image,
        final(config).anthropic_api_key == old(config).anthropic_api_key,
        final(config).allowed_origins == old(config).allowed_origins,
{
    if let Some(key) = &req.api_key {
        if chars_of(key.as_str()).len() > 0 {
            config.api_key = Some(key.clone());
            return UpdateConfigResponse { api_key_updated: true, new_api_key: Some(key.clone()) };
        }
    }
    UpdateConfigResponse { api_key_updated: false, new_api_key: None }
}

/// Once the wizard sets a key, requests to guarded routes pass exactly when they
/// carry that key as their bearer token.
pub proof fn lemma_new_key_guards_routes(
    before: Config,
    after: Config,
    req: UpdateConfigRequest,
    path: Seq<char>,
    authorization: Option<Seq<char>>,
)
    requires
        updates_key(req),
        after.api_key == req.api_key,
        path != "/health"@,
    ensures
        request_allowed(opt_string_view(after.api_key), path, authorization) <==> authorization
            == Some("Bearer "@ + req.api_key->0@),
{
    crate::auth::lemma_key_needs_exact_bearer(req.api_key->0@, path, authorization);
}

} // verus!
