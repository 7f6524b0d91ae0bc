//! The MCP client pages: connecting to a server, authorizing with it, and keeping its tokens.
use vstd::prelude::*;

use crate::json::Json;

pub mod api;
pub mod callback;
pub mod challenge;
pub mod connect;
pub mod flow;

verus! {

/// What the pages know about the server that they talk to. `C` is the connected client.
#[derive(Debug)]
pub struct McpClientState<C> {
    pub base_url: String,
    pub mcp_url: String,
    pub client: Option<C>,
    pub access_token: Option<String>,
    pub refresh_token: Option<String>,
    pub pkce_verifier: Option<String>,
    pub oauth_state: Option<String>,
    pub scopes: Option<String>,
    pub resource_metadata: Option<Json>,
    pub auth_server_metadata: Option<Json>,
    pub client_id: Option<String>,
    pub client_secret: Option<String>,
}

impl<C> McpClientState<C> {
    /// Nothing is known but where the pages live and which server they talk to.
    pub open spec fn is_blank(self) -> bool {
        &&& self.client is None
        &&& self.access_token is None
        &&& self.refresh_token is None
        &&& self.pkce_verifier is None
        &&& self.oauth_state is None
        &&& self.scopes is None
        &&& self.resource_metadata is None
        &&& self.auth_server_metadata is None
        &&& self.client_id is None
        &&& self.client_secret is None
    }
}

/// A state that knows no server yet.
pub fn new_state<C>(base_url: &str) -> (state: McpClientState<C>)
    ensures
        state.base_url@ == base_url@,
        state.mcp_url@ == Seq::<char>::empty(),
        state.is_blank(),
{
    McpClientState {
        base_url: base_url.to_owned(),
        mcp_url: String::new(),
        client: None,
        access_token: None,
        refresh_token: None,
        pkce_verifier: None,
        oauth_state: None,
        scopes: None,
        resource_metadata: None,
        auth_server_metadata: None,
        client_id: None,
        client_secret: None,
    }
}

} // verus!
