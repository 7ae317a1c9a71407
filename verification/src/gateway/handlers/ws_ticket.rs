//! Tickets for WebSocket upgrades: who gets one, and what it is worth.
use vstd::prelude::*;

use crate::gateway::config::security::SecurityConfig;
use crate::text::texts;

verus! {

/// Who presented a credential, and the scopes that it is worth.
#[derive(Debug)]
pub struct RestAuthContext {
    pub user_id: String,
    pub scopes: Vec<String>,
}

/// Whom a ticket is issued to and what it is worth: the scopes of the credential
/// that it is exchanged for, no more; without a credential those of an anonymous
/// local client.
pub fn ws_ticket_grant(auth: Option<RestAuthContext>, security: &SecurityConfig) -> (r:
    RestAuthContext)
    ensures
        match auth {
            Some(ctx) => r == ctx,
            None => r.user_id@ == "anonymous"@ && texts(r.scopes@) == texts(
                security.local_scopes@,
            ),
        },
{
    match auth {
        Some(ctx) => ctx,
        None => RestAuthContext {
            user_id: "anonymous".to_string(),
            scopes: security.local_scopes.clone(),
        },
    }
}

} // verus!
