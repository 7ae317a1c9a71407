//! Runtime settings of an agent.
use vstd::prelude::*;

use crate::scalar::Single;

verus! {

/// The settings of an agent that the gateway reads and overrides.
#[derive(Debug)]
pub struct AgentConfig {
    /// The agent's identifier, once it is spawned.
    pub agent_id: Option<String>,
    /// Default temperature for completions.
    pub temperature: Single,
    /// Maximum tokens per completion.
    pub max_tokens: u32,
    /// Hard cap on conversation turns kept in context.
    pub max_turns: Option<usize>,
    /// Maximum number of concurrent tool calls.
    pub max_concurrent_tools: usize,
    /// Restrict file operations to the agent's workspace directory.
    pub workspace_only: bool,
    /// The system prompt.
    pub system_prompt: String,
    /// Maximum context window size (in tokens).
    pub max_context_tokens: usize,
}

impl Clone for AgentConfig {
    fn clone(&self) -> (r: Self)
        ensures
            r == *self,
    {
        AgentConfig {
            agent_id: self.agent_id.clone(),
            temperature: self.temperature,
            max_tokens: self.max_tokens,
            max_turns: self.max_turns,
            max_concurrent_tools: self.max_concurrent_tools,
            workspace_only: self.workspace_only,
            system_prompt: self.system_prompt.clone(),
            max_context_tokens: self.max_context_tokens,
        }
    }
}

} // verus!
