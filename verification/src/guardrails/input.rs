use vstd::prelude::*;

use crate::guardrails::context::utf8_len;
use crate::text::{concat, concat3, decimal, decimal_usize};

verus! {

/// The rejection text for a message of `len` bytes over a limit of `max`.
pub open spec fn message_too_long_text(len: nat, max: nat) -> Seq<char> {
    "Message length ("@ + decimal(len) + " chars) exceeds maximum allowed limit of "@ + decimal(max)
        + " chars"@
}

/// The rejection text for an episode that has reached `max` turns.
pub open spec fn too_many_turns_text(max: nat) -> Seq<char> {
    "Episode has reached the maximum allowed limit of "@ + decimal(max) + " turns"@
}

/// Limits on the size of incoming messages and the number of turns per episode.
#[derive(Debug, Clone, Copy)]
pub struct InputGuardrail {
    pub max_message_chars: usize,
    pub max_turns_per_episode: usize,
}

impl InputGuardrail {
    /// A guardrail with the given limits.
    pub fn new(max_message_chars: usize, max_turns_per_episode: usize) -> (g: Self)
        ensures
            g.max_message_chars == max_message_chars,
            g.max_turns_per_episode == max_turns_per_episode,
    {
        InputGuardrail { max_message_chars, max_turns_per_episode }
    }

    /// The default limits: 32,000 bytes per message, 500 turns per episode.
    pub fn default_limits() -> (g: Self)
        ensures
            g.max_message_chars == 32_000,
            g.max_turns_per_episode == 500,
    {
        InputGuardrail { max_message_chars: 32_000, max_turns_per_episode: 500 }
    }

    /// Rejects a message whose UTF-8 length exceeds the limit; an absent message passes.
    pub fn validate_message(&self, message: Option<&str>) -> (r: Result<(), String>)
        ensures
            match message {
                Some(m) => if utf8_len(m@) > self.max_message_chars {
                    r matches Err(e) && e@ == message_too_long_text(
                        utf8_len(m@) as nat,
                        self.max_message_chars as nat,
                    )
                } else {
                    r is Ok
                },
                None => r is Ok,
            },
    {
        if let Some(msg) = message {
            if msg.len() > self.max_message_chars {
                let a = concat3("Message length (", decimal_usize(msg.len()).as_str(), " chars) exceeds maximum allowed limit of ");
                let b = concat(a.as_str(), decimal_usize(self.max_message_chars).as_str());
                return Err(concat(b.as_str(), " chars"));
            }
        }
        Ok(())
    }

    /// Rejects a new turn once the episode holds the maximum number of turns.
    pub fn validate_episode_turn_count(&self, current_turns: usize) -> (r: Result<(), String>)
        ensures
            current_turns >= self.max_turns_per_episode ==> (r matches Err(e) && e@
                == too_many_turns_text(self.max_turns_per_episode as nat)),
            current_turns < self.max_turns_per_episode ==> r is Ok,
    {
        if current_turns >= self.max_turns_per_episode {
            return Err(concat3(
                "Episode has reached the maximum allowed limit of ",
                decimal_usize(self.max_turns_per_episode).as_str(),
                " turns",
            ));
        }
        Ok(())
    }
}

impl Default for InputGuardrail {
    fn default() -> (g: Self)
        ensures
            g.max_message_chars == 32_000,
            g.max_turns_per_episode == 500,
    {
        Self::default_limits()
    }
}

} // verus!
