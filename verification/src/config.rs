//! Configuration of the bot: where the config file lives, the delivery token
//! and the chats allowed to use the privileged commands.
//!
//! Reading the config file and decoding its YAML happen at the boundary, which
//! hands the plain values in here.

use vstd::prelude::*;

verus! {

/// Command-line arguments: the path of the config file.
#[derive(Debug, Clone)]
pub struct Args {
    pub config: String,
}

impl Args {
    /// Assemble the configuration once the file named by `self.config` has
    /// been read and decoded into its bot section.
    pub fn get_config(self, bot: BotConfig) -> (c: Config)
        ensures
            c.bot == bot,
    {
        Config { bot }
    }
}

/// The whole configuration.
#[derive(Debug, Clone)]
pub struct Config {
    pub bot: BotConfig,
}

/// The bot section: the delivery token and the admin chats.
#[derive(Debug, Clone)]
pub struct BotConfig {
    pub token: String,
    pub admin_chats: Vec<i64>,
}

impl BotConfig {
    /// Whether a chat may use the privileged commands.
    pub fn is_admin(&self, chat_id: i64) -> (r: bool)
        ensures
            r == self.admin_chats@.contains(chat_id),
    {
        let mut i: usize = 0;
        while i < self.admin_chats.len()
            invariant
                0 <= i <= self.admin_chats@.len(),
                forall|j: int| 0 <= j < i ==> self.admin_chats@[j] != chat_id,
            decreases self.admin_chats@.len() - i,
        {
            if self.admin_chats[i] == chat_id {
                return true;
            }
            i = i + 1;
        }
        false
    }
}

} // verus!
