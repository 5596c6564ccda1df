//! The settings of the chat bot, and the check that none that is needed is
//! missing.

use vstd::prelude::*;

verus! {

/// The tokens that the bot logs in with.
#[derive(Clone, Debug, PartialEq, Eq)]
pub struct AuthTokens {
    pub spotify: Option<String>,
    pub twitch: Option<String>,
}

/// A fixed reply to a command by name.
#[derive(Clone, Debug, PartialEq, Eq)]
pub struct Reply {
    pub name: Option<String>,
    pub reply: Option<String>,
}

/// A reply to messages that match a pattern, given with some chance.
#[derive(Clone, Debug, PartialEq, Eq)]
pub struct Pattern {
    pub regex: Option<String>,
    pub reply: Option<String>,
    pub chance: Option<u32>,
}

/// A program to run on messages that match a pattern.
#[derive(Clone, Debug, PartialEq, Eq)]
pub struct Runner {
    pub regex: Option<String>,
    pub run: Option<String>,
}

/// How the bot answers the chat.
#[derive(Clone, Debug, PartialEq, Eq)]
pub struct Interactions {
    pub replies: Option<Vec<Reply>>,
    pub patterns: Option<Vec<Pattern>>,
    pub runners: Option<Vec<Runner>>,
}

/// The settings of the bot.
#[derive(Clone, Debug, PartialEq, Eq)]
pub struct ConfigMe {
    pub channel: Option<String>,
    pub name: Option<String>,
    pub auth: AuthTokens,
    pub interact: Interactions,
}

impl ConfigMe {
    /// The channel, the name and both tokens are given.
    pub open spec fn complete(self) -> bool {
        &&& self.channel is Some
        &&& self.name is Some
        &&& self.auth.spotify is Some
        &&& self.auth.twitch is Some
    }

    /// The settings as they are, where they are complete.
    pub fn checked(self) -> (cfg: Option<ConfigMe>)
        ensures
            self.complete() ==> cfg == Some(self),
            !self.complete() ==> cfg is None,
    {
        if self.channel.is_some() && self.name.is_some() && self.auth.spotify.is_some()
            && self.auth.twitch.is_some() {
            Some(self)
        } else {
            None
        }
    }
}

} // verus!
