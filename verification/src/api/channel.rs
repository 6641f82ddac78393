//! The release tracks that the feed reports on.

use crate::text::same_text;
use vstd::prelude::*;

verus! {

/// A release track, from the most settled to the most recent.
#[derive(Debug, Clone, Copy, PartialEq, Eq, Hash, Structural)]
pub enum Channel {
    Stable,
    Beta,
    Dev,
    Canary,
}

impl Channel {
    /// The name under which the feed lists this channel.
    pub open spec fn name(self) -> Seq<char> {
        match self {
            Channel::Stable => "Stable"@,
            Channel::Beta => "Beta"@,
            Channel::Dev => "Dev"@,
            Channel::Canary => "Canary"@,
        }
    }

    /// The channel that a name stands for, if it stands for one. Names are
    /// matched exactly, case included.
    pub open spec fn from_name(name: Seq<char>) -> Option<Channel> {
        if name == "Stable"@ {
            Some(Channel::Stable)
        } else if name == "Beta"@ {
            Some(Channel::Beta)
        } else if name == "Dev"@ {
            Some(Channel::Dev)
        } else if name == "Canary"@ {
            Some(Channel::Canary)
        } else {
            None
        }
    }

    /// Reads a channel from its name.
    pub fn parse(name: &str) -> (channel: Option<Channel>)
        ensures
            channel == Channel::from_name(name@),
    {
        if same_text(name, "Stable") {
            Some(Channel::Stable)
        } else if same_text(name, "Beta") {
            Some(Channel::Beta)
        } else if same_text(name, "Dev") {
            Some(Channel::Dev)
        } else if same_text(name, "Canary") {
            Some(Channel::Canary)
        } else {
            None
        }
    }

    /// Renders the channel as its name.
    pub fn to_string(&self) -> (text: String)
        ensures
            text@ == self.name(),
    {
        String::from_str(
            match self {
                Channel::Stable => "Stable",
                Channel::Beta => "Beta",
                Channel::Dev => "Dev",
                Channel::Canary => "Canary",
            },
        )
    }

    /// Reading back the name of a channel gives that channel: the four names
    /// are pairwise different.
    pub proof fn lemma_name_round_trip(channel: Channel)
        ensures
            Channel::from_name(channel.name()) == Some(channel),
    {
        reveal_strlit("Stable");
        reveal_strlit("Beta");
        reveal_strlit("Dev");
        reveal_strlit("Canary");
        assert("Stable"@.len() == 6 && "Beta"@.len() == 4 && "Dev"@.len() == 3);
        assert("Stable"@[0] != "Canary"@[0]);
    }

    /// A text that reads as a channel is that channel's name.
    pub proof fn lemma_parsed_name_is_canonical(name: Seq<char>)
        ensures
            Channel::from_name(name) matches Some(channel) ==> channel.name() == name,
    {
    }
}

} // verus!
