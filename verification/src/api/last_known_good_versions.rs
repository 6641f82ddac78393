//! The feed of last known good versions: the latest working release of each
//! channel.

use crate::api::channel::Channel;
use crate::api::exchange::{endpoint, is_success, resolved_url, successful_body, Exchange};
use crate::api::json::{json_document, members_view, Json, JsonValue};
use crate::api::timestamp::Timestamp;
use crate::api::version::Version;
use crate::api::{downloads_view, Download, DownloadView, HasVersion};
use crate::error::{Error, Failure, SchemaError, SerializationError};
use vstd::prelude::*;

verus! {

/// The path of the feed under the origin that publishes it.
pub const LAST_KNOWN_GOOD_VERSIONS_WITH_DOWNLOADS_JSON_PATH: &'static str =
    "/chrome-for-testing/last-known-good-versions-with-downloads.json";

/// The archives of one version: the browser, the driver, and the headless
/// shell.
#[derive(Debug, Clone, PartialEq, Eq)]
pub struct Downloads {
    pub chrome: Vec<Download>,
    pub chromedriver: Vec<Download>,
    /// The `chrome-headless-shell` binary gives the old headless mode of
    /// Chrome. For ordinary automated testing of a web interface, use the
    /// regular `chrome` binary.
    pub chrome_headless_shell: Vec<Download>,
}

/// The latest version of a channel.
#[derive(Debug, Clone, PartialEq, Eq)]
pub struct VersionInChannel {
    pub channel: Channel,
    pub version: Version,
    pub revision: String,
    pub downloads: Downloads,
}

/// At most one version for each channel. A channel without a version is one
/// that the feed does not report on.
#[derive(Debug, Clone, PartialEq, Eq)]
pub struct Channels {
    pub stable: Option<VersionInChannel>,
    pub beta: Option<VersionInChannel>,
    pub dev: Option<VersionInChannel>,
    pub canary: Option<VersionInChannel>,
}

/// The feed of last known good versions, as published at some moment.
#[derive(Debug, Clone, PartialEq, Eq)]
pub struct LastKnownGoodVersions {
    pub timestamp: Timestamp,
    pub channels: Channels,
}

/// The archives of one version, as a mathematical value.
pub struct DownloadsView {
    pub chrome: Seq<DownloadView>,
    pub chromedriver: Seq<DownloadView>,
    pub chrome_headless_shell: Seq<DownloadView>,
}

/// The latest version of a channel, as a mathematical value.
pub struct VersionInChannelView {
    pub channel: Channel,
    pub version: Version,
    pub revision: Seq<char>,
    pub downloads: DownloadsView,
}

/// The feed of last known good versions, as a mathematical value.
pub struct LastKnownGoodVersionsView {
    pub timestamp: Timestamp,
    pub channels: Map<Channel, VersionInChannelView>,
}

impl View for Downloads {
    type V = DownloadsView;

    open spec fn view(&self) -> DownloadsView {
        DownloadsView {
            chrome: downloads_view(self.chrome@),
            chromedriver: downloads_view(self.chromedriver@),
            chrome_headless_shell: downloads_view(self.chrome_headless_shell@),
        }
    }
}

impl View for VersionInChannel {
    type V = VersionInChannelView;

    open spec fn view(&self) -> VersionInChannelView {
        VersionInChannelView {
            channel: self.channel,
            version: self.version,
            revision: self.revision@,
            downloads: self.downloads@,
        }
    }
}

impl View for Channels {
    type V = Map<Channel, VersionInChannelView>;

    open spec fn view(&self) -> Map<Channel, VersionInChannelView> {
        Map::new(
            |channel: Channel| self.slot(channel) is Some,
            |channel: Channel| self.slot(channel).unwrap()@,
        )
    }
}

impl View for LastKnownGoodVersions {
    type V = LastKnownGoodVersionsView;

    open spec fn view(&self) -> LastKnownGoodVersionsView {
        LastKnownGoodVersionsView { timestamp: self.timestamp, channels: self.channels@ }
    }
}

impl HasVersion for VersionInChannel {
    open spec fn version_of(&self) -> Version {
        self.version
    }

    fn version(&self) -> (version: Version) {
        self.version
    }
}

impl Downloads {
    /// The archives that a document describes: an object with a list of
    /// downloads under each of `chrome`, `chromedriver` and
    /// `chrome-headless-shell`.
    pub open spec fn read(json: JsonValue) -> Result<DownloadsView, SchemaError> {
        match json.members() {
            Err(error) => Err(error),
            Ok(members) => match JsonValue::required(members, "chrome"@) {
                Err(error) => Err(error),
                Ok(chrome) => match Download::read_list(chrome) {
                    Err(error) => Err(error),
                    Ok(chrome) => match JsonValue::required(members, "chromedriver"@) {
                        Err(error) => Err(error),
                        Ok(chromedriver) => match Download::read_list(chromedriver) {
                            Err(error) => Err(error),
                            Ok(chromedriver) => match JsonValue::required(
                                members,
                                "chrome-headless-shell"@,
                            ) {
                                Err(error) => Err(error),
                                Ok(shell) => match Download::read_list(shell) {
                                    Err(error) => Err(error),
                                    Ok(chrome_headless_shell) => Ok(
                                        DownloadsView {
                                            chrome,
                                            chromedriver,
                                            chrome_headless_shell,
                                        },
                                    ),
                                },
                            },
                        },
                    },
                },
            },
        }
    }

    /// Reads the archives of a version from the document that describes them.
    pub fn from_json(json: &Json) -> (downloads: Result<Downloads, SchemaError>)
        ensures
            match downloads {
                Ok(downloads) => Downloads::read(json@) == Ok::<DownloadsView, SchemaError>(
                    downloads@,
                ),
                Err(error) => Downloads::read(json@) == Err::<DownloadsView, SchemaError>(error),
            },
    {
        let members = json.as_members()?;
        let chrome = Download::list_from_json(Json::required(members, "chrome")?)?;
        let chromedriver = Download::list_from_json(Json::required(members, "chromedriver")?)?;
        let chrome_headless_shell = Download::list_from_json(
            Json::required(members, "chrome-headless-shell")?,
        )?;
        Ok(Downloads { chrome, chromedriver, chrome_headless_shell })
    }
}

impl VersionInChannel {
    /// The version that a document describes: an object with the name of a
    /// channel under `channel`, the text of a version under `version`, a
    /// text under `revision` and the archives under `downloads`.
    pub open spec fn read(json: JsonValue) -> Result<VersionInChannelView, SchemaError> {
        match json.members() {
            Err(error) => Err(error),
            Ok(members) => match JsonValue::required_text(members, "channel"@) {
                Err(error) => Err(error),
                Ok(name) => match Channel::from_name(name) {
                    None => Err(SchemaError::UnknownChannel),
                    Some(channel) => match JsonValue::required_text(members, "version"@) {
                        Err(error) => Err(error),
                        Ok(text) => match Version::from_text(text) {
                            None => Err(SchemaError::MalformedVersion),
                            Some(version) => match JsonValue::required_text(members, "revision"@) {
                                Err(error) => Err(error),
                                Ok(revision) => match JsonValue::required(members, "downloads"@) {
                                    Err(error) => Err(error),
                                    Ok(downloads) => match Downloads::read(downloads) {
                                        Err(error) => Err(error),
                                        Ok(downloads) => Ok(
                                            VersionInChannelView {
                                                channel,
                                                version,
                                                revision,
                                                downloads,
                                            },
                                        ),
                                    },
                                },
                            },
                        },
                    },
                },
            },
        }
    }

    /// Reads the latest version of a channel from the document that
    /// describes it.
    pub fn from_json(json: &Json) -> (entry: Result<VersionInChannel, SchemaError>)
        ensures
            match entry {
                Ok(entry) => VersionInChannel::read(json@) == Ok::<
                    VersionInChannelView,
                    SchemaError,
                >(entry@),
                Err(error) => VersionInChannel::read(json@) == Err::<
                    VersionInChannelView,
                    SchemaError,
                >(error),
            },
    {
        let members = json.as_members()?;
        let channel = match Channel::parse(Json::required_text(members, "channel")?) {
            Some(channel) => channel,
            None => { return Err(SchemaError::UnknownChannel); },
        };
        let version = match Version::parse(Json::required_text(members, "version")?) {
            Ok(version) => version,
            Err(_) => { return Err(SchemaError::MalformedVersion); },
        };
        let revision = String::from_str(Json::required_text(members, "revision")?);
        let downloads = Downloads::from_json(Json::required(members, "downloads")?)?;
        Ok(VersionInChannel { channel, version, revision, downloads })
    }
}

impl Channels {
    /// The version held for a channel, if one is held.
    pub open spec fn slot(self, channel: Channel) -> Option<VersionInChannel> {
        match channel {
            Channel::Stable => self.stable,
            Channel::Beta => self.beta,
            Channel::Dev => self.dev,
            Channel::Canary => self.canary,
        }
    }

    /// The versions that the members of an object assign to channels: each
    /// member's name is the name of a channel, and the document under it
    /// describes the version of that channel. Where a channel is named
    /// twice, the later member counts. The first member that cannot be read
    /// decides the error.
    pub open spec fn read(members: Seq<(Seq<char>, JsonValue)>) -> Result<
        Map<Channel, VersionInChannelView>,
        SchemaError,
    >
        decreases members.len(),
    {
        if members.len() == 0 {
            Ok(Map::empty())
        } else {
            match Channels::read(members.drop_last()) {
                Err(error) => Err(error),
                Ok(channels) => match Channel::from_name(members.last().0) {
                    None => Err(SchemaError::UnknownChannel),
                    Some(channel) => match VersionInChannel::read(members.last().1) {
                        Err(error) => Err(error),
                        Ok(entry) => Ok(channels.insert(channel, entry)),
                    },
                },
            }
        }
    }

    /// Once the members up to some point cannot all be read, neither can the
    /// whole object, and the error is the same.
    pub proof fn lemma_read_fails_early(members: Seq<(Seq<char>, JsonValue)>, n: int)
        requires
            0 <= n <= members.len(),
            Channels::read(members.take(n)) is Err,
        ensures
            Channels::read(members) == Channels::read(members.take(n)),
        decreases members.len() - n,
    {
        if n == members.len() {
            assert(members.take(n) =~= members);
        } else {
            assert(members.take(n + 1).drop_last() =~= members.take(n));
            Channels::lemma_read_fails_early(members, n + 1);
        }
    }

    /// What `read` gives where every member can be read: a channel is held
    /// exactly when a member names it, and what is held for it is what the
    /// last member that names it reads as.
    pub proof fn lemma_read_holds_last_of_name(members: Seq<(Seq<char>, JsonValue)>)
        requires
            Channels::read(members) is Ok,
        ensures
            forall|i: int|
                0 <= i < members.len() ==> {
                    &&& Channel::from_name((#[trigger] members[i]).0) is Some
                    &&& VersionInChannel::read(members[i].1) is Ok
                },
            forall|channel: Channel|
                #[trigger] Channels::read(members).unwrap().contains_key(channel) <==> exists|i: int|
                    {
                        &&& 0 <= i < members.len()
                        &&& Channel::from_name((#[trigger] members[i]).0) == Some(channel)
                    },
            forall|i: int|
                {
                    &&& 0 <= i < members.len()
                    &&& forall|k: int|
                        i < k < members.len() ==> Channel::from_name((#[trigger] members[k]).0)
                            != Channel::from_name(members[i].0)
                } ==> Channels::read(members).unwrap()[Channel::from_name(
                    (#[trigger] members[i]).0,
                ).unwrap()] == VersionInChannel::read(members[i].1).unwrap(),
        decreases members.len(),
    {
        if members.len() > 0 {
            let front = members.drop_last();
            let last = members.len() - 1;
            Channels::lemma_read_holds_last_of_name(front);
            let before = Channels::read(front).unwrap();
            let named = Channel::from_name(members[last].0).unwrap();
            let now = Channels::read(members).unwrap();
            assert forall|i: int| 0 <= i < front.len() implies front[i] == members[i] by {}
            assert forall|channel: Channel| #[trigger]
                now.contains_key(channel) <==> exists|i: int|
                    {
                        &&& 0 <= i < members.len()
                        &&& Channel::from_name((#[trigger] members[i]).0) == Some(channel)
                    } by {
                if channel == named {
                    assert(Channel::from_name(members[last].0) == Some(channel));
                } else if before.contains_key(channel) {
                    let i = choose|i: int|
                        {
                            &&& 0 <= i < front.len()
                            &&& Channel::from_name((#[trigger] front[i]).0) == Some(channel)
                        };
                    assert(Channel::from_name(members[i].0) == Some(channel));
                } else {
                    assert forall|i: int| 0 <= i < members.len() implies Channel::from_name(
                        (#[trigger] members[i]).0,
                    ) != Some(channel) by {
                        if i < last {
                            assert(front[i] == members[i]);
                        }
                    }
                }
            }
            assert forall|i: int|
                {
                    &&& 0 <= i < members.len()
                    &&& forall|k: int|
                        i < k < members.len() ==> Channel::from_name((#[trigger] members[k]).0)
                            != Channel::from_name(members[i].0)
                } implies now[Channel::from_name((#[trigger] members[i]).0).unwrap()]
                == VersionInChannel::read(members[i].1).unwrap() by {
                if i < last {
                    assert(front[i] == members[i]);
                    assert(Channel::from_name(members[last].0) != Channel::from_name(
                        members[i].0,
                    ));
                    assert forall|k: int| i < k < front.len() implies Channel::from_name(
                        (#[trigger] front[k]).0,
                    ) != Channel::from_name(front[i].0) by {
                        assert(front[k] == members[k]);
                    }
                }
            }
        }
    }

    /// Whatever is read holds at most one version for each channel, and so
    /// at most four versions.
    pub proof fn lemma_at_most_one_per_channel(channels: Map<Channel, VersionInChannelView>)
        ensures
            channels.dom().finite(),
            channels.dom().len() <= 4,
    {
        let all = set![Channel::Stable, Channel::Beta, Channel::Dev, Channel::Canary];
        assert(channels.dom().subset_of(all)) by {
            assert forall|channel: Channel| channels.dom().contains(channel) implies all.contains(
                channel,
            ) by {
                match channel {
                    Channel::Stable => {},
                    Channel::Beta => {},
                    Channel::Dev => {},
                    Channel::Canary => {},
                }
            }
        }
        vstd::set_lib::lemma_len_subset(channels.dom(), all);
        vstd::set_lib::lemma_set_subset_finite(all, channels.dom());
    }

    /// Holds no version.
    pub fn new() -> (channels: Channels)
        ensures
            channels@ == Map::<Channel, VersionInChannelView>::empty(),
    {
        let channels = Channels { stable: None, beta: None, dev: None, canary: None };
        channels
    }

    /// The version of a channel, if the feed reports on that channel.
    pub fn get(&self, channel: Channel) -> (entry: Option<&VersionInChannel>)
        ensures
            match entry {
                Some(entry) => self@.contains_key(channel) && self@[channel] == entry@,
                None => !self@.contains_key(channel),
            },
    {
        match channel {
            Channel::Stable => self.stable.as_ref(),
            Channel::Beta => self.beta.as_ref(),
            Channel::Dev => self.dev.as_ref(),
            Channel::Canary => self.canary.as_ref(),
        }
    }

    /// Makes a version the version of a channel, in place of the one that
    /// was held for the channel if there was one.
    pub fn insert(&mut self, channel: Channel, entry: VersionInChannel)
        ensures
            final(self)@ == old(self)@.insert(channel, entry@),
    {
        match channel {
            Channel::Stable => { self.stable = Some(entry); },
            Channel::Beta => { self.beta = Some(entry); },
            Channel::Dev => { self.dev = Some(entry); },
            Channel::Canary => { self.canary = Some(entry); },
        }
    }

    /// The number of channels that the feed reports on.
    pub fn len(&self) -> (count: usize)
        ensures
            count == self@.dom().len(),
            count <= 4,
    {
        let mut count: usize = 0;
        let ghost mut seen: Set<Channel> = Set::empty();
        if self.stable.is_some() {
            count += 1;
            proof {
                seen = seen.insert(Channel::Stable);
            }
        }
        if self.beta.is_some() {
            count += 1;
            proof {
                seen = seen.insert(Channel::Beta);
            }
        }
        if self.dev.is_some() {
            count += 1;
            proof {
                seen = seen.insert(Channel::Dev);
            }
        }
        if self.canary.is_some() {
            count += 1;
            proof {
                seen = seen.insert(Channel::Canary);
            }
        }
        proof {
            assert(seen =~= self@.dom()) by {
                assert forall|channel: Channel| seen.contains(channel) == self@.dom().contains(
                    channel,
                ) by {
                    match channel {
                        Channel::Stable => {},
                        Channel::Beta => {},
                        Channel::Dev => {},
                        Channel::Canary => {},
                    }
                }
            }
        }
        count
    }

    /// Reads the versions of the channels from the members of the object
    /// that holds them.
    pub fn from_members(members: &Vec<(String, Json)>) -> (channels: Result<Channels, SchemaError>)
        ensures
            match channels {
                Ok(channels) => Channels::read(members_view(members@)) == Ok::<
                    Map<Channel, VersionInChannelView>,
                    SchemaError,
                >(channels@),
                Err(error) => Channels::read(members_view(members@)) == Err::<
                    Map<Channel, VersionInChannelView>,
                    SchemaError,
                >(error),
            },
    {
        let ghost all = members_view(members@);
        let mut channels = Channels::new();
        let mut i: usize = 0;
        while i < members.len()
            invariant
                i <= members@.len(),
                all == members_view(members@),
                Channels::read(all.take(i as int)) == Ok::<
                    Map<Channel, VersionInChannelView>,
                    SchemaError,
                >(channels@),
            decreases members@.len() - i,
        {
            proof {
                assert(all.take(i + 1).drop_last() =~= all.take(i as int));
            }
            let channel = match Channel::parse(members[i].0.as_str()) {
                Some(channel) => channel,
                None => {
                    proof {
                        Channels::lemma_read_fails_early(all, i + 1);
                    }
                    return Err(SchemaError::UnknownChannel);
                },
            };
            match VersionInChannel::from_json(&members[i].1) {
                Ok(entry) => {
                    channels.insert(channel, entry);
                },
                Err(error) => {
                    proof {
                        Channels::lemma_read_fails_early(all, i + 1);
                    }
                    return Err(error);
                },
            }
            i += 1;
        }
        proof {
            assert(all.take(i as int) =~= all);
        }
        Ok(channels)
    }
}

impl LastKnownGoodVersions {
    /// The feed that a document holds: an object with an RFC 3339 text under
    /// `timestamp` and, under `channels`, an object that assigns versions to
    /// channels.
    pub open spec fn read(json: JsonValue) -> Result<LastKnownGoodVersionsView, SchemaError> {
        match json.members() {
            Err(error) => Err(error),
            Ok(members) => match JsonValue::required_text(members, "timestamp"@) {
                Err(error) => Err(error),
                Ok(text) => match Timestamp::from_text(text) {
                    None => Err(SchemaError::MalformedTimestamp),
                    Some(timestamp) => match JsonValue::required(members, "channels"@) {
                        Err(error) => Err(error),
                        Ok(channels) => match channels.members() {
                            Err(error) => Err(error),
                            Ok(entries) => match Channels::read(entries) {
                                Err(error) => Err(error),
                                Ok(channels) => Ok(
                                    LastKnownGoodVersionsView { timestamp, channels },
                                ),
                            },
                        },
                    },
                },
            },
        }
    }

    /// What the body of a response holds: the feed, if the body is a JSON
    /// text of the feed's shape.
    pub open spec fn decode(body: Seq<u8>) -> Result<LastKnownGoodVersionsView, Failure> {
        match json_document(body) {
            Err(message) => Err(Failure::Syntax(message)),
            Ok(json) => match LastKnownGoodVersions::read(json) {
                Err(error) => Err(Failure::Schema(error)),
                Ok(feed) => Ok(feed),
            },
        }
    }

    /// What an exchange amounts to: the feed, if a response came back that
    /// reports success and holds the feed.
    pub open spec fn respond(exchange: Exchange) -> Result<LastKnownGoodVersionsView, Failure> {
        match exchange {
            Exchange::Failed(reason) => Err(Failure::Transport(reason@)),
            Exchange::Response { status, body } => if is_success(status) {
                LastKnownGoodVersions::decode(body@)
            } else {
                Err(Failure::Status(status))
            },
        }
    }

    /// Reads the feed from the document that holds it.
    pub fn from_json(json: &Json) -> (feed: Result<LastKnownGoodVersions, SchemaError>)
        ensures
            match feed {
                Ok(feed) => LastKnownGoodVersions::read(json@) == Ok::<
                    LastKnownGoodVersionsView,
                    SchemaError,
                >(feed@),
                Err(error) => LastKnownGoodVersions::read(json@) == Err::<
                    LastKnownGoodVersionsView,
                    SchemaError,
                >(error),
            },
    {
        let members = json.as_members()?;
        let timestamp = match Timestamp::parse(Json::required_text(members, "timestamp")?) {
            Some(timestamp) => timestamp,
            None => { return Err(SchemaError::MalformedTimestamp); },
        };
        let entries = Json::required(members, "channels")?.as_members()?;
        let channels = Channels::from_members(entries)?;
        Ok(LastKnownGoodVersions { timestamp, channels })
    }

    /// Reads the feed from the body of a response.
    pub fn parse(body: &[u8]) -> (feed: Result<LastKnownGoodVersions, SerializationError>)
        ensures
            match feed {
                Ok(feed) => LastKnownGoodVersions::decode(body@) == Ok::<
                    LastKnownGoodVersionsView,
                    Failure,
                >(feed@),
                Err(error) => LastKnownGoodVersions::decode(body@) == Err::<
                    LastKnownGoodVersionsView,
                    Failure,
                >(Error::Serialization(error)@),
            },
    {
        match Json::parse(body) {
            Err(message) => Err(SerializationError::Syntax(message)),
            Ok(json) => match LastKnownGoodVersions::from_json(&json) {
                Err(error) => Err(SerializationError::Schema(error)),
                Ok(feed) => Ok(feed),
            },
        }
    }
}

/// The URL of the feed under the given origin. The caller sends a GET
/// request there and hands what comes back to `read_response`.
pub fn request_url(base_url: &str) -> (url: Result<String, Error>)
    ensures
        match url {
            Ok(url) => resolved_url(base_url@, LAST_KNOWN_GOOD_VERSIONS_WITH_DOWNLOADS_JSON_PATH@)
                == Some(url@),
            Err(error) => resolved_url(
                base_url@,
                LAST_KNOWN_GOOD_VERSIONS_WITH_DOWNLOADS_JSON_PATH@,
            ) is None && error is UrlParsing,
        },
{
    endpoint(base_url, LAST_KNOWN_GOOD_VERSIONS_WITH_DOWNLOADS_JSON_PATH)
}

/// Turns what came back from the feed's URL into the feed, or into the
/// account of why there is none.
pub fn read_response(exchange: Exchange) -> (feed: Result<LastKnownGoodVersions, Error>)
    ensures
        match feed {
            Ok(feed) => LastKnownGoodVersions::respond(exchange) == Ok::<
                LastKnownGoodVersionsView,
                Failure,
            >(feed@),
            Err(error) => LastKnownGoodVersions::respond(exchange) == Err::<
                LastKnownGoodVersionsView,
                Failure,
            >(error@),
        },
{
    match successful_body(exchange) {
        Err(error) => Err(Error::Network(error)),
        Ok(body) => match LastKnownGoodVersions::parse(body.as_slice()) {
            Err(error) => Err(Error::Serialization(error)),
            Ok(feed) => Ok(feed),
        },
    }
}

} // verus!
