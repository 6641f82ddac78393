//! The feed of known good versions: a long list of working releases, none
//! assigned to a channel.

use crate::api::exchange::{endpoint, is_success, resolved_url, successful_body, Exchange};
use crate::api::json::{items_view, json_document, members_view, Json, JsonValue};
use crate::api::timestamp::Timestamp;
use crate::api::version::Version;
use crate::api::{
    downloads_view, lemma_read_each_fails_early, read_each, Download, DownloadView, HasVersion,
};
use crate::error::{Error, Failure, SchemaError, SerializationError};
use vstd::prelude::*;

verus! {

/// The path of the feed under the origin that publishes it.
pub const KNOWN_GOOD_VERSIONS_WITH_DOWNLOADS_JSON_PATH: &'static str =
    "/chrome-for-testing/known-good-versions-with-downloads.json";

/// The archives of one version. Old versions come without a list of driver
/// archives, which is not the same as an empty list.
#[derive(Debug, Clone, PartialEq, Eq)]
pub struct Downloads {
    pub chrome: Vec<Download>,
    pub chromedriver: Option<Vec<Download>>,
}

/// One version of the list.
#[derive(Debug, Clone, PartialEq, Eq)]
pub struct VersionWithoutChannel {
    pub version: Version,
    pub revision: String,
    pub downloads: Downloads,
}

/// The feed of known good versions, as published at some moment.
#[derive(Debug, Clone, PartialEq, Eq)]
pub struct KnownGoodVersions {
    pub timestamp: Timestamp,
    pub versions: Vec<VersionWithoutChannel>,
}

/// The archives of one version, as a mathematical value.
pub struct DownloadsView {
    pub chrome: Seq<DownloadView>,
    pub chromedriver: Option<Seq<DownloadView>>,
}

/// One version of the list, as a mathematical value.
pub struct VersionWithoutChannelView {
    pub version: Version,
    pub revision: Seq<char>,
    pub downloads: DownloadsView,
}

/// The feed of known good versions, as a mathematical value.
pub struct KnownGoodVersionsView {
    pub timestamp: Timestamp,
    pub versions: Seq<VersionWithoutChannelView>,
}

impl View for Downloads {
    type V = DownloadsView;

    open spec fn view(&self) -> DownloadsView {
        DownloadsView {
            chrome: downloads_view(self.chrome@),
            chromedriver: match self.chromedriver {
                Some(list) => Some(downloads_view(list@)),
                None => None,
            },
        }
    }
}

impl View for VersionWithoutChannel {
    type V = VersionWithoutChannelView;

    open spec fn view(&self) -> VersionWithoutChannelView {
        VersionWithoutChannelView {
            version: self.version,
            revision: self.revision@,
            downloads: self.downloads@,
        }
    }
}

/// The versions of a list, each as a mathematical value.
pub open spec fn versions_view(versions: Seq<VersionWithoutChannel>) -> Seq<
    VersionWithoutChannelView,
> {
    Seq::new(versions.len(), |i: int| versions[i]@)
}

impl View for KnownGoodVersions {
    type V = KnownGoodVersionsView;

    open spec fn view(&self) -> KnownGoodVersionsView {
        KnownGoodVersionsView { timestamp: self.timestamp, versions: versions_view(self.versions@) }
    }
}

impl HasVersion for VersionWithoutChannel {
    open spec fn version_of(&self) -> Version {
        self.version
    }

    fn version(&self) -> (version: Version) {
        self.version
    }
}

impl Downloads {
    /// The archives that a document describes: an object with a list of
    /// downloads under `chrome` and perhaps one under `chromedriver`. Where
    /// that member is missing or null there is no driver list.
    pub open spec fn read(json: JsonValue) -> Result<DownloadsView, SchemaError> {
        match json.members() {
            Err(error) => Err(error),
            Ok(members) => match JsonValue::required(members, "chrome"@) {
                Err(error) => Err(error),
                Ok(chrome) => match Download::read_list(chrome) {
                    Err(error) => Err(error),
                    Ok(chrome) => match JsonValue::member(members, "chromedriver"@) {
                        None | Some(JsonValue::Null) => Ok(
                            DownloadsView { chrome, chromedriver: None },
                        ),
                        Some(chromedriver) => match Download::read_list(chromedriver) {
                            Err(error) => Err(error),
                            Ok(chromedriver) => Ok(
                                DownloadsView { chrome, chromedriver: Some(chromedriver) },
                            ),
                        },
                    },
                },
            },
        }
    }

    /// Reads the archives of a version from the document that describes them.
    pub fn from_json(json: &Json) -> (downloads: Result<Downloads, SchemaError>)
        ensures
            match downloads {
                Ok(downloads) => Downloads::read(json@) == Ok::<DownloadsView, SchemaError>(
                    downloads@,
                ),
                Err(error) => Downloads::read(json@) == Err::<DownloadsView, SchemaError>(error),
            },
    {
        let members = json.as_members()?;
        let chrome = Download::list_from_json(Json::required(members, "chrome")?)?;
        let chromedriver = match Json::member(members, "chromedriver") {
            None | Some(Json::Null) => None,
            Some(list) => Some(Download::list_from_json(list)?),
        };
        Ok(Downloads { chrome, chromedriver })
    }

    /// A document that says nothing under `chromedriver` reads as archives
    /// without a driver list.
    pub proof fn lemma_missing_driver_list_is_absent(members: Seq<(Seq<char>, JsonValue)>)
        requires
            JsonValue::member(members, "chromedriver"@) is None,
            Downloads::read(JsonValue::Object(members)) is Ok,
        ensures
            Downloads::read(JsonValue::Object(members)).unwrap().chromedriver is None,
    {
    }

    /// A document with an empty array under `chromedriver` reads as archives
    /// with a driver list, which is empty.
    pub proof fn lemma_empty_driver_list_is_present(members: Seq<(Seq<char>, JsonValue)>)
        requires
            JsonValue::member(members, "chromedriver"@) == Some(
                JsonValue::Array(Seq::<JsonValue>::empty()),
            ),
            Downloads::read(JsonValue::Object(members)) is Ok,
        ensures
            Downloads::read(JsonValue::Object(members)).unwrap().chromedriver == Some(
                Seq::<DownloadView>::empty(),
            ),
    {
    }
}

impl VersionWithoutChannel {
    /// The version that a document describes: an object with the text of a
    /// version under `version`, a text under `revision` and the archives
    /// under `downloads`.
    pub open spec fn read(json: JsonValue) -> Result<VersionWithoutChannelView, SchemaError> {
        match json.members() {
            Err(error) => Err(error),
            Ok(members) => match JsonValue::required_text(members, "version"@) {
                Err(error) => Err(error),
                Ok(text) => match Version::from_text(text) {
                    None => Err(SchemaError::MalformedVersion),
                    Some(version) => match JsonValue::required_text(members, "revision"@) {
                        Err(error) => Err(error),
                        Ok(revision) => match JsonValue::required(members, "downloads"@) {
                            Err(error) => Err(error),
                            Ok(downloads) => match Downloads::read(downloads) {
                                Err(error) => Err(error),
                                Ok(downloads) => Ok(
                                    VersionWithoutChannelView { version, revision, downloads },
                                ),
                            },
                        },
                    },
                },
            },
        }
    }

    /// `read`, as a value to hand to `read_each`.
    pub open spec fn reader() -> spec_fn(JsonValue) -> Result<
        VersionWithoutChannelView,
        SchemaError,
    > {
        |json: JsonValue| VersionWithoutChannel::read(json)
    }

    /// Reads one version of the list from the document that describes it.
    pub fn from_json(json: &Json) -> (entry: Result<VersionWithoutChannel, SchemaError>)
        ensures
            match entry {
                Ok(entry) => VersionWithoutChannel::read(json@) == Ok::<
                    VersionWithoutChannelView,
                    SchemaError,
                >(entry@),
                Err(error) => VersionWithoutChannel::read(json@) == Err::<
                    VersionWithoutChannelView,
                    SchemaError,
                >(error),
            },
    {
        let members = json.as_members()?;
        let version = match Version::parse(Json::required_text(members, "version")?) {
            Ok(version) => version,
            Err(_) => { return Err(SchemaError::MalformedVersion); },
        };
        let revision = String::from_str(Json::required_text(members, "revision")?);
        let downloads = Downloads::from_json(Json::required(members, "downloads")?)?;
        Ok(VersionWithoutChannel { version, revision, downloads })
    }
}

impl KnownGoodVersions {
    /// The feed that a document holds: an object with an RFC 3339 text under
    /// `timestamp` and an array of versions under `versions`.
    pub open spec fn read(json: JsonValue) -> Result<KnownGoodVersionsView, SchemaError> {
        match json.members() {
            Err(error) => Err(error),
            Ok(members) => match JsonValue::required_text(members, "timestamp"@) {
                Err(error) => Err(error),
                Ok(text) => match Timestamp::from_text(text) {
                    None => Err(SchemaError::MalformedTimestamp),
                    Some(timestamp) => match JsonValue::required(members, "versions"@) {
                        Err(error) => Err(error),
                        Ok(versions) => match versions.items() {
                            Err(error) => Err(error),
                            Ok(items) => match read_each(items, VersionWithoutChannel::reader()) {
                                Err(error) => Err(error),
                                Ok(versions) => Ok(KnownGoodVersionsView { timestamp, versions }),
                            },
                        },
                    },
                },
            },
        }
    }

    /// What the body of a response holds: the feed, if the body is a JSON
    /// text of the feed's shape.
    pub open spec fn decode(body: Seq<u8>) -> Result<KnownGoodVersionsView, Failure> {
        match json_document(body) {
            Err(message) => Err(Failure::Syntax(message)),
            Ok(json) => match KnownGoodVersions::read(json) {
                Err(error) => Err(Failure::Schema(error)),
                Ok(feed) => Ok(feed),
            },
        }
    }

    /// What an exchange amounts to: the feed, if a response came back that
    /// reports success and holds the feed.
    pub open spec fn respond(exchange: Exchange) -> Result<KnownGoodVersionsView, Failure> {
        match exchange {
            Exchange::Failed(reason) => Err(Failure::Transport(reason@)),
            Exchange::Response { status, body } => if is_success(status) {
                KnownGoodVersions::decode(body@)
            } else {
                Err(Failure::Status(status))
            },
        }
    }

    /// Reads the versions of the list from the array that holds them.
    fn versions_from_json(items: &Vec<Json>) -> (versions: Result<
        Vec<VersionWithoutChannel>,
        SchemaError,
    >)
        ensures
            match versions {
                Ok(versions) => read_each(items_view(items@), VersionWithoutChannel::reader())
                    == Ok::<Seq<VersionWithoutChannelView>, SchemaError>(versions_view(versions@)),
                Err(error) => read_each(items_view(items@), VersionWithoutChannel::reader())
                    == Err::<Seq<VersionWithoutChannelView>, SchemaError>(error),
            },
    {
        let ghost all = items_view(items@);
        let ghost read = VersionWithoutChannel::reader();
        let mut versions: Vec<VersionWithoutChannel> = Vec::new();
        let mut i: usize = 0;
        proof {
            assert(versions_view(versions@) =~= Seq::<VersionWithoutChannelView>::empty());
        }
        while i < items.len()
            invariant
                i <= items@.len(),
                all == items_view(items@),
                read == VersionWithoutChannel::reader(),
                read_each(all.take(i as int), read) == Ok::<
                    Seq<VersionWithoutChannelView>,
                    SchemaError,
                >(versions_view(versions@)),
            decreases items@.len() - i,
        {
            proof {
                assert(all.take(i + 1).drop_last() =~= all.take(i as int));
            }
            match VersionWithoutChannel::from_json(&items[i]) {
                Ok(entry) => {
                    proof {
                        assert(versions_view(versions@.push(entry)) =~= versions_view(
                            versions@,
                        ).push(entry@));
                    }
                    versions.push(entry);
                },
                Err(error) => {
                    proof {
                        lemma_read_each_fails_early(all, read, i + 1);
                    }
                    return Err(error);
                },
            }
            i += 1;
        }
        proof {
            assert(all.take(i as int) =~= all);
        }
        Ok(versions)
    }

    /// Reads the feed from the document that holds it.
    pub fn from_json(json: &Json) -> (feed: Result<KnownGoodVersions, SchemaError>)
        ensures
            match feed {
                Ok(feed) => KnownGoodVersions::read(json@) == Ok::<
                    KnownGoodVersionsView,
                    SchemaError,
                >(feed@),
                Err(error) => KnownGoodVersions::read(json@) == Err::<
                    KnownGoodVersionsView,
                    SchemaError,
                >(error),
            },
    {
        let members = json.as_members()?;
        let timestamp = match Timestamp::parse(Json::required_text(members, "timestamp")?) {
            Some(timestamp) => timestamp,
            None => { return Err(SchemaError::MalformedTimestamp); },
        };
        let items = Json::required(members, "versions")?.as_items()?;
        let versions = KnownGoodVersions::versions_from_json(items)?;
        Ok(KnownGoodVersions { timestamp, versions })
    }

    /// Reads the feed from the body of a response.
    pub fn parse(body: &[u8]) -> (feed: Result<KnownGoodVersions, SerializationError>)
        ensures
            match feed {
                Ok(feed) => KnownGoodVersions::decode(body@) == Ok::<
                    KnownGoodVersionsView,
                    Failure,
                >(feed@),
                Err(error) => KnownGoodVersions::decode(body@) == Err::<
                    KnownGoodVersionsView,
                    Failure,
                >(Error::Serialization(error)@),
            },
    {
        match Json::parse(body) {
            Err(message) => Err(SerializationError::Syntax(message)),
            Ok(json) => match KnownGoodVersions::from_json(&json) {
                Err(error) => Err(SerializationError::Schema(error)),
                Ok(feed) => Ok(feed),
            },
        }
    }
}

/// The URL of the feed under the given origin. The caller sends a GET
/// request there and hands what comes back to `read_response`.
pub fn request_url(base_url: &str) -> (url: Result<String, Error>)
    ensures
        match url {
            Ok(url) => resolved_url(base_url@, KNOWN_GOOD_VERSIONS_WITH_DOWNLOADS_JSON_PATH@)
                == Some(url@),
            Err(error) => resolved_url(base_url@, KNOWN_GOOD_VERSIONS_WITH_DOWNLOADS_JSON_PATH@)
                is None && error is UrlParsing,
        },
{
    endpoint(base_url, KNOWN_GOOD_VERSIONS_WITH_DOWNLOADS_JSON_PATH)
}

/// Turns what came back from the feed's URL into the feed, or into the
/// account of why there is none.
pub fn read_response(exchange: Exchange) -> (feed: Result<KnownGoodVersions, Error>)
    ensures
        match feed {
            Ok(feed) => KnownGoodVersions::respond(exchange) == Ok::<KnownGoodVersionsView, Failure>(
                feed@,
            ),
            Err(error) => KnownGoodVersions::respond(exchange) == Err::<
                KnownGoodVersionsView,
                Failure,
            >(error@),
        },
{
    match successful_body(exchange) {
        Err(error) => Err(Error::Network(error)),
        Ok(body) => match KnownGoodVersions::parse(body.as_slice()) {
            Err(error) => Err(Error::Serialization(error)),
            Ok(feed) => Ok(feed),
        },
    }
}

} // verus!
