//! The data model of the release feeds and the two documents built from it.

use crate::api::json::{items_view, members_view, Json, JsonValue};
use crate::api::platform::Platform;
use crate::api::version::Version;
use crate::error::SchemaError;
use vstd::prelude::*;

pub mod channel;
pub mod exchange;
pub mod json;
pub mod known_good_versions;
pub mod last_known_good_versions;
pub mod platform;
pub mod timestamp;
pub mod version;

verus! {

/// Where the archive of one artifact for one platform can be fetched.
#[derive(Debug, Clone, PartialEq, Eq)]
pub struct Download {
    pub platform: Platform,
    pub url: String,
}

/// A download, as a mathematical value.
pub struct DownloadView {
    pub platform: Platform,
    pub url: Seq<char>,
}

impl View for Download {
    type V = DownloadView;

    open spec fn view(&self) -> DownloadView {
        DownloadView { platform: self.platform, url: self.url@ }
    }
}

/// An entry of a feed: whatever else it holds, it is about one version.
pub trait HasVersion {
    /// The version that the entry is about.
    spec fn version_of(&self) -> Version;

    /// Returns the version that the entry is about.
    fn version(&self) -> (version: Version)
        ensures
            version == self.version_of(),
    ;
}

/// The downloads of a list, each as a mathematical value.
pub open spec fn downloads_view(downloads: Seq<Download>) -> Seq<DownloadView> {
    Seq::new(downloads.len(), |i: int| downloads[i]@)
}

/// Reads every item of a list in the same way. The result holds what was
/// read, in the order of the items; the first item that cannot be read
/// decides the error.
pub open spec fn read_each<T>(
    items: Seq<JsonValue>,
    read: spec_fn(JsonValue) -> Result<T, SchemaError>,
) -> Result<Seq<T>, SchemaError>
    decreases items.len(),
{
    if items.len() == 0 {
        Ok(Seq::empty())
    } else {
        match read_each(items.drop_last(), read) {
            Err(error) => Err(error),
            Ok(front) => match read(items.last()) {
                Err(error) => Err(error),
                Ok(item) => Ok(front.push(item)),
            },
        }
    }
}

/// Once the items up to some point cannot all be read, neither can the whole
/// list, and the error is the same.
pub proof fn lemma_read_each_fails_early<T>(
    items: Seq<JsonValue>,
    read: spec_fn(JsonValue) -> Result<T, SchemaError>,
    n: int,
)
    requires
        0 <= n <= items.len(),
        read_each(items.take(n), read) is Err,
    ensures
        read_each(items, read) == read_each(items.take(n), read),
    decreases items.len() - n,
{
    if n == items.len() {
        assert(items.take(n) =~= items);
    } else {
        assert(items.take(n + 1).drop_last() =~= items.take(n));
        lemma_read_each_fails_early(items, read, n + 1);
    }
}

/// What `read_each` gives, item by item: where every item can be read, what
/// each reads as, in the same place; else the error of the first item that
/// cannot be read.
pub proof fn lemma_read_each_item_by_item<T>(
    items: Seq<JsonValue>,
    read: spec_fn(JsonValue) -> Result<T, SchemaError>,
)
    ensures
        match read_each(items, read) {
            Ok(all) => {
                &&& all.len() == items.len()
                &&& forall|i: int|
                    0 <= i < items.len() ==> read(#[trigger] items[i]) == Ok::<T, SchemaError>(
                        all[i],
                    )
            },
            Err(error) => exists|k: int|
                {
                    &&& 0 <= k < items.len()
                    &&& read(#[trigger] items[k]) == Err::<T, SchemaError>(error)
                    &&& forall|j: int| 0 <= j < k ==> read(#[trigger] items[j]) is Ok
                },
        },
    decreases items.len(),
{
    if items.len() > 0 {
        let front = items.drop_last();
        lemma_read_each_item_by_item(front, read);
        match read_each(front, read) {
            Ok(all) => {
                assert forall|i: int| 0 <= i < front.len() implies front[i] == items[i] by {}
                match read(items.last()) {
                    Ok(item) => {},
                    Err(error) => {
                        let k = items.len() - 1;
                        assert(read(items[k]) == Err::<T, SchemaError>(error));
                    },
                }
            },
            Err(error) => {
                let k = choose|k: int|
                    {
                        &&& 0 <= k < front.len()
                        &&& read(#[trigger] front[k]) == Err::<T, SchemaError>(error)
                        &&& forall|j: int| 0 <= j < k ==> read(#[trigger] front[j]) is Ok
                    };
                assert(front[k] == items[k]);
                assert forall|j: int| 0 <= j < k implies read(#[trigger] items[j]) is Ok by {
                    assert(front[j] == items[j]);
                }
            },
        }
    }
}

impl Download {
    /// The download that a document describes: an object with the token of
    /// a platform under `platform` and a text under `url`. Other members are
    /// passed over.
    pub open spec fn read(json: JsonValue) -> Result<DownloadView, SchemaError> {
        match json.members() {
            Err(error) => Err(error),
            Ok(members) => match JsonValue::required_text(members, "platform"@) {
                Err(error) => Err(error),
                Ok(token) => match Platform::from_token(token) {
                    None => Err(SchemaError::UnknownPlatform),
                    Some(platform) => match JsonValue::required_text(members, "url"@) {
                        Err(error) => Err(error),
                        Ok(url) => Ok(DownloadView { platform, url }),
                    },
                },
            },
        }
    }

    /// `read`, as a value to hand to `read_each`.
    pub open spec fn reader() -> spec_fn(JsonValue) -> Result<DownloadView, SchemaError> {
        |json: JsonValue| Download::read(json)
    }

    /// The downloads that a document lists: an array of downloads.
    pub open spec fn read_list(json: JsonValue) -> Result<Seq<DownloadView>, SchemaError> {
        match json.items() {
            Err(error) => Err(error),
            Ok(items) => read_each(items, Download::reader()),
        }
    }

    /// Reads a download from the document that describes it.
    pub fn from_json(json: &Json) -> (download: Result<Download, SchemaError>)
        ensures
            match download {
                Ok(download) => Download::read(json@) == Ok::<DownloadView, SchemaError>(
                    download@,
                ),
                Err(error) => Download::read(json@) == Err::<DownloadView, SchemaError>(error),
            },
    {
        let members = json.as_members()?;
        let token = Json::required_text(members, "platform")?;
        let platform = match Platform::parse(token) {
            Some(platform) => platform,
            None => { return Err(SchemaError::UnknownPlatform); },
        };
        let url = Json::required_text(members, "url")?;
        Ok(Download { platform, url: String::from_str(url) })
    }

    /// Reads a list of downloads from the array that holds them.
    pub fn list_from_json(json: &Json) -> (downloads: Result<Vec<Download>, SchemaError>)
        ensures
            match downloads {
                Ok(downloads) => Download::read_list(json@) == Ok::<
                    Seq<DownloadView>,
                    SchemaError,
                >(downloads_view(downloads@)),
                Err(error) => Download::read_list(json@) == Err::<Seq<DownloadView>, SchemaError>(
                    error,
                ),
            },
    {
        let items = json.as_items()?;
        let ghost all = items_view(items@);
        let ghost read = Download::reader();
        let mut downloads: Vec<Download> = Vec::new();
        let mut i: usize = 0;
        proof {
            assert(downloads_view(downloads@) =~= Seq::<DownloadView>::empty());
        }
        while i < items.len()
            invariant
                i <= items@.len(),
                all == items_view(items@),
                json@.items() == Ok::<Seq<JsonValue>, SchemaError>(all),
                read == Download::reader(),
                read_each(all.take(i as int), read) == Ok::<Seq<DownloadView>, SchemaError>(
                    downloads_view(downloads@),
                ),
            decreases items@.len() - i,
        {
            proof {
                assert(all.take(i + 1).drop_last() =~= all.take(i as int));
            }
            match Download::from_json(&items[i]) {
                Ok(download) => {
                    proof {
                        assert(downloads_view(downloads@.push(download)) =~= downloads_view(
                            downloads@,
                        ).push(download@));
                    }
                    downloads.push(download);
                },
                Err(error) => {
                    proof {
                        lemma_read_each_fails_early(all, read, i + 1);
                    }
                    return Err(error);
                },
            }
            i += 1;
        }
        proof {
            assert(all.take(i as int) =~= all);
        }
        Ok(downloads)
    }
}

} // verus!
