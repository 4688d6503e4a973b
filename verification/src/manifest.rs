//! Remote documents: where they are fetched from and what they decode to.
//!
//! Three kinds of document describe what can be installed: the catalogue of
//! studios (name to download address), the list of valid client
//! identifiers, and one manifest per client version (logical file name to
//! the relative path it is extracted to). All are JSON. Fetching is left to
//! the caller; this module gives the addresses and decodes the bodies.

use vstd::prelude::*;
use vstd::string::*;
use crate::error::{ErrorModel, InstallError};
use crate::segments::texts;
use crate::text::same_text;

verus! {

/// Host of the site.
pub const BASE_URL: &'static str = "www.syntax.eco";

/// Host that serves the archives and the number of the latest version.
pub const SETUP_URL: &'static str = "setup.syntax.eco";

/// Repository that holds the documents.
pub const REPO_NAME: &'static str = "MojaveMF/syntax";

/// File of the catalogue of studios, in the repository.
pub const STUDIOS_FILE: &'static str = "data/studios.json";

/// File of the list of valid clients, in the repository.
pub const CLIENTS_FILE: &'static str = "data/clients.json";

/// Which line of releases the documents are read from.
#[derive(Debug, Clone, Copy, PartialEq, Eq, Structural)]
pub enum Channel {
    /// Builds under development.
    Development,
    /// Published builds.
    Release,
}

/// The branch of the repository that a channel reads.
pub open spec fn branch_of(channel: Channel) -> Seq<char> {
    match channel {
        Channel::Development => "main"@,
        Channel::Release => "release"@,
    }
}

/// The address of the file `file` of the repository, on `channel`.
pub open spec fn repo_url(channel: Channel, file: Seq<char>) -> Seq<char> {
    "https://raw.githubusercontent.com/"@ + REPO_NAME@ + "/"@ + branch_of(channel) + "/"@ + file
}

/// The file of the manifest of `version`, in the repository.
pub open spec fn manifest_file_of(version: Seq<char>) -> Seq<char> {
    "data/manifest/"@ + version + ".json"@
}

/// The address of the file `file_name` on the setup host.
pub open spec fn setup_url(file_name: Seq<char>) -> Seq<char> {
    "https://"@ + SETUP_URL@ + "/"@ + file_name
}

/// The branch of the repository that `channel` reads.
pub fn target_branch(channel: Channel) -> (branch: &'static str)
    ensures
        branch@ == branch_of(channel),
{
    match channel {
        Channel::Development => "main",
        Channel::Release => "release",
    }
}

/// The address from which the file `file` of the repository is fetched.
pub fn repo_file_url(channel: Channel, file: &str) -> (url: String)
    ensures
        url@ == repo_url(channel, file@),
{
    let mut url = String::from_str("https://raw.githubusercontent.com/");
    url.append(REPO_NAME);
    url.append("/");
    url.append(target_branch(channel));
    url.append("/");
    url.append(file);
    url
}

/// The file of the repository that holds the manifest of `version`.
pub fn manifest_file(version: &str) -> (file: String)
    ensures
        file@ == manifest_file_of(version@),
{
    let mut file = String::from_str("data/manifest/");
    file.append(version);
    file.append(".json");
    file
}

/// The address from which the manifest of `version` is fetched.
pub fn manifest_url(channel: Channel, version: &str) -> (url: String)
    ensures
        url@ == repo_url(channel, manifest_file_of(version@)),
{
    let file = manifest_file(version);
    repo_file_url(channel, file.as_str())
}

/// The address from which the file `file_name` of the setup host is
/// fetched.
pub fn setup_file_url(file_name: &str) -> (url: String)
    ensures
        url@ == setup_url(file_name@),
{
    let mut url = String::from_str("https://");
    url.append(SETUP_URL);
    url.append("/");
    url.append(file_name);
    url
}

/// The address that answers with the number of the latest version.
pub fn latest_version_url() -> (url: String)
    ensures
        url@ == setup_url("version"@),
{
    setup_file_url("version")
}

/// The view of each pair of texts of `v`, in order.
pub open spec fn pairs(v: Seq<(String, String)>) -> Seq<(Seq<char>, Seq<char>)> {
    Seq::new(v.len(), |i: int| (v[i].0@, v[i].1@))
}

/// Whether no two entries have the same name.
pub open spec fn distinct_names(entries: Seq<(Seq<char>, Seq<char>)>) -> bool {
    forall|i: int, j: int|
        0 <= i < j < entries.len() ==> (#[trigger] entries[i]).0 != (#[trigger] entries[j]).0
}

/// The second text of each entry, in order.
pub open spec fn paths_of(entries: Seq<(Seq<char>, Seq<char>)>) -> Seq<Seq<char>> {
    Seq::new(entries.len(), |i: int| entries[i].1)
}

/// A mapping from names to texts: a manifest (logical file name to relative
/// path) or a catalogue (name to address). No name occurs twice.
pub struct Manifest {
    entries: Vec<(String, String)>,
}

/// A catalogue maps the name of each studio to its download address.
pub type Catalog = Manifest;

impl Manifest {
    /// No name occurs twice.
    #[verifier::type_invariant]
    pub open spec fn well_formed(&self) -> bool {
        distinct_names(self.entries())
    }

    /// The entries, each a name and the text it maps to, in the order in
    /// which they are kept.
    pub closed spec fn entries(&self) -> Seq<(Seq<char>, Seq<char>)> {
        pairs(self.entries@)
    }

    /// A manifest of the given entries, unless a name occurs twice.
    pub fn from_entries(entries: Vec<(String, String)>) -> (made: Option<Manifest>)
        ensures
            match made {
                Some(m) => distinct_names(pairs(entries@)) && m.entries() == pairs(entries@),
                None => !distinct_names(pairs(entries@)),
            },
    {
        let ghost all = pairs(entries@);
        let mut j: usize = 0;
        while j < entries.len()
            invariant
                j <= entries.len(),
                all == pairs(entries@),
                forall|a: int, b: int| 0 <= a < b < j ==> (#[trigger] all[a]).0 != (#[trigger] all[b]).0,
            decreases entries.len() - j,
        {
            let mut i: usize = 0;
            while i < j
                invariant
                    i <= j < entries.len(),
                    all == pairs(entries@),
                    forall|a: int| 0 <= a < i ==> (#[trigger] all[a]).0 != all[j as int].0,
                decreases j - i,
            {
                if same_text(entries[i].0.as_str(), entries[j].0.as_str()) {
                    assert(all[i as int].0 == all[j as int].0);
                    return None;
                }
                i += 1;
            }
            j += 1;
        }
        Some(Manifest { entries })
    }

    /// The number of entries.
    pub fn len(&self) -> (n: usize)
        ensures
            n == self.entries().len(),
    {
        self.entries.len()
    }

    /// The text that `name` maps to, if it is a name of the manifest.
    pub fn get(&self, name: &str) -> (found: Option<String>)
        ensures
            match found {
                Some(text) => exists|i: int|
                    0 <= i < self.entries().len() && #[trigger] self.entries()[i] == (
                        name@,
                        text@,
                    ),
                None => forall|i: int|
                    0 <= i < self.entries().len() ==> (#[trigger] self.entries()[i]).0 != name@,
            },
    {
        let mut i: usize = 0;
        while i < self.entries.len()
            invariant
                i <= self.entries.len(),
                forall|a: int| 0 <= a < i ==> (#[trigger] self.entries()[a]).0 != name@,
            decreases self.entries.len() - i,
        {
            if same_text(self.entries[i].0.as_str(), name) {
                let text = self.entries[i].1.clone();
                assert(self.entries()[i as int] == (name@, text@));
                return Some(text);
            }
            i += 1;
        }
        None
    }

    /// The names, in the order of the entries.
    pub fn names(&self) -> (names: Vec<String>)
        ensures
            texts(names@) == Seq::new(self.entries().len(), |i: int| self.entries()[i].0),
    {
        let mut names: Vec<String> = Vec::new();
        let mut i: usize = 0;
        while i < self.entries.len()
            invariant
                i <= self.entries.len(),
                names.len() == i,
                forall|a: int| 0 <= a < i ==> (#[trigger] names[a])@ == self.entries()[a].0,
            decreases self.entries.len() - i,
        {
            names.push(self.entries[i].0.clone());
            i += 1;
        }
        assert(texts(names@) =~= Seq::new(self.entries().len(), |i: int| self.entries()[i].0));
        names
    }

    /// The texts that the names map to, in the order of the entries: for a
    /// manifest, the relative paths to prepare.
    pub fn paths(&self) -> (paths: Vec<String>)
        ensures
            texts(paths@) == paths_of(self.entries()),
    {
        let mut paths: Vec<String> = Vec::new();
        let mut i: usize = 0;
        while i < self.entries.len()
            invariant
                i <= self.entries.len(),
                paths.len() == i,
                forall|a: int| 0 <= a < i ==> (#[trigger] paths[a])@ == self.entries()[a].1,
            decreases self.entries.len() - i,
        {
            paths.push(self.entries[i].1.clone());
            i += 1;
        }
        assert(texts(paths@) =~= paths_of(self.entries()));
        paths
    }
}

/// What `serde_json::from_slice` makes of `bytes` when asked for a map from
/// text to text: the entries in ascending order of their names, or `None`
/// where it reports an error.
pub uninterp spec fn json_text_map(bytes: Seq<u8>) -> Option<Seq<(Seq<char>, Seq<char>)>>;

/// What `serde_json::from_slice` makes of `bytes` when asked for a list of
/// texts, or `None` where it reports an error.
pub uninterp spec fn json_text_list(bytes: Seq<u8>) -> Option<Seq<Seq<char>>>;

#[verifier::external_type_specification]
#[verifier::external_body]
pub struct ExJsonError(serde_json::Error);

/// Decodes a JSON object whose values are all texts, with
/// `serde_json::from_slice` into a `BTreeMap`. The result is a function of
/// the bytes alone, named [`json_text_map`]; the entries come out in the
/// order of the map, which is ascending by name.
#[verifier::external_body]
fn parse_text_map(bytes: &[u8]) -> (r: Result<Vec<(String, String)>, serde_json::Error>)
    ensures
        match r {
            Ok(entries) => json_text_map(bytes@) == Some(pairs(entries@)),
            Err(_) => json_text_map(bytes@) is None,
        },
{
    let parsed = serde_json::from_slice::<std::collections::BTreeMap<String, String>>(bytes);
    parsed.map(|map| map.into_iter().collect())
}

/// Decodes a JSON array of texts with `serde_json::from_slice`. The result
/// is a function of the bytes alone, named [`json_text_list`].
#[verifier::external_body]
fn parse_text_list(bytes: &[u8]) -> (r: Result<Vec<String>, serde_json::Error>)
    ensures
        match r {
            Ok(items) => json_text_list(bytes@) == Some(texts(items@)),
            Err(_) => json_text_list(bytes@) is None,
        },
{
    serde_json::from_slice::<Vec<String>>(bytes)
}

/// The text that `serde_json` gives for one of its errors. Nothing is
/// claimed of it.
#[verifier::external_body]
fn json_error_text(e: &serde_json::Error) -> (text: String) {
    e.to_string()
}

/// The manifest that a decoded object stands for: an error where decoding
/// failed, with `detail` as its text, or where a name occurs twice.
pub fn manifest_from_parsed(parsed: Option<Vec<(String, String)>>, detail: String) -> (r: Result<
    Manifest,
    InstallError,
>)
    ensures
        match parsed {
            Some(entries) if distinct_names(pairs(entries@)) => r matches Ok(m) && m.entries()
                == pairs(entries@),
            Some(_) => r matches Err(e) && e@ == ErrorModel::DecodeError(
                "a name occurs twice"@,
            ),
            None => r matches Err(e) && e@ == ErrorModel::DecodeError(detail@),
        },
{
    match parsed {
        Some(entries) => match Manifest::from_entries(entries) {
            Some(manifest) => Ok(manifest),
            None => Err(InstallError::DecodeError(String::from_str("a name occurs twice"))),
        },
        None => Err(InstallError::DecodeError(detail)),
    }
}

/// Decodes the body of a manifest or of a catalogue: a JSON object whose
/// values are all texts. Anything else is a decode error.
pub fn decode_manifest(bytes: &[u8]) -> (r: Result<Manifest, InstallError>)
    ensures
        match json_text_map(bytes@) {
            Some(entries) if distinct_names(entries) => r matches Ok(m) && m.entries() == entries,
            _ => r matches Err(e) && e@ is DecodeError,
        },
{
    match parse_text_map(bytes) {
        Ok(entries) => manifest_from_parsed(Some(entries), String::new()),
        Err(e) => manifest_from_parsed(None, json_error_text(&e)),
    }
}

/// The list that a decoded array stands for: an error where decoding failed,
/// with `detail` as its text.
pub fn clients_from_parsed(parsed: Option<Vec<String>>, detail: String) -> (r: Result<
    Vec<String>,
    InstallError,
>)
    ensures
        match parsed {
            Some(items) => r matches Ok(list) && list == items,
            None => r matches Err(e) && e@ == ErrorModel::DecodeError(detail@),
        },
{
    match parsed {
        Some(items) => Ok(items),
        None => Err(InstallError::DecodeError(detail)),
    }
}

/// Decodes the body of the list of valid clients: a JSON array of texts.
/// Anything else is a decode error.
pub fn decode_valid_clients(bytes: &[u8]) -> (r: Result<Vec<String>, InstallError>)
    ensures
        match json_text_list(bytes@) {
            Some(items) => r matches Ok(list) && texts(list@) == items,
            None => r matches Err(e) && e@ is DecodeError,
        },
{
    match parse_text_list(bytes) {
        Ok(items) => clients_from_parsed(Some(items), String::new()),
        Err(e) => clients_from_parsed(None, json_error_text(&e)),
    }
}

} // verus!
