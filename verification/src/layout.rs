//! Where an install lives on disk.
//!
//! Everything is kept below the application directory of the user's local
//! data directory:
//!
//! ```text
//! <local data>/Syntax/Downloads
//! <local data>/Syntax/Versions/<version>/...
//! <local data>/Syntax/Clients/<year>/<version>/...
//! ```
//!
//! Each resolver names one of these directories and prepares it: what it
//! returns exists once the directories it lists have been created.

use vstd::prelude::*;
use vstd::string::*;
use crate::error::{ErrorModel, InstallError};
use crate::planner::{lemma_prepare_idempotent, lemma_settled_grows, missing, settled};
use crate::segments::{lemma_head_len_bound, segments, texts};
use crate::tree::{directory_chain, lemma_chain_last, target, PathIndex};

verus! {

/// The application directory, relative to the local data directory.
pub open spec fn root_rel() -> Seq<char> {
    crate::APP_NAME@
}

/// The directory of staged downloads, relative to the local data directory.
pub open spec fn downloads_rel() -> Seq<char> {
    "Syntax/Downloads"@
}

/// The directory of all versions, relative to the local data directory.
pub open spec fn versions_rel() -> Seq<char> {
    "Syntax/Versions"@
}

/// The directory of all clients, relative to the local data directory.
pub open spec fn clients_rel() -> Seq<char> {
    "Syntax/Clients"@
}

/// The directory of one version, relative to the local data directory.
pub open spec fn version_rel(version: Seq<char>) -> Seq<char> {
    "Syntax/Versions/"@ + version
}

/// The directory of the clients of one year, relative to the local data
/// directory.
pub open spec fn client_year_rel(year: Seq<char>) -> Seq<char> {
    "Syntax/Clients/"@ + year
}

/// The directory of one client, relative to the local data directory.
pub open spec fn client_rel(year: Seq<char>, version: Seq<char>) -> Seq<char> {
    "Syntax/Clients/"@ + year + seq!['/'] + version
}

/// A relative path that begins with a character other than the separator
/// has a segment.
pub proof fn lemma_has_segment(rel: Seq<char>)
    requires
        rel.len() > 0,
        rel[0] != '/',
    ensures
        segments(rel).len() > 0,
{
    lemma_head_len_bound(rel);
}

/// A directory that a resolver named, with the directories to create so that
/// it exists, in the order in which to create them.
pub struct Resolved {
    pub path: String,
    pub created: Vec<String>,
}

/// Whether `r` is what preparing `rel` below `base` gives when exactly the
/// paths of `before` exist.
pub open spec fn resolves(r: Resolved, before: Set<Seq<char>>, base: Seq<char>, rel: Seq<char>) -> bool {
    &&& r.path@ == target(base, rel)
    &&& texts(r.created@) == missing(before, base, rel)
}

/// The directory that `rel` names below `base`.
pub fn target_path(base: &str, rel: &str) -> (path: String)
    ensures
        path@ == target(base@, rel@),
{
    let dirs = directory_chain(base, rel);
    if dirs.len() == 0 {
        String::from_str(base)
    } else {
        proof {
            lemma_chain_last(base@, rel@);
            assert(texts(dirs@)[dirs.len() - 1] == dirs[dirs.len() - 1]@);
        }
        dirs[dirs.len() - 1].clone()
    }
}

/// The local data directory of the user, as `dirs::data_local_dir` reports
/// it; `None` where the system names none or its name is not valid text.
/// Nothing is claimed of the result: it depends on the environment.
#[verifier::external_body]
pub(crate) fn local_data_dir() -> (found: Option<String>) {
    match dirs::data_local_dir() {
        Some(path) => path.into_os_string().into_string().ok(),
        None => None,
    }
}

/// The install layout of one user: the directory tree below the application
/// directory of `local_data`.
pub struct InstallLayout {
    pub local_data: String,
}

impl InstallLayout {
    /// The layout below the local data directory `local_data`.
    pub fn new(local_data: &str) -> (layout: InstallLayout)
        ensures
            layout.local_data@ == local_data@,
    {
        InstallLayout { local_data: String::from_str(local_data) }
    }

    /// The layout for a local data directory that was looked up: an error
    /// where none was found.
    pub fn from_lookup(found: Option<String>) -> (r: Result<InstallLayout, InstallError>)
        ensures
            match found {
                Some(dir) => r matches Ok(layout) && layout.local_data@ == dir@,
                None => r matches Err(e) && e@ == ErrorModel::NoLocalDataDirectory,
            },
    {
        match found {
            Some(dir) => Ok(InstallLayout { local_data: dir }),
            None => Err(InstallError::NoLocalDataDirectory),
        }
    }

    /// The layout of the current user. It fails only where the system names
    /// no local data directory.
    pub fn locate() -> (r: Result<InstallLayout, InstallError>)
        ensures
            r matches Err(e) ==> e@ == ErrorModel::NoLocalDataDirectory,
    {
        InstallLayout::from_lookup(local_data_dir())
    }

    /// Prepares the directory that `rel` names below the local data
    /// directory.
    pub fn resolve(&self, index: &mut PathIndex, rel: &str) -> (r: Resolved)
        ensures
            resolves(r, old(index)@, self.local_data@, rel@),
            final(index)@ == settled(old(index)@, self.local_data@, rel@),
            segments(rel@).len() > 0 ==> final(index)@.contains(r.path@),
    {
        let path = target_path(self.local_data.as_str(), rel);
        proof {
            lemma_settled_grows(index@, self.local_data@, rel@);
        }
        let created = index.ensure_path(self.local_data.as_str(), rel);
        Resolved { path, created }
    }

    /// The application directory.
    pub fn get_root_folder(&self, index: &mut PathIndex) -> (r: Resolved)
        ensures
            resolves(r, old(index)@, self.local_data@, root_rel()),
            final(index)@ == settled(old(index)@, self.local_data@, root_rel()),
            final(index)@.contains(r.path@),
    {
        proof {
            reveal_strlit("Syntax");
            lemma_has_segment("Syntax"@);
        }
        self.resolve(index, crate::APP_NAME)
    }

    /// The directory in which downloads are staged.
    pub fn get_downloads_folder(&self, index: &mut PathIndex) -> (r: Resolved)
        ensures
            resolves(r, old(index)@, self.local_data@, downloads_rel()),
            final(index)@ == settled(old(index)@, self.local_data@, downloads_rel()),
            final(index)@.contains(r.path@),
    {
        proof {
            reveal_strlit("Syntax/Downloads");
            lemma_has_segment("Syntax/Downloads"@);
        }
        self.resolve(index, "Syntax/Downloads")
    }

    /// The directory that holds one directory per version.
    pub fn get_versions_folder(&self, index: &mut PathIndex) -> (r: Resolved)
        ensures
            resolves(r, old(index)@, self.local_data@, versions_rel()),
            final(index)@ == settled(old(index)@, self.local_data@, versions_rel()),
            final(index)@.contains(r.path@),
    {
        proof {
            reveal_strlit("Syntax/Versions");
            lemma_has_segment("Syntax/Versions"@);
        }
        self.resolve(index, "Syntax/Versions")
    }

    /// The directory that holds one directory per client year.
    pub fn get_clients_folder(&self, index: &mut PathIndex) -> (r: Resolved)
        ensures
            resolves(r, old(index)@, self.local_data@, clients_rel()),
            final(index)@ == settled(old(index)@, self.local_data@, clients_rel()),
            final(index)@.contains(r.path@),
    {
        proof {
            reveal_strlit("Syntax/Clients");
            lemma_has_segment("Syntax/Clients"@);
        }
        self.resolve(index, "Syntax/Clients")
    }

    /// The directory of the version `version`.
    pub fn get_version_folder(&self, index: &mut PathIndex, version: &str) -> (r: Resolved)
        ensures
            resolves(r, old(index)@, self.local_data@, version_rel(version@)),
            final(index)@ == settled(old(index)@, self.local_data@, version_rel(version@)),
            final(index)@.contains(r.path@),
    {
        let mut rel = String::from_str("Syntax/Versions/");
        rel.append(version);
        proof {
            reveal_strlit("Syntax/Versions/");
            lemma_has_segment(rel@);
        }
        self.resolve(index, rel.as_str())
    }

    /// The directory of the clients of the year `year`.
    pub fn get_client_year_folder(&self, index: &mut PathIndex, year: &str) -> (r: Resolved)
        ensures
            resolves(r, old(index)@, self.local_data@, client_year_rel(year@)),
            final(index)@ == settled(old(index)@, self.local_data@, client_year_rel(year@)),
            final(index)@.contains(r.path@),
    {
        let mut rel = String::from_str("Syntax/Clients/");
        rel.append(year);
        proof {
            reveal_strlit("Syntax/Clients/");
            lemma_has_segment(rel@);
        }
        self.resolve(index, rel.as_str())
    }

    /// The directory of the client of the year `year` in the version
    /// `version`.
    pub fn get_client_folder(&self, index: &mut PathIndex, year: &str, version: &str) -> (r:
        Resolved)
        ensures
            resolves(r, old(index)@, self.local_data@, client_rel(year@, version@)),
            final(index)@ == settled(old(index)@, self.local_data@, client_rel(year@, version@)),
            final(index)@.contains(r.path@),
    {
        let mut rel = String::from_str("Syntax/Clients/");
        rel.append(year);
        rel.append("/");
        rel.append(version);
        proof {
            reveal_strlit("Syntax/Clients/");
            reveal_strlit("/");
            assert("/"@ =~= seq!['/']);
            lemma_has_segment(rel@);
        }
        self.resolve(index, rel.as_str())
    }
}

/// Resolving the directory of a version twice gives the same path both
/// times, and the second time creates nothing.
pub proof fn lemma_version_folder_idempotent(
    t: Set<Seq<char>>,
    local_data: Seq<char>,
    version: Seq<char>,
    first: Resolved,
    second: Resolved,
)
    requires
        resolves(first, t, local_data, version_rel(version)),
        resolves(second, settled(t, local_data, version_rel(version)), local_data, version_rel(version)),
    ensures
        second.path@ == first.path@,
        texts(second.created@) == Seq::<Seq<char>>::empty(),
        settled(settled(t, local_data, version_rel(version)), local_data, version_rel(version))
            == settled(t, local_data, version_rel(version)),
{
    lemma_prepare_idempotent(t, local_data, version_rel(version));
}

} // verus!
