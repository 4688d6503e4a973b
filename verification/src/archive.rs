//! Archives: what to download, where to stage it, where to extract it.
//!
//! An archive is downloaded to a staging file in the downloads directory
//! and extracted from there into its target directory. The staging file has
//! a random name, so that two installs that run at once do not write to the
//! same file. Downloading and extracting are left to the caller; this module
//! decides the names.

use rand::Rng;
use vstd::prelude::*;
use vstd::string::*;
use crate::manifest::{setup_file_url, setup_url};
use crate::text::joined;

verus! {

/// One archive of a full install: the name of its file on the setup host,
/// and the directory it is extracted to, relative to the directory of the
/// version.
pub struct ArchiveDescriptor {
    pub file_name: String,
    pub target: String,
}

/// Whether `c` is an ASCII letter or digit.
pub open spec fn is_alphanumeric(c: char) -> bool {
    ('a' <= c && c <= 'z') || ('A' <= c && c <= 'Z') || ('0' <= c && c <= '9')
}

/// Whether `s` can be the random part of a staging name: ten ASCII letters
/// and digits.
pub open spec fn is_token(s: Seq<char>) -> bool {
    &&& s.len() == 10
    &&& forall|i: int| 0 <= i < s.len() ==> is_alphanumeric(#[trigger] s[i])
}

/// The name of the staging file with the random part `token`.
pub open spec fn staging_name(token: Seq<char>) -> Seq<char> {
    token + ".zip"@
}

/// Ten random characters from `rand`'s `Alphanumeric` distribution, drawn
/// from the generator of the current thread. Which characters come is left
/// open; each is an ASCII letter or digit, as the distribution documents.
#[verifier::external_body]
fn random_token() -> (token: String)
    ensures
        is_token(token@),
{
    rand::thread_rng().sample_iter(&rand::distributions::Alphanumeric).take(10).map(
        char::from,
    ).collect()
}

/// The name of the staging file with the random part `token`.
pub fn staging_file_name(token: &str) -> (name: String)
    ensures
        name@ == staging_name(token@),
{
    let mut name = String::from_str(token);
    name.append(".zip");
    name
}

/// A staging name with a fresh random part.
pub fn fresh_staging_name() -> (name: String)
    ensures
        exists|token: Seq<char>| is_token(token) && name@ == staging_name(token),
{
    let token = random_token();
    staging_file_name(token.as_str())
}

/// A staging name holds no separator: joined to the downloads directory it
/// names a file directly in it.
pub proof fn lemma_staging_name_plain(token: Seq<char>)
    requires
        is_token(token),
    ensures
        staging_name(token).len() == 14,
        forall|i: int| 0 <= i < 14 ==> #[trigger] staging_name(token)[i] != '/',
{
    reveal_strlit(".zip");
    let name = staging_name(token);
    assert forall|i: int| 0 <= i < 14 implies #[trigger] name[i] != '/' by {
        if i < 10 {
            assert(is_alphanumeric(token[i]));
        }
    }
}

/// One download: the address to fetch, the file to stage the body in, and
/// the directory to extract it to.
pub struct FetchJob {
    pub url: String,
    pub staging_file: String,
    pub target: String,
}

/// Whether `job` downloads `url` into `target` by way of the staging file
/// with the random part `token` in `downloads`.
pub open spec fn is_job(
    job: FetchJob,
    url: Seq<char>,
    downloads: Seq<char>,
    target: Seq<char>,
    token: Seq<char>,
) -> bool {
    &&& job.url@ == url
    &&& job.staging_file@ == downloads + seq!['/'] + staging_name(token)
    &&& job.target@ == target
}

/// The download of `url` into `target`, staged in `downloads` under the
/// name with the random part `token`.
pub fn staged_fetch(url: &str, downloads: &str, target: &str, token: &str) -> (job: FetchJob)
    ensures
        is_job(job, url@, downloads@, target@, token@),
{
    let name = staging_file_name(token);
    FetchJob {
        url: String::from_str(url),
        staging_file: joined(downloads, name.as_str()),
        target: String::from_str(target),
    }
}

/// The download of `url` into `target`, staged in `downloads` under a fresh
/// random name.
pub fn download_and_extract(url: &str, downloads: &str, target: &str) -> (job: FetchJob)
    ensures
        exists|token: Seq<char>| is_token(token) && is_job(job, url@, downloads@, target@, token),
{
    let token = random_token();
    staged_fetch(url, downloads, target, token.as_str())
}

/// The download of the file `file_name` of the setup host into the
/// downloads directory, under its own name.
pub fn download_zip(file_name: &str, downloads: &str) -> (r: (String, String))
    ensures
        r.0@ == setup_url(file_name@),
        r.1@ == downloads@ + seq!['/'] + file_name@,
{
    (setup_file_url(file_name), joined(downloads, file_name))
}

} // verus!
