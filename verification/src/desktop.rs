//! Registering the launcher as the handler of its address scheme.
//!
//! On a desktop that follows the XDG conventions two things make the
//! launcher the handler of `syntax-player:` addresses: a desktop entry that
//! describes the program, and a line in each file of default applications
//! that names that entry for the scheme. Writing the files is left to the
//! caller; this module says where they are and what they hold.

use vstd::prelude::*;
use vstd::string::*;
use crate::error::{message_of, ErrorModel, InstallError};
use crate::manifest::{distinct_names, pairs};
use crate::text::{contains_text, joined, occurs_in, replace_text, replaced};

verus! {

/// File name of the desktop entry.
pub const DESKTOP_FILE: &'static str = "syntax-player.desktop";

/// The scheme that the launcher handles, as a kind of content.
pub const SCHEME_HANDLER: &'static str = "x-scheme-handler/syntax-player";

/// The line that opens the section of default applications.
pub const DEFAULT_APPLICATIONS: &'static str = "[Default Applications]\n";

/// A desktop entry file: its one section.
pub struct Entry {
    pub desktop: Desktop,
}

/// The keys of the section `Desktop Entry`, in the order in which they are
/// written.
pub struct Desktop {
    pub name: String,
    pub command: String,
    pub terminal: String,
    pub app_type: String,
    pub mime_type: String,
    pub icon: String,
    pub startup_wm_class: String,
    pub categories: String,
    pub comment: String,
}

/// A file of default applications: which desktop entry handles which kind
/// of content.
pub struct Mimetypes {
    pub default_apps: Vec<(String, String)>,
}

/// Whether `entry` describes the launcher installed at `location`.
pub open spec fn describes_launcher(entry: Entry, location: Seq<char>) -> bool {
    &&& entry.desktop.name@ == "SYNTAX"@
    &&& entry.desktop.command@ == location + " %u"@
    &&& entry.desktop.terminal@ == "false"@
    &&& entry.desktop.app_type@ == "Application"@
    &&& entry.desktop.mime_type@ == "x-scheme-handler/syntax-player;"@
    &&& entry.desktop.icon@ == location
    &&& entry.desktop.startup_wm_class@ == "SyntaxLauncher"@
    &&& entry.desktop.categories@ == "Game;"@
    &&& entry.desktop.comment@ == "Syntax Launcher"@
}

/// The desktop entry of the launcher installed at `location`; an error,
/// shown as "Couldnt locate the binary", where the location of the running
/// program is not known as text.
pub fn generate_desktop_entry(location: Option<&str>) -> (r: Result<Entry, InstallError>)
    ensures
        match location {
            Some(path) => r matches Ok(entry) && describes_launcher(entry, path@),
            None => r matches Err(e) && e@ == ErrorModel::MissingExecutable(Seq::<char>::empty())
                && message_of(e@) == "Couldnt locate the binary"@,
        },
{
    match location {
        Some(path) => {
            let mut command = String::from_str(path);
            command.append(" %u");
            Ok(
                Entry {
                    desktop: Desktop {
                        name: String::from_str("SYNTAX"),
                        command,
                        terminal: String::from_str("false"),
                        app_type: String::from_str("Application"),
                        mime_type: String::from_str("x-scheme-handler/syntax-player;"),
                        icon: String::from_str(path),
                        startup_wm_class: String::from_str("SyntaxLauncher"),
                        categories: String::from_str("Game;"),
                        comment: String::from_str("Syntax Launcher"),
                    },
                },
            )
        },
        None => Err(crate::error::CouldntLocateExe.into_error()),
    }
}

impl Mimetypes {
    /// The entries, each a kind of content and the desktop entry that
    /// handles it.
    pub open spec fn entries(&self) -> Seq<(Seq<char>, Seq<char>)> {
        pairs(self.default_apps@)
    }

    /// Whether no kind of content occurs twice: the file maps each kind to
    /// one desktop entry.
    pub open spec fn distinct_kinds(&self) -> bool {
        distinct_names(self.entries())
    }
}

/// The file of default applications that names the launcher for its scheme.
pub fn default_mimetypes() -> (m: Mimetypes)
    ensures
        m.entries() == seq![(SCHEME_HANDLER@, DESKTOP_FILE@)],
        m.distinct_kinds(),
{
    let mut default_apps: Vec<(String, String)> = Vec::new();
    default_apps.push((String::from_str(SCHEME_HANDLER), String::from_str(DESKTOP_FILE)));
    let m = Mimetypes { default_apps };
    assert(m.entries() =~= seq![(SCHEME_HANDLER@, DESKTOP_FILE@)]);
    m
}

/// The line that `serde_ini` writes for one key and its value.
pub open spec fn ini_line(key: Seq<char>, value: Seq<char>) -> Seq<char> {
    key + "="@ + value + "\r\n"@
}

/// Writes a map of the one key `key` and its value with
/// `serde_ini::to_string`. For a map from text to text at the top level the
/// serializer writes one line per entry: the key, `=`, the value and its
/// line ending, which is a carriage return and a line feed. Writing to
/// memory does not fail.
#[verifier::external_body]
fn ini_of_entry(key: &str, value: &str) -> (r: Option<String>)
    ensures
        match r {
            Some(text) => text@ == ini_line(key@, value@),
            None => false,
        },
{
    let mut values = std::collections::HashMap::new();
    values.insert(key.to_string(), value.to_string());
    serde_ini::to_string(&values).ok()
}

/// The line that names the launcher as the handler of its scheme.
pub fn generate_mimetypes_str() -> (r: Result<String, InstallError>)
    ensures
        r matches Ok(line) && line@ == ini_line(SCHEME_HANDLER@, DESKTOP_FILE@),
{
    match ini_of_entry(SCHEME_HANDLER, DESKTOP_FILE) {
        Some(line) => Ok(line),
        None => Err(InstallError::DecodeError(String::from_str("the line could not be written"))),
    }
}

/// What a new file of default applications holds.
pub open spec fn created_mimetypes(line: Seq<char>) -> Seq<char> {
    DEFAULT_APPLICATIONS@ + line
}

/// What a new file of default applications holds: the section with `line`
/// in it.
pub fn create_mimetypes(line: &str) -> (content: String)
    ensures
        content@ == created_mimetypes(line@),
{
    let mut content = String::from_str(DEFAULT_APPLICATIONS);
    content.append(line);
    content
}

/// What to write to a file of default applications so that it holds `line`.
/// `old` is what the file holds now, `None` if there is no such file. The
/// answer is `None` where nothing is to be written, because the line is
/// there already. A new file gets the section with the line in it; an
/// existing one gets the line right after the line that opens the section,
/// and is refused where no line opens it.
pub fn add_to_mimetypes(old: Option<&str>, line: &str) -> (r: Result<Option<String>, InstallError>)
    ensures
        match old {
            None => r matches Ok(Some(content)) && content@ == created_mimetypes(line@),
            Some(held) => if occurs_in(held@, line@) {
                r matches Ok(None)
            } else if !occurs_in(held@, DEFAULT_APPLICATIONS@) {
                r matches Err(e) && e@ == ErrorModel::NoDefaultApplicationsSection
            } else {
                r matches Ok(Some(content)) && content@ == replaced(
                    held@,
                    DEFAULT_APPLICATIONS@,
                    created_mimetypes(line@),
                )
            },
        },
{
    match old {
        None => Ok(Some(create_mimetypes(line))),
        Some(held) => {
            if contains_text(held, line) {
                Ok(None)
            } else if !contains_text(held, DEFAULT_APPLICATIONS) {
                Err(crate::error::CouldntFindDefault.into_error())
            } else {
                let section = create_mimetypes(line);
                Ok(Some(replace_text(held, DEFAULT_APPLICATIONS, section.as_str())))
            }
        },
    }
}

/// Where the desktop entry is written, below the local data directory
/// `data_dir`.
pub fn desktop_file_path(data_dir: &str) -> (path: String)
    ensures
        path@ == data_dir@ + seq!['/'] + "applications"@ + seq!['/'] + DESKTOP_FILE@,
{
    let dir = joined(data_dir, "applications");
    joined(dir.as_str(), DESKTOP_FILE)
}

/// Where the file of default applications is, in the directory `dir`.
pub fn mimeapps_path(dir: &str) -> (path: String)
    ensures
        path@ == dir@ + seq!['/'] + "mimeapps.list"@,
{
    joined(dir, "mimeapps.list")
}

/// The configuration directory of the user, as `dirs::config_dir` reports
/// it; `None` where the system names none or its name is not valid text.
/// Nothing is claimed of the result: it depends on the environment.
#[verifier::external_body]
fn config_dir() -> (found: Option<String>) {
    match dirs::config_dir() {
        Some(path) => path.into_os_string().into_string().ok(),
        None => None,
    }
}

/// The two files of default applications, given the configuration directory
/// and the local data directory that were looked up: an error where either
/// was not found.
pub fn mimetypes_files_from(config: Option<String>, data: Option<String>) -> (r: Result<
    (String, String),
    InstallError,
>)
    ensures
        match (config, data) {
            (Some(c), Some(d)) => r matches Ok(files) && files.0@ == c@ + seq!['/']
                + "mimeapps.list"@ && files.1@ == d@ + seq!['/'] + "mimeapps.list"@,
            _ => r matches Err(e) && e@ == ErrorModel::NoLocalDataDirectory,
        },
{
    match (config, data) {
        (Some(c), Some(d)) => Ok((mimeapps_path(c.as_str()), mimeapps_path(d.as_str()))),
        _ => Err(crate::error::CouldntGetFolder.into_error()),
    }
}

/// The two files of default applications of the current user: the one in
/// the configuration directory, then the one in the local data directory.
/// It fails only where the system names no configuration or local data
/// directory.
pub fn generate_mimetypes() -> (r: Result<(String, String), InstallError>)
    ensures
        match r {
            Ok(files) => is_mimeapps_file(files.0@) && is_mimeapps_file(files.1@),
            Err(e) => e@ == ErrorModel::NoLocalDataDirectory,
        },
{
    let config = config_dir();
    let data = crate::layout::local_data_dir();
    let ghost looked_up = (config, data);
    let r = mimetypes_files_from(config, data);
    proof {
        if r is Ok {
            let c = looked_up.0->0@;
            let d = looked_up.1->0@;
            assert(r->Ok_0.0@ == c + seq!['/'] + "mimeapps.list"@);
            assert(r->Ok_0.1@ == d + seq!['/'] + "mimeapps.list"@);
        }
    }
    r
}

/// The file of the desktop entry, given the local data directory that was
/// looked up: an error where it was not found.
pub fn desktop_file_from(data: Option<String>) -> (r: Result<String, InstallError>)
    ensures
        match data {
            Some(d) => r matches Ok(path) && path@ == d@ + seq!['/'] + "applications"@ + seq!['/']
                + DESKTOP_FILE@,
            None => r matches Err(e) && e@ == ErrorModel::NoLocalDataDirectory,
        },
{
    match data {
        Some(d) => Ok(desktop_file_path(d.as_str())),
        None => Err(crate::error::CouldntGetFolder.into_error()),
    }
}

/// The file of the desktop entry of the current user, in the directory of
/// applications of the local data directory. It fails only where the system
/// names no local data directory.
pub fn generate_desktop() -> (r: Result<String, InstallError>)
    ensures
        match r {
            Ok(path) => is_desktop_entry_file(path@),
            Err(e) => e@ == ErrorModel::NoLocalDataDirectory,
        },
{
    let data = crate::layout::local_data_dir();
    let ghost looked_up = data;
    let r = desktop_file_from(data);
    proof {
        if r is Ok {
            let d = looked_up->0@;
            assert(r->Ok_0@ == d + seq!['/'] + "applications"@ + seq!['/'] + DESKTOP_FILE@);
        }
    }
    r
}

/// Whether `path` names the file of default applications of some directory.
pub open spec fn is_mimeapps_file(path: Seq<char>) -> bool {
    exists|dir: Seq<char>| path == dir + seq!['/'] + "mimeapps.list"@
}

/// Whether `path` names the desktop entry below some data directory.
pub open spec fn is_desktop_entry_file(path: Seq<char>) -> bool {
    exists|dir: Seq<char>|
        path == dir + seq!['/'] + "applications"@ + seq!['/'] + DESKTOP_FILE@
}

} // verus!
