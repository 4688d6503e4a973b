//! Launching an installed client.
//!
//! The executable of a client sits in the directory of its version: directly
//! in it for the one legacy year, in a subdirectory named after the year for
//! every other year. It is started with the address that negotiates the
//! session, the address of the join script and the authentication ticket.
//! On the native platform the executable is started itself; elsewhere it is
//! handed to a wrapper program, and the caller ends once the child runs.
//! Starting the process is left to the caller; this module says what to
//! start.

use vstd::prelude::*;
use vstd::string::*;
use crate::error::{ErrorModel, InstallError};
use crate::segments::texts;
use crate::text::{joined, same_text};
use crate::tree::PathIndex;

verus! {

/// How executables are started on the machine.
#[derive(Debug, Clone, Copy, PartialEq, Eq, Structural)]
pub enum Platform {
    /// The executable runs as it is.
    Native,
    /// The executable runs through a wrapper program.
    Compatibility,
}

/// What a launch needs to know beside the client itself.
pub struct LaunchConfig {
    /// The year whose executable sits directly in the version directory.
    pub legacy_year: String,
    /// File name of the executable.
    pub executable: String,
    /// Address that negotiates the session.
    pub authentication_url: String,
    /// Program that runs the executable where it cannot run as it is.
    pub wrapper: String,
}

/// A process to start: the program, its arguments, and whether the caller
/// ends once the child runs.
pub struct LaunchCommand {
    pub program: String,
    pub args: Vec<String>,
    pub exit_after_spawn: bool,
}

/// Where the executable of the client of `year` sits below `version_dir`.
pub open spec fn executable_of(
    legacy_year: Seq<char>,
    executable: Seq<char>,
    version_dir: Seq<char>,
    year: Seq<char>,
) -> Seq<char> {
    if year == legacy_year {
        version_dir + seq!['/'] + executable
    } else {
        version_dir + seq!['/'] + ("Client"@ + year) + seq!['/'] + executable
    }
}

/// The arguments that every launch hands to the executable.
pub open spec fn flags_of(
    authentication_url: Seq<char>,
    ticket: Seq<char>,
    join_script: Seq<char>,
) -> Seq<Seq<char>> {
    seq![
        "--play"@,
        "--authenticationUrl"@,
        authentication_url,
        "--joinScriptUrl"@,
        join_script,
        "--authenticationTicket"@,
        ticket,
    ]
}

/// The program of a launch of the executable at `path`.
pub open spec fn program_of(platform: Platform, wrapper: Seq<char>, path: Seq<char>) -> Seq<char> {
    match platform {
        Platform::Native => path,
        Platform::Compatibility => wrapper,
    }
}

/// The arguments of a launch of the executable at `path` with the flags
/// `flags`.
pub open spec fn arguments_of(platform: Platform, path: Seq<char>, flags: Seq<Seq<char>>) -> Seq<
    Seq<char>,
> {
    match platform {
        Platform::Native => flags,
        Platform::Compatibility => seq![path] + flags,
    }
}

impl LaunchConfig {
    /// Where the executable of the client of `year` sits below
    /// `version_dir`: directly in it for the legacy year, in `Client<year>`
    /// for any other.
    pub fn executable_path(&self, version_dir: &str, year: &str) -> (path: String)
        ensures
            path@ == executable_of(self.legacy_year@, self.executable@, version_dir@, year@),
    {
        if same_text(year, self.legacy_year.as_str()) {
            joined(version_dir, self.executable.as_str())
        } else {
            let mut folder = String::from_str("Client");
            folder.append(year);
            let dir = joined(version_dir, folder.as_str());
            joined(dir.as_str(), self.executable.as_str())
        }
    }

    /// The arguments that every launch hands to the executable.
    pub fn launch_flags(&self, ticket: &str, join_script: &str) -> (flags: Vec<String>)
        ensures
            texts(flags@) == flags_of(self.authentication_url@, ticket@, join_script@),
    {
        let mut flags: Vec<String> = Vec::new();
        flags.push(String::from_str("--play"));
        flags.push(String::from_str("--authenticationUrl"));
        flags.push(self.authentication_url.clone());
        flags.push(String::from_str("--joinScriptUrl"));
        flags.push(String::from_str(join_script));
        flags.push(String::from_str("--authenticationTicket"));
        flags.push(String::from_str(ticket));
        assert(texts(flags@) =~= flags_of(self.authentication_url@, ticket@, join_script@));
        flags
    }

    /// The process that launches the executable at `path`.
    pub fn command_for(&self, platform: Platform, path: String, ticket: &str, join_script: &str) -> (command:
        LaunchCommand)
        ensures
            command.program@ == program_of(platform, self.wrapper@, path@),
            texts(command.args@) == arguments_of(
                platform,
                path@,
                flags_of(self.authentication_url@, ticket@, join_script@),
            ),
            command.exit_after_spawn == (platform == Platform::Compatibility),
    {
        let mut flags = self.launch_flags(ticket, join_script);
        let ghost plain = texts(flags@);
        match platform {
            Platform::Native => LaunchCommand { program: path, args: flags, exit_after_spawn: false },
            Platform::Compatibility => {
                let mut args: Vec<String> = Vec::new();
                let ghost shown = path@;
                args.push(path);
                args.append(&mut flags);
                assert(texts(args@) =~= seq![shown] + plain);
                LaunchCommand { program: self.wrapper.clone(), args, exit_after_spawn: true }
            },
        }
    }

    /// The process that launches the client of `year` installed in
    /// `version_dir`, or the error that its executable is missing where
    /// `index` does not know it to exist.
    pub fn launch(
        &self,
        index: &PathIndex,
        platform: Platform,
        version_dir: &str,
        year: &str,
        ticket: &str,
        join_script: &str,
    ) -> (r: Result<LaunchCommand, InstallError>)
        ensures
            ({
                let path = executable_of(self.legacy_year@, self.executable@, version_dir@, year@);
                match r {
                    Ok(command) => {
                        &&& index@.contains(path)
                        &&& command.program@ == program_of(platform, self.wrapper@, path)
                        &&& texts(command.args@) == arguments_of(
                            platform,
                            path,
                            flags_of(self.authentication_url@, ticket@, join_script@),
                        )
                        &&& command.exit_after_spawn == (platform == Platform::Compatibility)
                    },
                    Err(e) => !index@.contains(path) && e@ == ErrorModel::MissingExecutable(path),
                }
            }),
    {
        let path = self.executable_path(version_dir, year);
        if index.contains(path.as_str()) {
            Ok(self.command_for(platform, path, ticket, join_script))
        } else {
            Err(InstallError::MissingExecutable(path))
        }
    }
}

/// For the legacy year the executable sits directly in the version
/// directory; for any other year the directory `Client<year>` stands
/// between the two.
pub proof fn lemma_executable_location(
    legacy_year: Seq<char>,
    executable: Seq<char>,
    version_dir: Seq<char>,
    year: Seq<char>,
)
    ensures
        year == legacy_year ==> executable_of(legacy_year, executable, version_dir, year)
            == version_dir + seq!['/'] + executable,
        year != legacy_year ==> executable_of(legacy_year, executable, version_dir, year)
            == version_dir + seq!['/'] + "Client"@ + year + seq!['/'] + executable,
{
    if year != legacy_year {
        assert(version_dir + seq!['/'] + ("Client"@ + year) + seq!['/'] + executable
            =~= version_dir + seq!['/'] + "Client"@ + year + seq!['/'] + executable);
    }
}

} // verus!
