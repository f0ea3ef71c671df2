//! Where the manager's directories live.

use vstd::prelude::*;

use crate::error::SkmError;

verus! {

/// Relies on `directories::BaseDirs::new` and `home_dir`: the user's home
/// directory, where the platform defines one. The answer depends on the
/// environment, so nothing is promised of it.
#[verifier::external_body]
fn home_directory() -> (r: Option<String>)
{
    directories::BaseDirs::new().map(|d| d.home_dir().to_string_lossy().to_string())
}

/// The two directories the manager works with: the key directory it manages
/// and the directory backups default to.
#[derive(Debug)]
pub struct Config {
    pub ssh_dir: String,
    pub export_dir: String,
}

impl Config {
    /// The customary places under the user's home directory: `.ssh` for the
    /// keys, `.skm` for backups. Falls back to `~` when no home is known.
    pub fn new() -> (r: Config)
        ensures
            r.ssh_dir@.len() >= 5 && r.ssh_dir@.skip(r.ssh_dir@.len() - 5) == "/.ssh"@,
            r.export_dir@.len() >= 5 && r.export_dir@.skip(r.export_dir@.len() - 5) == "/.skm"@,
    {
        let home = match home_directory() {
            Some(h) => h,
            None => String::from_str("~"),
        };
        let mut ssh_dir = home.clone();
        ssh_dir.append("/.ssh");
        let mut export_dir = home;
        export_dir.append("/.skm");
        proof {
            reveal_strlit("/.ssh");
            reveal_strlit("/.skm");
            assert(ssh_dir@.skip(ssh_dir@.len() - 5) =~= "/.ssh"@);
            assert(export_dir@.skip(export_dir@.len() - 5) =~= "/.skm"@);
        }
        Config { ssh_dir, export_dir }
    }

    /// A configuration over a caller-chosen key directory; `dir_exists` says
    /// whether that directory is there, and a missing one is refused.
    pub fn from_ssh_dir(path: &str, dir_exists: bool) -> (r: Result<Config, SkmError>)
        ensures
            dir_exists ==> (r matches Ok(c) && c.ssh_dir@ == path@ && c.export_dir@.len() >= 5
                && c.export_dir@.skip(c.export_dir@.len() - 5) == "/.skm"@),
            !dir_exists ==> (r matches Err(e) && e is Config && e->Config_0@
                == "SSH directory does not exist: "@ + path@),
    {
        if dir_exists {
            Ok(Config { ssh_dir: path.to_owned(), export_dir: Config::new().export_dir })
        } else {
            let mut message = String::from_str("SSH directory does not exist: ");
            message.append(path);
            Err(SkmError::Config(message))
        }
    }
}

impl Default for Config {
    /// The same directories as [`Config::new`].
    fn default() -> (r: Config)
        ensures
            r.ssh_dir@.len() >= 5 && r.ssh_dir@.skip(r.ssh_dir@.len() - 5) == "/.ssh"@,
    {
        Config::new()
    }
}

} // verus!
