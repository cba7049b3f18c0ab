//! Holders for the command lines that tasks hand to the outside command
//! runner: a generic shell invocation, its POSIX and Windows-style
//! specializations, and the cloud CLI.

use vstd::prelude::*;

verus! {

/// A command to run through an interpreter with `-c`.
pub struct Shell {
    pub shell: String,
    pub command: String,
}

impl Shell {
    /// A command for the named interpreter.
    pub fn new(shell: &str, command: &str) -> (r: Shell)
        ensures
            r.shell@ == shell@,
            r.command@ == command@,
    {
        Shell { shell: String::from_str(shell), command: String::from_str(command) }
    }
}

/// A command for the POSIX shell.
pub struct Bash {
    pub shell: Shell,
}

impl Bash {
    /// A command to run through `sh -c`.
    pub fn new(command: &str) -> (r: Bash)
        ensures
            r.shell.shell@ == "sh"@,
            r.shell.command@ == command@,
    {
        Bash { shell: Shell::new("sh", command) }
    }
}

/// A command for the Windows-style command shell.
pub struct WinCmd {
    pub shell: Shell,
}

impl WinCmd {
    /// A command to run through `cmd -c`.
    pub fn new(command: &str) -> (r: WinCmd)
        ensures
            r.shell.shell@ == "cmd"@,
            r.shell.command@ == command@,
    {
        WinCmd { shell: Shell::new("cmd", command) }
    }
}

/// A sub-command for the cloud provider's CLI binary.
pub struct AzCli {
    pub command: String,
}

impl AzCli {
    /// A cloud CLI invocation with the given sub-command text.
    pub fn new(command: &str) -> (r: AzCli)
        ensures
            r.command@ == command@,
    {
        AzCli { command: String::from_str(command) }
    }
}

/// Credentials for a cloud CLI login. The caller resolves empty fields
/// from its environment before construction.
pub struct AzLogin {
    pub client_id: String,
    pub secret: String,
    pub tenant: String,
}

impl AzLogin {
    /// A login request with the given service principal credentials.
    pub fn new(client_id: String, secret: String, tenant: String) -> (r: AzLogin)
        ensures
            r.client_id == client_id,
            r.secret == secret,
            r.tenant == tenant,
    {
        AzLogin { client_id, secret, tenant }
    }

    /// The login command line with the secret redacted, safe to display.
    pub fn display_line(&self) -> (r: String)
        ensures
            r@ == "az login --service-principal -u "@ + self.client_id@
                + " -p *** --tenant "@ + self.tenant@,
    {
        let mut s = String::from_str("az login --service-principal -u ");
        s.append(self.client_id.as_str());
        s.append(" -p *** --tenant ");
        s.append(self.tenant.as_str());
        proof {
            assert(s@ =~= "az login --service-principal -u "@ + self.client_id@
                + " -p *** --tenant "@ + self.tenant@);
        }
        s
    }
}

} // verus!
