//! The error taxonomy: every failure is a tagged value carrying the context
//! (argument vector, captured streams, identifiers) it was detected with.

use vstd::prelude::*;

verus! {

/// Raised where input is expected from a path or standard input and neither
/// is available.
#[derive(Debug)]
pub struct MissingInputPathOrStdinError {}

impl MissingInputPathOrStdinError {
    pub fn new() -> (r: Self)
        ensures
            r == (MissingInputPathOrStdinError {  }),
    {
        MissingInputPathOrStdinError {  }
    }
}

/// Everything that can go wrong during one invocation, with the context the
/// failure was detected under. Every error is terminal for the invocation.
#[derive(Debug)]
pub enum Error {
    /// The external command could not be spawned at all.
    ProcessExecution { command: String },
    /// The external command exited with a non-zero status; both captured
    /// streams travel with the error.
    CommandExecutionFailed { command: String, stdout: String, stderr: String },
    /// A captured stream was not valid text.
    ParseStream { stream: String },
    /// The command succeeded but its output was not the structure the caller
    /// depends on; the raw output travels with the error.
    ParseCommandOutput { command: String, stdout: String },
    /// A guest id that the inventory does not know.
    UnknownGuest { guest_id: String },
    /// A network id that the inventory does not know.
    UnknownNetwork { network_id: String },
    /// A snapshot id that the guest-level snapshot set does not contain.
    UnknownSnapshot { guest_id: String, snapshot_id: String },
    /// A snapshot id that some disk already carries.
    DuplicateSnapshot { guest_id: String, disk_id: String, snapshot_id: String },
    /// A guest-direct operation was asked of a guest with no configured
    /// IP address.
    MissingIpAddressConfiguration { guest_id: String },
    /// A path that does not name a regular file.
    InvalidFile { path: String },
    /// Input was expected from a path or standard input and neither is there.
    MissingInputPathOrStdin { inner: MissingInputPathOrStdinError },
    /// A line could not be written to the guest's monitor socket.
    MonitorCommand { monitor_socket_path: String, command: String },
}

impl Error {
    /// The single formatted line (or lines, for command failures) an operator
    /// is shown for this error.
    pub open spec fn message_spec(self) -> Seq<char> {
        match self {
            Error::ProcessExecution { command } => "Failed to run '"@ + command@ + "'"@,
            Error::CommandExecutionFailed { command, stdout, stderr } => "Failed to run '"@
                + command@ + "'\n"@ + (if stdout@.len() > 0 {
                "\nstdout:\n"@ + stdout@
            } else {
                Seq::empty()
            }) + (if stderr@.len() > 0 {
                "\nstderr:\n"@ + stderr@
            } else {
                Seq::empty()
            }),
            Error::ParseStream { stream } => "Failed to parse '"@ + stream@ + "' stream"@,
            Error::ParseCommandOutput { command, stdout } => "Failed to parse output of '"@
                + command@ + "'\n"@ + (if stdout@.len() > 0 {
                "\nstdout:\n"@ + stdout@
            } else {
                Seq::empty()
            }),
            Error::UnknownGuest { guest_id } => "Unknown guest '"@ + guest_id@ + "'"@,
            Error::UnknownNetwork { network_id } => "unknown network '"@ + network_id@ + "'"@,
            Error::UnknownSnapshot { guest_id, snapshot_id } => "unknown snapshot '"@
                + snapshot_id@ + "' for guest '"@ + guest_id@ + "'"@,
            Error::DuplicateSnapshot { guest_id, disk_id, snapshot_id } => "Disk '"@ + disk_id@
                + "' of guest '"@ + guest_id@ + "' already contains snapshot '"@ + snapshot_id@
                + "'"@,
            Error::MissingIpAddressConfiguration { guest_id } => {
                "IP address is not configured for guest '"@ + guest_id@ + "'"@
            },
            Error::InvalidFile { path } => "'"@ + path@ + "' is not a file"@,
            Error::MissingInputPathOrStdin { inner } => "missing input path or STDIN data"@,
            Error::MonitorCommand { monitor_socket_path, command } => "Failed to issue command '"@
                + command@ + "' to monitor socket '"@ + monitor_socket_path@ + "'"@,
        }
    }

    /// Renders the operator-facing message.
    pub fn message(&self) -> (r: String)
        ensures
            r@ == self.message_spec(),
    {
        match self {
            Error::ProcessExecution { command } => {
                let mut s = "Failed to run '".to_owned();
                s.append(command.as_str());
                s.append("'");
                s
            },
            Error::CommandExecutionFailed { command, stdout, stderr } => {
                let mut s = "Failed to run '".to_owned();
                s.append(command.as_str());
                s.append("'\n");
                if stdout.as_str().unicode_len() > 0 {
                    s.append("\nstdout:\n");
                    s.append(stdout.as_str());
                }
                if stderr.as_str().unicode_len() > 0 {
                    s.append("\nstderr:\n");
                    s.append(stderr.as_str());
                }
                proof {
                    assert(s@ =~= self.message_spec());
                }
                s
            },
            Error::ParseStream { stream } => {
                let mut s = "Failed to parse '".to_owned();
                s.append(stream.as_str());
                s.append("' stream");
                s
            },
            Error::ParseCommandOutput { command, stdout } => {
                let mut s = "Failed to parse output of '".to_owned();
                s.append(command.as_str());
                s.append("'\n");
                if stdout.as_str().unicode_len() > 0 {
                    s.append("\nstdout:\n");
                    s.append(stdout.as_str());
                }
                proof {
                    assert(s@ =~= self.message_spec());
                }
                s
            },
            Error::UnknownGuest { guest_id } => {
                let mut s = "Unknown guest '".to_owned();
                s.append(guest_id.as_str());
                s.append("'");
                s
            },
            Error::UnknownNetwork { network_id } => {
                let mut s = "unknown network '".to_owned();
                s.append(network_id.as_str());
                s.append("'");
                s
            },
            Error::UnknownSnapshot { guest_id, snapshot_id } => {
                let mut s = "unknown snapshot '".to_owned();
                s.append(snapshot_id.as_str());
                s.append("' for guest '");
                s.append(guest_id.as_str());
                s.append("'");
                s
            },
            Error::DuplicateSnapshot { guest_id, disk_id, snapshot_id } => {
                let mut s = "Disk '".to_owned();
                s.append(disk_id.as_str());
                s.append("' of guest '");
                s.append(guest_id.as_str());
                s.append("' already contains snapshot '");
                s.append(snapshot_id.as_str());
                s.append("'");
                s
            },
            Error::MissingIpAddressConfiguration { guest_id } => {
                let mut s = "IP address is not configured for guest '".to_owned();
                s.append(guest_id.as_str());
                s.append("'");
                s
            },
            Error::InvalidFile { path } => {
                let mut s = "'".to_owned();
                s.append(path.as_str());
                s.append("' is not a file");
                s
            },
            Error::MissingInputPathOrStdin { inner } => {
                "missing input path or STDIN data".to_owned()
            },
            Error::MonitorCommand { monitor_socket_path, command } => {
                let mut s = "Failed to issue command '".to_owned();
                s.append(command.as_str());
                s.append("' to monitor socket '");
                s.append(monitor_socket_path.as_str());
                s.append("'");
                s
            },
        }
    }
}

} // verus!
