//! Moving files and scripts to a guest and running them: the input-source
//! decision, and the exact command sequences of the transfer operations.

use vstd::prelude::*;

use crate::command::Invocation;
use crate::command::InvocationModel;
use crate::config::App;
use crate::connection::GuestConnection;
use crate::connection::root_at;
use crate::connection::ssh_command_model;
use crate::connection::ssh_option_args;
use crate::connection::SSH_CONNECTION_TIMEOUT;
use crate::errors::Error;
use crate::errors::MissingInputPathOrStdinError;
use crate::paths::file_name;
use crate::paths::file_name_spec;

verus! {

/// The directory uploaded files are staged in on a guest.
pub fn guest_workspace_path() -> (r: String)
    ensures
        r@ == "/tmp"@,
{
    "/tmp".to_owned()
}

/// Where the bytes of a copy or script run come from: an explicit file, or
/// data already piped into the process.
#[derive(Clone, Copy, PartialEq, Eq, Structural, Debug)]
pub enum InputSource {
    FromPath,
    InheritedStdin,
}

/// Decides where input comes from: an explicit path must name a regular
/// file; without one, data must already be piped in — an interactive
/// terminal with no path is an error.
pub fn choose_input(
    source_path: &Option<String>,
    source_is_file: bool,
    stdin_is_terminal: bool,
) -> (r: Result<InputSource, Error>)
    ensures
        match r {
            Ok(source) => match source {
                InputSource::FromPath => source_path is Some && source_is_file,
                InputSource::InheritedStdin => source_path is None && !stdin_is_terminal,
            },
            Err(e) => match e {
                Error::InvalidFile { path } => source_path matches Some(p) && !source_is_file
                    && path@ == p@,
                Error::MissingInputPathOrStdin { .. } => source_path is None && stdin_is_terminal,
                _ => false,
            },
        },
{
    match source_path {
        Some(path) => {
            if source_is_file {
                Ok(InputSource::FromPath)
            } else {
                Err(Error::InvalidFile { path: path.clone() })
            }
        },
        None => {
            if !stdin_is_terminal {
                Ok(InputSource::InheritedStdin)
            } else {
                Err(Error::MissingInputPathOrStdin { inner: MissingInputPathOrStdinError::new() })
            }
        },
    }
}

/// The command that creates a copy target's enclosing folder on the guest:
/// the remote shell expands the directory name.
pub open spec fn copy_mkdir_model(destination: Seq<char>, target_path: Seq<char>
) -> InvocationModel {
    let base = ssh_command_model(destination, "mkdir"@);
    InvocationModel {
        program: base.program,
        args: base.args + seq!["--parents"@, "$(dirname"@, target_path + ")"@],
    }
}

/// The command that writes its standard input to the copy target.
pub open spec fn copy_tee_model(destination: Seq<char>, target_path: Seq<char>
) -> InvocationModel {
    let base = ssh_command_model(destination, "tee"@);
    InvocationModel { program: base.program, args: base.args + seq![target_path] }
}

impl App {
    /// Plans copying a file to a guest: decide the input source, then create
    /// the target's folder and write the target, feeding the second command
    /// from the decided input. The input decision precedes every guest
    /// lookup, as the operation validates its local inputs first.
    pub fn copy_file_to_guest(
        &self,
        guest_id: &String,
        target_path: &String,
        source_path: &Option<String>,
        source_is_file: bool,
        stdin_is_terminal: bool,
    ) -> (r: Result<(InputSource, Invocation, Invocation), Error>)
        ensures
            // input validation comes first: a bad source is reported before
            // any guest lookup, and so is missing piped input
            match source_path {
                Some(p) => !source_is_file ==> (r matches Err(e) && (e
                    matches Error::InvalidFile { path } && path@ == p@)),
                None => stdin_is_terminal ==> (r matches Err(e) && e
                    matches Error::MissingInputPathOrStdin { .. }),
            },
            match r {
                Ok((source, mkdir, tee)) => {
                    &&& match source {
                        InputSource::FromPath => source_path is Some && source_is_file,
                        InputSource::InheritedStdin => source_path is None && !stdin_is_terminal,
                    }
                    &&& self.guest_of(guest_id@) matches Some(g) && g.ip_address matches Some(ip)
                        && mkdir@ == copy_mkdir_model(ip@, target_path@) && tee@ == copy_tee_model(
                        ip@,
                        target_path@,
                    )
                },
                Err(e) => match e {
                    Error::InvalidFile { path } => source_path matches Some(p) && !source_is_file
                        && path@ == p@,
                    Error::MissingInputPathOrStdin { .. } => source_path is None
                        && stdin_is_terminal,
                    Error::UnknownGuest { guest_id: g } => {
                        &&& source_path is Some ==> source_is_file
                        &&& source_path is None ==> !stdin_is_terminal
                        &&& self.guest_of(guest_id@) is None
                        &&& g@ == guest_id@
                    },
                    Error::MissingIpAddressConfiguration { guest_id: g } => {
                        &&& source_path is Some ==> source_is_file
                        &&& source_path is None ==> !stdin_is_terminal
                        &&& self.guest_of(guest_id@) matches Some(gu) && gu.ip_address is None
                        &&& g@ == guest_id@
                    },
                    _ => false,
                },
            },
    {
        let source = choose_input(source_path, source_is_file, stdin_is_terminal)?;
        let connection = self.get_guest_ssh_connection(guest_id)?;
        let mut mkdir = connection.command("mkdir");
        mkdir.arg("--parents");
        mkdir.arg("$(dirname");
        let mut target_arg = target_path.clone();
        target_arg.append(")");
        mkdir.arg_string(target_arg);
        proof {
            assert(mkdir@.args =~= copy_mkdir_model(
                connection.destination@,
                target_path@,
            ).args);
        }
        let mut tee = connection.command("tee");
        tee.arg_string(target_path.clone());
        proof {
            assert(tee@.args =~= copy_tee_model(connection.destination@, target_path@).args);
        }
        Ok((source, mkdir, tee))
    }
}

/// The ssh invocation that runs an uploaded file on the guest: the file's
/// staged path stands as a single argument, never split, followed by the
/// run's own arguments.
pub open spec fn execute_path_model(
    connection: GuestConnection,
    guest_path: Seq<char>,
    args: Seq<Seq<char>>,
) -> InvocationModel {
    InvocationModel {
        program: "ssh"@,
        args: ssh_option_args(connection.connection_timeout as int, false) + seq![
            "-A"@,
            root_at(connection.ip_address@),
            guest_path,
        ] + args,
    }
}

/// The staged path of an uploaded file: the workspace directory plus the
/// file's own name.
pub open spec fn staged_path_spec(path: Seq<char>) -> Seq<char> {
    "/tmp/"@ + file_name_spec(path)
}

/// Plans running a local file on a guest over an established connection:
/// the file must exist; then the workspace is created, the file uploaded
/// into it, made executable, and run with the given arguments — in exactly
/// that order.
pub fn execute_file_on_guest_commands(
    connection: &GuestConnection,
    path: &String,
    path_is_file: bool,
    args: Vec<String>,
) -> (r: Result<Vec<Invocation>, Error>)
    ensures
        match r {
            Ok(cmds) => {
                &&& path_is_file
                &&& cmds@.len() == 4
                &&& cmds@[0]@ == connection.execute_model("mkdir -p /tmp"@, Seq::empty())
                &&& cmds@[1]@ == connection.upload_model(path@, "/tmp"@)
                &&& cmds@[2]@ == connection.execute_model(
                    "chmod"@,
                    seq!["+x"@, staged_path_spec(path@)],
                )
                &&& cmds@[3]@ == execute_path_model(
                    *connection,
                    staged_path_spec(path@),
                    args@.map_values(|a: String| a@),
                )
            },
            Err(e) => {
                &&& !path_is_file
                &&& e matches Error::InvalidFile { path: p } && p@ == path@
            },
        },
{
    if !path_is_file {
        return Err(Error::InvalidFile { path: path.clone() });
    }
    let mkdir = connection.execute("mkdir -p /tmp");
    let workspace = guest_workspace_path();
    let upload = connection.upload(path.as_str(), workspace.as_str());
    let mut staged = "/tmp/".to_owned();
    staged.append(file_name(path.as_str()).as_str());
    proof {
        assert(staged@ == staged_path_spec(path@));
    }
    let mut chmod_args: Vec<String> = Vec::new();
    chmod_args.push("+x".to_owned());
    chmod_args.push(staged.clone());
    proof {
        assert(chmod_args@.map_values(|a: String| a@) =~= seq!["+x"@, staged_path_spec(path@)]);
    }
    let chmod = connection.execute_with_args("chmod", chmod_args);
    let mut run = Invocation::new("ssh");
    push_guest_run(&mut run, connection, &staged);
    let ghost before_args = run@.args;
    let ghost arg_models = args@.map_values(|a: String| a@);
    let mut i: usize = 0;
    proof {
        assert(run@.args =~= before_args + arg_models.take(0));
    }
    let args = args;
    while i < args.len()
        invariant
            i <= args@.len(),
            args@.map_values(|a: String| a@) == arg_models,
            run@.program == "ssh"@,
            run@.args == before_args + arg_models.take(i as int),
        decreases args@.len() - i,
    {
        proof {
            assert(args@[i as int]@ == arg_models[i as int]);
        }
        run.arg_string(args[i].clone());
        proof {
            assert(run@.args =~= before_args + arg_models.take(i as int + 1));
        }
        i = i + 1;
    }
    proof {
        assert(arg_models.take(args@.len() as int) =~= arg_models);
    }
    let mut cmds: Vec<Invocation> = Vec::new();
    cmds.push(mkdir);
    cmds.push(upload);
    cmds.push(chmod);
    cmds.push(run);
    proof {
        assert(cmds@[3]@.args =~= execute_path_model(
            *connection,
            staged_path_spec(path@),
            arg_models,
        ).args);
        assert(cmds@[3]@ =~~= execute_path_model(*connection, staged_path_spec(path@), arg_models));
    }
    Ok(cmds)
}

fn push_guest_run(run: &mut Invocation, connection: &GuestConnection, staged: &String)
    ensures
        final (run)@.program == old(run)@.program,
        final (run)@.args == old(run)@.args + ssh_option_args(
            connection.connection_timeout as int,
            false,
        ) + seq!["-A"@, root_at(connection.ip_address@), staged@],
{
    push_options_plain(run, connection.connection_timeout);
    run.arg("-A");
    let mut target = "root@".to_owned();
    target.append(connection.ip_address.as_str());
    run.arg_string(target);
    run.arg_string(staged.clone());
    proof {
        assert(run@.args =~= old(run)@.args + ssh_option_args(
            connection.connection_timeout as int,
            false,
        ) + seq!["-A"@, root_at(connection.ip_address@), staged@]);
    }
}

fn push_options_plain(invocation: &mut Invocation, timeout: u64)
    ensures
        final (invocation)@.program == old(invocation)@.program,
        final (invocation)@.args == old(invocation)@.args + ssh_option_args(
            timeout as int,
            false,
        ),
{
    invocation.arg("-o");
    invocation.arg("BatchMode=yes");
    invocation.arg("-o");
    let mut timeout_arg = "ConnectTimeout=".to_owned();
    timeout_arg.append(crate::render::u64_to_string(timeout).as_str());
    invocation.arg_string(timeout_arg);
    invocation.arg("-o");
    invocation.arg("StrictHostKeyChecking=no");
    invocation.arg("-o");
    invocation.arg("UserKnownHostsFile=/dev/null");
    proof {
        assert(invocation@.args =~= old(invocation)@.args + ssh_option_args(
            timeout as int,
            false,
        ));
    }
}

/// Plans piping a script into a shell on the guest: `bash -s -` with the
/// run's own arguments, fed from the decided input source.
pub fn execute_script_on_guest_command(
    connection: &GuestConnection,
    args: Vec<String>,
) -> (r: Invocation)
    ensures
        r@ == connection.execute_model(
            "bash"@,
            seq!["-s"@, "-"@] + args@.map_values(|a: String| a@),
        ),
{
    let ghost arg_models = args@.map_values(|a: String| a@);
    let mut full: Vec<String> = Vec::new();
    full.push("-s".to_owned());
    full.push("-".to_owned());
    let mut i: usize = 0;
    proof {
        assert(full@.map_values(|a: String| a@) =~= seq!["-s"@, "-"@] + arg_models.take(0));
    }
    while i < args.len()
        invariant
            i <= args@.len(),
            args@.map_values(|a: String| a@) == arg_models,
            full@.map_values(|a: String| a@) == seq!["-s"@, "-"@] + arg_models.take(i as int),
        decreases args@.len() - i,
    {
        let ghost pre = full@;
        proof {
            assert(args@[i as int]@ == arg_models[i as int]);
        }
        let elem: String = args[i].clone();
        proof {
            assert(elem@ == args@[i as int]@);
        }
        full.push(elem);
        proof {
            assert(full@ == pre.push(full@[pre.len() as int]));
            assert(full@[pre.len() as int]@ == arg_models[i as int]);
            assert(full@.map_values(|a: String| a@).len() == pre.map_values(
                |a: String| a@,
            ).len() + 1);
            let grown = seq!["-s"@, "-"@] + arg_models.take(i as int + 1);
            assert forall|p: int| 0 <= p < full@.len() implies full@.map_values(|a: String| a@)[p]
                == #[trigger] grown[p] by {
                if p < pre.len() {
                    assert(full@[p] == pre[p]);
                    assert(pre.map_values(|a: String| a@)[p] == pre[p]@);
                    assert((seq!["-s"@, "-"@] + arg_models.take(i as int))[p] == pre[p]@);
                } else {
                    assert(full@.map_values(|a: String| a@)[p] == full@[p]@);
                }
            }
            assert(full@.map_values(|a: String| a@) =~= seq!["-s"@, "-"@] + arg_models.take(
                i as int + 1,
            ));
        }
        i = i + 1;
    }
    proof {
        assert(arg_models.take(args@.len() as int) =~= arg_models);
    }
    connection.execute_with_args("bash", full)
}

/// The interactive ssh invocation that connects an operator to a guest,
/// with any extra arguments handed straight to ssh.
pub open spec fn connect_model(destination: Seq<char>, extra: Seq<Seq<char>>) -> InvocationModel {
    InvocationModel {
        program: "ssh"@,
        args: ssh_option_args(SSH_CONNECTION_TIMEOUT as int, true) + seq![root_at(destination)]
            + extra,
    }
}

impl App {
    /// Plans connecting interactively to a guest: the fixed option set with
    /// agent forwarding, the guest's address, and any extra arguments.
    pub fn connect_to_guest(&self, guest_id: &String, args: Vec<String>) -> (r: Result<
        Invocation,
        Error,
    >)
        ensures
            match r {
                Ok(inv) => self.guest_of(guest_id@) matches Some(g) && g.ip_address matches Some(
                    ip,
                ) && inv@ == connect_model(ip@, args@.map_values(|a: String| a@)),
                Err(e) => match e {
                    Error::UnknownGuest { guest_id: g } => {
                        &&& self.guest_of(guest_id@) is None
                        &&& g@ == guest_id@
                    },
                    Error::MissingIpAddressConfiguration { guest_id: g } => {
                        &&& self.guest_of(guest_id@) matches Some(gu) && gu.ip_address is None
                        &&& g@ == guest_id@
                    },
                    _ => false,
                },
            },
    {
        let connection = self.get_guest_ssh_connection(guest_id)?;
        let mut invocation = Invocation::new("ssh");
        push_options_agent(&mut invocation, crate::connection::SSH_CONNECTION_TIMEOUT);
        let mut target = "root@".to_owned();
        target.append(connection.destination.as_str());
        invocation.arg_string(target);
        let ghost before_args = invocation@.args;
        let ghost arg_models = args@.map_values(|a: String| a@);
        let mut i: usize = 0;
        proof {
            assert(invocation@.args =~= before_args + arg_models.take(0));
        }
        let args = args;
        while i < args.len()
            invariant
                i <= args@.len(),
                args@.map_values(|a: String| a@) == arg_models,
                invocation@.program == "ssh"@,
                invocation@.args == before_args + arg_models.take(i as int),
            decreases args@.len() - i,
        {
            proof {
                assert(args@[i as int]@ == arg_models[i as int]);
            }
            invocation.arg_string(args[i].clone());
            proof {
                assert(invocation@.args =~= before_args + arg_models.take(i as int + 1));
            }
            i = i + 1;
        }
        proof {
            assert(arg_models.take(args@.len() as int) =~= arg_models);
            assert(invocation@.args =~= connect_model(connection.destination@, arg_models).args);
            assert(invocation@ =~~= connect_model(connection.destination@, arg_models));
        }
        Ok(invocation)
    }
}

fn push_options_agent(invocation: &mut Invocation, timeout: u64)
    ensures
        final (invocation)@.program == old(invocation)@.program,
        final (invocation)@.args == old(invocation)@.args + ssh_option_args(timeout as int, true),
{
    invocation.arg("-o");
    invocation.arg("BatchMode=yes");
    invocation.arg("-o");
    let mut timeout_arg = "ConnectTimeout=".to_owned();
    timeout_arg.append(crate::render::u64_to_string(timeout).as_str());
    invocation.arg_string(timeout_arg);
    invocation.arg("-o");
    invocation.arg("ForwardAgent=yes");
    invocation.arg("-o");
    invocation.arg("StrictHostKeyChecking=no");
    invocation.arg("-o");
    invocation.arg("UserKnownHostsFile=/dev/null");
    proof {
        assert(invocation@.args =~= old(invocation)@.args + ssh_option_args(timeout as int, true));
    }
}

} // verus!
