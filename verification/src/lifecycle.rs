//! Guest liveness and the start operation: liveness is recomputed from
//! scratch on every query, and starting a guest is planned as the exact
//! command sequence a driver must run.

use vstd::prelude::*;

use crate::command::Invocation;
use crate::command::InvocationModel;
use crate::config::App;
use crate::config::Disk;
use crate::config::Guest;
use crate::config::NetworkInterface;
use crate::connection::SshConnection;
use crate::connection::ssh_command_model;
use crate::errors::Error;
use crate::operations::invocation_models;
use crate::operations::lemma_models_push;
use crate::operations::mkdir_parent_model;
use crate::operations::create_parent_dir_invocation;
use crate::paths::parent_dir_spec;
use crate::render::concat_str;
use crate::render::dec_digits;
use crate::render::u64_to_string;

verus! {

/// Seconds between liveness polls, both during a soft shutdown's wait
/// window and while waiting for a guest to shut down on its own.
pub const POLL_INTERVAL_SECONDS: u64 = 1;

/// Seconds a killed guest gets to settle before the check that decides on
/// escalation.
pub const KILL_SETTLE_SECONDS: u64 = 1;

/// The three pieces of evidence a liveness check gathers: the pidfile
/// exists, the monitor socket exists, and a process search matching the
/// pidfile and a `qemu` substring succeeded.
#[derive(Clone, Copy, PartialEq, Eq, Structural, Debug)]
pub struct LivenessEvidence {
    pub pidfile_exists: bool,
    pub monitor_socket_exists: bool,
    pub process_probe_success: bool,
}

impl LivenessEvidence {
    /// All three conditions must hold: a stale pidfile or socket alone never
    /// counts as a running guest.
    pub open spec fn running(self) -> bool {
        self.pidfile_exists && self.monitor_socket_exists && self.process_probe_success
    }
}

/// The two liveness states; nothing in between is ever persisted.
#[derive(Clone, Copy, PartialEq, Eq, Structural, Debug)]
pub enum GuestState {
    Stopped,
    Running,
}

/// Judges liveness: `Running` exactly when every piece of evidence holds.
pub fn guest_state(evidence: &LivenessEvidence) -> (r: GuestState)
    ensures
        (r == GuestState::Running) <==> evidence.running(),
{
    if evidence.pidfile_exists && evidence.monitor_socket_exists
        && evidence.process_probe_success {
        GuestState::Running
    } else {
        GuestState::Stopped
    }
}

/// Judges liveness as a plain truth value.
pub fn is_booted(evidence: &LivenessEvidence) -> (r: bool)
    ensures
        r == evidence.running(),
{
    evidence.pidfile_exists && evidence.monitor_socket_exists && evidence.process_probe_success
}

/// The process search of a liveness check.
pub open spec fn liveness_probe_model(destination: Seq<char>, pidfile_path: Seq<char>
) -> InvocationModel {
    let base = ssh_command_model(destination, "pgrep"@);
    InvocationModel {
        program: base.program,
        args: base.args + seq!["--full"@, "--pidfile"@, pidfile_path, "qemu"@],
    }
}

/// Builds the process search of a liveness check.
pub fn liveness_probe_invocation(connection: &SshConnection, pidfile_path: &String) -> (r:
    Invocation)
    ensures
        r@ == liveness_probe_model(connection.destination@, pidfile_path@),
{
    let mut invocation = connection.command("pgrep");
    invocation.arg("--full");
    invocation.arg("--pidfile");
    invocation.arg_string(pidfile_path.clone());
    invocation.arg("qemu");
    proof {
        assert(invocation@.args =~= liveness_probe_model(
            connection.destination@,
            pidfile_path@,
        ).args);
    }
    invocation
}

/// The file-existence probe of a liveness check or a disk query.
pub open spec fn exists_probe_model(destination: Seq<char>, path: Seq<char>) -> InvocationModel {
    let base = ssh_command_model(destination, "test"@);
    InvocationModel { program: base.program, args: base.args + seq!["-e"@, path] }
}

/// Builds the file-existence probe for a path.
pub fn exists_probe_invocation(connection: &SshConnection, path: &String) -> (r: Invocation)
    ensures
        r@ == exists_probe_model(connection.destination@, path@),
{
    let mut invocation = connection.command("test");
    invocation.arg("-e");
    invocation.arg_string(path.clone());
    proof {
        assert(invocation@.args =~= exists_probe_model(connection.destination@, path@).args);
    }
    invocation
}

/// The fixed head of the hypervisor invocation for a guest: identity,
/// machine, resources, daemonization, monitor socket, pidfile, display and
/// the controller every disk hangs off.
pub open spec fn qemu_fixed_args(guest_id: Seq<char>, guest: Guest) -> Seq<Seq<char>> {
    seq![
        "-name"@,
        guest_id,
        "-machine"@,
        "q35,accel=kvm"@,
        "-cpu"@,
        guest.host@,
        "-m"@,
        dec_digits(guest.memory as int) + "M"@,
        "-smp"@,
        dec_digits(guest.cores as int),
        "-no-user-config"@,
        "-nodefaults"@,
        "-daemonize"@,
        "-runas"@,
        "nobody"@,
        "-monitor"@,
        "unix:"@ + guest.monitor_socket_path@ + ",server,nowait"@,
        "-pidfile"@,
        guest.pidfile_path@,
        "-vga"@,
        "std"@,
        "-spice"@,
        "port="@ + dec_digits(guest.spice_port as int) + ",disable-ticketing=on"@,
        "-object"@,
        "iothread,id=iothread1"@,
        "-device"@,
        "virtio-scsi-pci-non-transitional,iothread=iothread1"@,
    ]
}

/// The two device arguments of one network interface.
pub open spec fn nic_args(nic: NetworkInterface) -> Seq<Seq<char>> {
    seq![
        "-device"@,
        nic.model@ + ",netdev=network."@ + nic.tap_name@ + ",mac="@ + nic.mac_address@,
        "-netdev"@,
        "tap,id=network."@ + nic.tap_name@ + ",ifname="@ + nic.tap_name@
            + ",script=no,downscript=no"@,
    ]
}

/// The device arguments of the first `n` network interfaces.
pub open spec fn nics_args(nics: Seq<NetworkInterface>, n: int) -> Seq<Seq<char>>
    decreases n,
{
    if n <= 0 {
        Seq::empty()
    } else {
        nics_args(nics, n - 1) + nic_args(nics[n - 1])
    }
}

/// The two device arguments of one disk; only the default disk model pins
/// the drive's index explicitly.
pub open spec fn disk_args(disk: Disk, index: int) -> Seq<Seq<char>> {
    seq![
        "-device"@,
        disk.model@ + ",drive=drive."@ + disk.label@,
        "-drive"@,
        if disk.model@ == "scsi-hd"@ {
            "if=none,id=drive."@ + disk.label@ + ",format=qcow2,file="@ + disk.path@ + ",index="@
                + dec_digits(index)
        } else {
            "if=none,id=drive."@ + disk.label@ + ",format=qcow2,file="@ + disk.path@
        },
    ]
}

/// The device arguments of the first `n` disks.
pub open spec fn disks_args(disks: Seq<Disk>, n: int) -> Seq<Seq<char>>
    decreases n,
{
    if n <= 0 {
        Seq::empty()
    } else {
        disks_args(disks, n - 1) + disk_args(disks[n - 1], n - 1)
    }
}

/// The device arguments of one inserted CD-ROM image.
pub open spec fn cdrom_args(path: Seq<char>, index: int) -> Seq<Seq<char>> {
    seq![
        "-device"@,
        "scsi-cd,drive=drive.cd"@ + dec_digits(index),
        "-drive"@,
        "if=none,id=drive.cd"@ + dec_digits(index) + ",format=raw,media=cdrom,file="@ + path,
    ]
}

/// The device arguments of the first `n` inserted CD-ROM images.
pub open spec fn cdroms_args(paths: Seq<Seq<char>>, n: int) -> Seq<Seq<char>>
    decreases n,
{
    if n <= 0 {
        Seq::empty()
    } else {
        cdroms_args(paths, n - 1) + cdrom_args(paths[n - 1], n - 1)
    }
}

/// The boot-selection arguments.
pub open spec fn boot_args(boot_from_cdrom: bool, boot_from_network: bool) -> Seq<Seq<char>> {
    (if boot_from_cdrom {
        seq!["-boot"@, "d"@]
    } else {
        Seq::empty()
    }) + (if boot_from_network {
        seq!["-boot"@, "n"@]
    } else {
        Seq::empty()
    })
}

/// The floppy argument, where an image is inserted.
pub open spec fn floppy_args(floppy_path: Option<Seq<char>>) -> Seq<Seq<char>> {
    match floppy_path {
        Some(p) => seq!["-drive"@, "if=floppy,id=drive.fd0,format=raw,file=fat:floppy:rw:"@ + p],
        None => Seq::empty(),
    }
}

/// The whole hypervisor invocation that boots a guest.
pub open spec fn qemu_start_model(
    destination: Seq<char>,
    guest_id: Seq<char>,
    guest: Guest,
    boot_from_cdrom: bool,
    boot_from_network: bool,
    cdrom_paths: Seq<Seq<char>>,
    floppy_path: Option<Seq<char>>,
) -> InvocationModel {
    let base = ssh_command_model(destination, "qemu-system-x86_64"@);
    InvocationModel {
        program: base.program,
        args: base.args + qemu_fixed_args(guest_id, guest) + nics_args(
            guest.network_interfaces@,
            guest.network_interfaces@.len() as int,
        ) + disks_args(guest.disks@, guest.disks@.len() as int) + boot_args(
            boot_from_cdrom,
            boot_from_network,
        ) + cdroms_args(cdrom_paths, cdrom_paths.len() as int) + floppy_args(floppy_path),
    }
}

/// The command that attaches one tap device to its bridge and brings it up.
pub open spec fn net_attach_model(destination: Seq<char>, tap_name: Seq<char>, bridge: Seq<char>
) -> InvocationModel {
    let base = ssh_command_model(destination, "ip"@);
    InvocationModel {
        program: base.program,
        args: base.args + seq!["link"@, "set"@, tap_name, "master"@, bridge, "up"@],
    }
}

/// The command that makes the pidfile world-readable after the daemonized,
/// privilege-dropped hypervisor may have created it more restrictively.
pub open spec fn chmod_pidfile_model(destination: Seq<char>, pidfile_path: Seq<char>
) -> InvocationModel {
    let base = ssh_command_model(destination, "chmod"@);
    InvocationModel { program: base.program, args: base.args + seq!["644"@, pidfile_path] }
}

/// The tap-attachment commands of the first `n` network interfaces; defined
/// where every interface's network is known.
pub open spec fn net_attach_models(
    app: App,
    destination: Seq<char>,
    nics: Seq<NetworkInterface>,
    n: int,
) -> Seq<InvocationModel>
    decreases n,
{
    if n <= 0 {
        Seq::empty()
    } else {
        net_attach_models(app, destination, nics, n - 1).push(
            net_attach_model(
                destination,
                nics[n - 1].tap_name@,
                app.network_of(nics[n - 1].network_id@).unwrap().bridge_name@,
            ),
        )
    }
}

/// The parent-directory commands that precede booting: the monitor socket's
/// and the pidfile's enclosing folders.
pub open spec fn start_dir_models(destination: Seq<char>, guest: Guest) -> Seq<InvocationModel> {
    (match parent_dir_spec(guest.monitor_socket_path@) {
        Some(p) => seq![mkdir_parent_model(destination, p)],
        None => Seq::empty(),
    }) + (match parent_dir_spec(guest.pidfile_path@) {
        Some(p) => seq![mkdir_parent_model(destination, p)],
        None => Seq::empty(),
    })
}

impl App {
    /// Plans starting a guest. On an already-running guest the plan is
    /// empty: beyond the liveness probe the operation issues no command at
    /// all. Otherwise: create the monitor-socket and pidfile directories,
    /// boot the hypervisor, attach each tap device to its bridge, and
    /// normalize the pidfile's permissions — in exactly that order.
    pub fn start_guest(
        &self,
        guest_id: &String,
        booted: bool,
        boot_from_cdrom: bool,
        boot_from_network: bool,
        cdrom_paths: &Vec<String>,
        floppy_path: &Option<String>,
    ) -> (r: Result<Vec<Invocation>, Error>)
        ensures
            match r {
                Ok(cmds) => {
                    &&& self.guest_of(guest_id@) is Some
                    &&& booted ==> cmds@.len() == 0
                    &&& !booted ==> (self.guest_of(guest_id@) matches Some(g) && {
                        &&& forall|i: int|
                            0 <= i < g.network_interfaces@.len() ==> self.network_of(
                                (#[trigger] g.network_interfaces@[i]).network_id@,
                            ) is Some
                        &&& invocation_models(cmds@) == start_dir_models(self.host@, g) + seq![
                            qemu_start_model(
                                self.host@,
                                guest_id@,
                                g,
                                boot_from_cdrom,
                                boot_from_network,
                                cdrom_paths@.map_values(|p: String| p@),
                                match floppy_path {
                                    Some(p) => Some(p@),
                                    None => None,
                                },
                            ),
                        ] + net_attach_models(
                            *self,
                            self.host@,
                            g.network_interfaces@,
                            g.network_interfaces@.len() as int,
                        ) + seq![chmod_pidfile_model(self.host@, g.pidfile_path@)]
                    })
                },
                Err(e) => match e {
                    Error::UnknownGuest { guest_id: gi } => {
                        &&& self.guest_of(guest_id@) is None
                        &&& gi@ == guest_id@
                    },
                    Error::UnknownNetwork { network_id: ni } => {
                        &&& !booted
                        &&& self.guest_of(guest_id@) matches Some(g) && exists|i: int|
                            {
                                &&& 0 <= i < g.network_interfaces@.len()
                                &&& self.network_of(
                                    (#[trigger] g.network_interfaces@[i]).network_id@,
                                ) is None
                                &&& ni@ == g.network_interfaces@[i].network_id@
                            }
                    },
                    _ => false,
                },
            },
    {
        let connection = self.get_host_ssh_connection();
        let ghost dest = connection.destination@;
        let guest = self.get_guest(guest_id)?;
        if booted {
            let cmds: Vec<Invocation> = Vec::new();
            return Ok(cmds);
        }
        let mut cmds: Vec<Invocation> = Vec::new();
        match create_parent_dir_invocation(&connection, &guest.monitor_socket_path) {
            Some(mkdir) => {
                cmds.push(mkdir);
            },
            None => {
            },
        }
        match create_parent_dir_invocation(&connection, &guest.pidfile_path) {
            Some(mkdir) => {
                cmds.push(mkdir);
            },
            None => {
            },
        }
        proof {
            assert(invocation_models(cmds@) =~= start_dir_models(dest, *guest));
        }
        let qemu = build_qemu_start(
            &connection,
            guest_id,
            guest,
            boot_from_cdrom,
            boot_from_network,
            cdrom_paths,
            floppy_path,
        );
        cmds.push(qemu);
        let ghost head = invocation_models(cmds@);
        proof {
            assert(head =~= start_dir_models(dest, *guest) + seq![
                qemu_start_model(
                    dest,
                    guest_id@,
                    *guest,
                    boot_from_cdrom,
                    boot_from_network,
                    cdrom_paths@.map_values(|p: String| p@),
                    match floppy_path {
                        Some(p) => Some(p@),
                        None => None,
                    },
                ),
            ]);
            assert(invocation_models(cmds@) =~= head + net_attach_models(
                *self,
                dest,
                guest.network_interfaces@,
                0,
            ));
        }
        let mut i: usize = 0;
        while i < guest.network_interfaces.len()
            invariant
                i <= guest.network_interfaces@.len(),
                dest == connection.destination@,
                !booted,
                self.guest_of(guest_id@) matches Some(g) && g == *guest,
                forall|t: int|
                    0 <= t < i ==> self.network_of(
                        (#[trigger] guest.network_interfaces@[t]).network_id@,
                    ) is Some,
                invocation_models(cmds@) == head + net_attach_models(
                    *self,
                    dest,
                    guest.network_interfaces@,
                    i as int,
                ),
            decreases guest.network_interfaces@.len() - i,
        {
            let nic = &guest.network_interfaces[i];
            proof {
                assert(*nic == guest.network_interfaces@[i as int]);
            }
            let network = match self.get_network(&nic.network_id) {
                Ok(network) => network,
                Err(e) => {
                    proof {
                        assert({
                            &&& 0 <= i as int && (i as int) < guest.network_interfaces@.len()
                            &&& self.network_of(
                                (#[trigger] guest.network_interfaces@[i as int]).network_id@,
                            ) is None
                        });
                    }
                    return Err(e);
                },
            };
            let mut attach = connection.command("ip");
            attach.arg("link");
            attach.arg("set");
            attach.arg_string(nic.tap_name.clone());
            attach.arg("master");
            attach.arg_string(network.bridge_name.clone());
            attach.arg("up");
            proof {
                assert(attach@.args =~= net_attach_model(
                    dest,
                    nic.tap_name@,
                    network.bridge_name@,
                ).args);
                assert(attach@ =~~= net_attach_model(dest, nic.tap_name@, network.bridge_name@));
                assert(self.network_of(guest.network_interfaces@[i as int].network_id@) == Some(
                    *network,
                ));
                assert(attach@ =~~= net_attach_model(
                    dest,
                    guest.network_interfaces@[i as int].tap_name@,
                    self.network_of(
                        guest.network_interfaces@[i as int].network_id@,
                    ).unwrap().bridge_name@,
                ));
            }
            let ghost pre = cmds@;
            let ghost attach_model = attach@;
            cmds.push(attach);
            proof {
                lemma_models_push(pre, cmds@, cmds@.last());
                assert(cmds@.last()@ == attach_model);
                assert(net_attach_models(*self, dest, guest.network_interfaces@, i as int + 1)
                    == net_attach_models(*self, dest, guest.network_interfaces@, i as int).push(
                    attach_model,
                ));
                assert(invocation_models(cmds@) =~= head + net_attach_models(
                    *self,
                    dest,
                    guest.network_interfaces@,
                    i as int + 1,
                ));
            }
            i = i + 1;
        }
        let mut chmod = connection.command("chmod");
        chmod.arg("644");
        chmod.arg_string(guest.pidfile_path.clone());
        proof {
            assert(chmod@.args =~= chmod_pidfile_model(dest, guest.pidfile_path@).args);
            assert(chmod@ =~~= chmod_pidfile_model(dest, guest.pidfile_path@));
        }
        cmds.push(chmod);
        proof {
            assert(invocation_models(cmds@) =~= head + net_attach_models(
                *self,
                dest,
                guest.network_interfaces@,
                guest.network_interfaces@.len() as int,
            ) + seq![chmod_pidfile_model(dest, guest.pidfile_path@)]);
        }
        Ok(cmds)
    }
}

/// The command whose standard input reaches a guest's monitor socket.
pub open spec fn monitor_socket_model(destination: Seq<char>, socket_path: Seq<char>
) -> InvocationModel {
    let base = ssh_command_model(destination, "socat"@);
    InvocationModel {
        program: base.program,
        args: base.args + seq!["-"@, "UNIX-CONNECT:"@ + socket_path],
    }
}

/// Builds the command whose standard input reaches the monitor socket.
pub fn monitor_socket_invocation(connection: &SshConnection, socket_path: &String) -> (r:
    Invocation)
    ensures
        r@ == monitor_socket_model(connection.destination@, socket_path@),
{
    let mut invocation = connection.command("socat");
    invocation.arg("-");
    let mut target = "UNIX-CONNECT:".to_owned();
    target.append(socket_path.as_str());
    invocation.arg_string(target);
    proof {
        assert(invocation@.args =~= monitor_socket_model(
            connection.destination@,
            socket_path@,
        ).args);
    }
    invocation
}

/// The targeted kill of a guest's hypervisor process, escalated to an
/// unconditional signal where asked.
pub open spec fn kill_model(destination: Seq<char>, pidfile_path: Seq<char>, escalate: bool
) -> InvocationModel {
    let base = ssh_command_model(destination, "pkill"@);
    InvocationModel {
        program: base.program,
        args: base.args + (if escalate {
            seq!["-9"@]
        } else {
            Seq::empty()
        }) + seq!["--full"@, "--pidfile"@, pidfile_path, "qemu"@],
    }
}

/// Builds the targeted kill of a guest's hypervisor process.
pub fn kill_invocation(connection: &SshConnection, pidfile_path: &String, escalate: bool) -> (r:
    Invocation)
    ensures
        r@ == kill_model(connection.destination@, pidfile_path@, escalate),
{
    let mut invocation = connection.command("pkill");
    if escalate {
        invocation.arg("-9");
    }
    invocation.arg("--full");
    invocation.arg("--pidfile");
    invocation.arg_string(pidfile_path.clone());
    invocation.arg("qemu");
    proof {
        assert(invocation@.args =~= kill_model(
            connection.destination@,
            pidfile_path@,
            escalate,
        ).args);
    }
    invocation
}

/// Where a stop operation stands between two events.
#[derive(Clone, Copy, PartialEq, Eq, Structural, Debug)]
pub enum StopPhase {
    /// Waiting for the first liveness check.
    Initial,
    /// The soft shutdown was sent; waiting for one of the remaining polls.
    Polling { remaining: u64 },
    /// The targeted kill was issued; waiting for its outcome.
    AfterKill,
    /// The kill went through; waiting for the settling liveness check.
    FinalCheck,
    /// The escalated kill was issued; waiting for its outcome.
    Escalated,
    /// The operation ended, in success or in failure.
    Finished,
}

/// What the driver must do next while stopping a guest.
#[derive(Debug)]
pub enum StopAction {
    /// Spawn the invocation, write the line to its standard input, and
    /// report whether the spawn and the write went through.
    SendPowerdown { invocation: Invocation, line: String },
    /// Sleep the given seconds, then gather liveness evidence and report it.
    SleepAndRecheck { seconds: u64 },
    /// Surface the error to the operator — the soft shutdown is best-effort
    /// and its failure does not end the operation — then sleep the given
    /// seconds and gather liveness evidence.
    ReportThenRecheck { error: Error, seconds: u64 },
    /// Surface the error to the operator, then run the invocation and
    /// report its interpreted outcome.
    ReportThenKill { error: Error, invocation: Invocation },
    /// Run the invocation and report its interpreted outcome.
    RunKill { invocation: Invocation },
    /// The guest is stopped; nothing is left to do.
    Done,
    /// The operation failed; surface the error.
    Fail { error: Error },
}

/// Stopping a guest, as explicit state: a soft shutdown over the monitor
/// socket with a bounded poll window — skipped when forced — then a
/// targeted kill, escalated once if the guest still lives a second later.
/// The driver performs each returned action and reports its outcome.
#[derive(Debug)]
pub struct StopSession {
    pub connection: SshConnection,
    pub monitor_socket_path: String,
    pub pidfile_path: String,
    pub wait: u64,
    pub force: bool,
    pub phase: StopPhase,
}

impl StopSession {
    /// Starts a stop operation; the first action is the liveness check.
    pub fn new(
        connection: SshConnection,
        monitor_socket_path: String,
        pidfile_path: String,
        wait: u64,
        force: bool,
    ) -> (r: Self)
        ensures
            r.phase == StopPhase::Initial,
            r.connection == connection,
            r.monitor_socket_path == monitor_socket_path,
            r.pidfile_path == pidfile_path,
            r.wait == wait,
            r.force == force,
    {
        StopSession {
            connection,
            monitor_socket_path,
            pidfile_path,
            wait,
            force,
            phase: StopPhase::Initial,
        }
    }

    /// Consumes one liveness verdict. A guest already stopped ends the
    /// operation at once — a stop on a stopped guest issues no shutdown
    /// command at all. A live guest is killed outright when forced, asked
    /// to power down otherwise; during polling, each live verdict spends
    /// one poll and the window's end escalates to the kill; after the kill,
    /// a surviving guest gets the unconditional signal.
    pub fn on_liveness(&mut self, booted: bool) -> (r: StopAction)
        requires
            old(self).phase matches StopPhase::Initial
                || old(self).phase matches StopPhase::Polling { .. }
                || old(self).phase matches StopPhase::FinalCheck,
        ensures
            final (self).connection == old(self).connection,
            final (self).monitor_socket_path == old(self).monitor_socket_path,
            final (self).pidfile_path == old(self).pidfile_path,
            final (self).wait == old(self).wait,
            final (self).force == old(self).force,
            !booted ==> (r is Done && final (self).phase == StopPhase::Finished),
            booted ==> match old(self).phase {
                StopPhase::Initial => {
                    if old(self).force {
                        &&& r matches StopAction::RunKill { invocation } && invocation@
                            == kill_model(
                            old(self).connection.destination@,
                            old(self).pidfile_path@,
                            false,
                        )
                        &&& final (self).phase == StopPhase::AfterKill
                    } else {
                        &&& r matches StopAction::SendPowerdown { invocation, line } && invocation@
                            == monitor_socket_model(
                            old(self).connection.destination@,
                            old(self).monitor_socket_path@,
                        ) && line@ == "system_powerdown"@
                        &&& final (self).phase == StopPhase::Polling {
                            remaining: old(self).wait,
                        }
                    }
                },
                StopPhase::Polling { remaining } => {
                    if remaining > 0 {
                        &&& r matches StopAction::SleepAndRecheck { seconds } && seconds
                            == POLL_INTERVAL_SECONDS
                        &&& final (self).phase == StopPhase::Polling {
                            remaining: (remaining - 1) as u64,
                        }
                    } else {
                        &&& r matches StopAction::RunKill { invocation } && invocation@
                            == kill_model(
                            old(self).connection.destination@,
                            old(self).pidfile_path@,
                            false,
                        )
                        &&& final (self).phase == StopPhase::AfterKill
                    }
                },
                StopPhase::FinalCheck => {
                    &&& r matches StopAction::RunKill { invocation } && invocation@ == kill_model(
                        old(self).connection.destination@,
                        old(self).pidfile_path@,
                        true,
                    )
                    &&& final (self).phase == StopPhase::Escalated
                },
                _ => false,
            },
    {
        if !booted {
            self.phase = StopPhase::Finished;
            return StopAction::Done;
        }
        match self.phase {
            StopPhase::Initial => {
                if self.force {
                    self.phase = StopPhase::AfterKill;
                    StopAction::RunKill {
                        invocation: kill_invocation(&self.connection, &self.pidfile_path, false),
                    }
                } else {
                    let invocation = monitor_socket_invocation(
                        &self.connection,
                        &self.monitor_socket_path,
                    );
                    self.phase = StopPhase::Polling { remaining: self.wait };
                    StopAction::SendPowerdown { invocation, line: "system_powerdown".to_owned() }
                }
            },
            StopPhase::Polling { remaining } => {
                if remaining > 0 {
                    self.phase = StopPhase::Polling { remaining: remaining - 1 };
                    StopAction::SleepAndRecheck { seconds: POLL_INTERVAL_SECONDS }
                } else {
                    self.phase = StopPhase::AfterKill;
                    StopAction::RunKill {
                        invocation: kill_invocation(&self.connection, &self.pidfile_path, false),
                    }
                }
            },
            StopPhase::FinalCheck => {
                self.phase = StopPhase::Escalated;
                StopAction::RunKill {
                    invocation: kill_invocation(&self.connection, &self.pidfile_path, true),
                }
            },
            _ => {
                self.phase = StopPhase::Finished;
                StopAction::Done
            },
        }
    }

    /// Consumes the outcome of sending the soft shutdown. A spawn failure
    /// ends the operation with its own error. The write itself is
    /// best-effort: its failure is surfaced as the monitor error but does
    /// not end the operation — the poll window opens, or the kill follows
    /// at once when the window is empty, exactly as after a successful
    /// write.
    pub fn on_powerdown(&mut self, spawned: bool, write_ok: bool) -> (r: StopAction)
        requires
            old(self).phase matches StopPhase::Polling { .. },
        ensures
            final (self).connection == old(self).connection,
            final (self).monitor_socket_path == old(self).monitor_socket_path,
            final (self).pidfile_path == old(self).pidfile_path,
            final (self).wait == old(self).wait,
            final (self).force == old(self).force,
            !spawned ==> (r matches StopAction::Fail { error } && (error
                matches Error::ProcessExecution { command } && command@ == monitor_socket_model(
                old(self).connection.destination@,
                old(self).monitor_socket_path@,
            ).command_line()) && final (self).phase == StopPhase::Finished),
            spawned && !write_ok ==> match old(self).phase {
                StopPhase::Polling { remaining } => {
                    if remaining > 0 {
                        &&& r matches StopAction::ReportThenRecheck { error, seconds } && (error
                            matches Error::MonitorCommand { monitor_socket_path, command }
                            && monitor_socket_path@ == old(self).monitor_socket_path@ && command@
                            == "system_powerdown"@) && seconds == POLL_INTERVAL_SECONDS
                        &&& final (self).phase == StopPhase::Polling {
                            remaining: (remaining - 1) as u64,
                        }
                    } else {
                        &&& r matches StopAction::ReportThenKill { error, invocation } && (error
                            matches Error::MonitorCommand { monitor_socket_path, command }
                            && monitor_socket_path@ == old(self).monitor_socket_path@ && command@
                            == "system_powerdown"@) && invocation@ == kill_model(
                            old(self).connection.destination@,
                            old(self).pidfile_path@,
                            false,
                        )
                        &&& final (self).phase == StopPhase::AfterKill
                    }
                },
                _ => false,
            },
            spawned && write_ok ==> match old(self).phase {
                StopPhase::Polling { remaining } => {
                    if remaining > 0 {
                        &&& r matches StopAction::SleepAndRecheck { seconds } && seconds
                            == POLL_INTERVAL_SECONDS
                        &&& final (self).phase == StopPhase::Polling {
                            remaining: (remaining - 1) as u64,
                        }
                    } else {
                        &&& r matches StopAction::RunKill { invocation } && invocation@
                            == kill_model(
                            old(self).connection.destination@,
                            old(self).pidfile_path@,
                            false,
                        )
                        &&& final (self).phase == StopPhase::AfterKill
                    }
                },
                _ => false,
            },
    {
        if !spawned {
            let invocation = monitor_socket_invocation(&self.connection, &self.monitor_socket_path);
            self.phase = StopPhase::Finished;
            return StopAction::Fail {
                error: Error::ProcessExecution { command: invocation.command_line() },
            };
        }
        if !write_ok {
            let error = Error::MonitorCommand {
                monitor_socket_path: self.monitor_socket_path.clone(),
                command: "system_powerdown".to_owned(),
            };
            match self.phase {
                StopPhase::Polling { remaining } => {
                    if remaining > 0 {
                        self.phase = StopPhase::Polling { remaining: remaining - 1 };
                        return StopAction::ReportThenRecheck {
                            error,
                            seconds: POLL_INTERVAL_SECONDS,
                        };
                    } else {
                        self.phase = StopPhase::AfterKill;
                        return StopAction::ReportThenKill {
                            error,
                            invocation: kill_invocation(
                                &self.connection,
                                &self.pidfile_path,
                                false,
                            ),
                        };
                    }
                },
                _ => {
                    self.phase = StopPhase::Finished;
                    return StopAction::Done;
                },
            }
        }
        match self.phase {
            StopPhase::Polling { remaining } => {
                if remaining > 0 {
                    self.phase = StopPhase::Polling { remaining: remaining - 1 };
                    StopAction::SleepAndRecheck { seconds: POLL_INTERVAL_SECONDS }
                } else {
                    self.phase = StopPhase::AfterKill;
                    StopAction::RunKill {
                        invocation: kill_invocation(&self.connection, &self.pidfile_path, false),
                    }
                }
            },
            _ => {
                self.phase = StopPhase::Finished;
                StopAction::Done
            },
        }
    }

    /// Consumes the interpreted outcome of a kill command: a failure ends
    /// the operation with that error; after the first kill the guest gets a
    /// second to settle before the final check, and after the escalated
    /// kill nothing is left to do.
    pub fn on_kill(&mut self, outcome: Result<String, Error>) -> (r: StopAction)
        requires
            old(self).phase matches StopPhase::AfterKill || old(self).phase
                matches StopPhase::Escalated,
        ensures
            final (self).connection == old(self).connection,
            final (self).monitor_socket_path == old(self).monitor_socket_path,
            final (self).pidfile_path == old(self).pidfile_path,
            final (self).wait == old(self).wait,
            final (self).force == old(self).force,
            outcome matches Err(e) ==> (r matches StopAction::Fail { error } && error == e
                && final (self).phase == StopPhase::Finished),
            outcome is Ok ==> match old(self).phase {
                StopPhase::AfterKill => {
                    &&& r matches StopAction::SleepAndRecheck { seconds } && seconds
                        == KILL_SETTLE_SECONDS
                    &&& final (self).phase == StopPhase::FinalCheck
                },
                StopPhase::Escalated => {
                    &&& r is Done
                    &&& final (self).phase == StopPhase::Finished
                },
                _ => false,
            },
    {
        match outcome {
            Err(error) => {
                self.phase = StopPhase::Finished;
                StopAction::Fail { error }
            },
            Ok(_) => {
                match self.phase {
                    StopPhase::AfterKill => {
                        self.phase = StopPhase::FinalCheck;
                        StopAction::SleepAndRecheck { seconds: KILL_SETTLE_SECONDS }
                    },
                    _ => {
                        self.phase = StopPhase::Finished;
                        StopAction::Done
                    },
                }
            },
        }
    }
}

/// What the driver must do next while waiting for a guest to shut down on
/// its own: poll liveness once per second, blocking, until the guest stops.
#[derive(Debug)]
pub enum WaitAction {
    SleepAndRecheck { seconds: u64 },
    Done,
}

/// One step of waiting for a guest to shut down: a live guest means another
/// one-second sleep and recheck; a stopped guest ends the wait.
pub fn wait_for_guest_to_shutdown_step(booted: bool) -> (r: WaitAction)
    ensures
        booted ==> (r matches WaitAction::SleepAndRecheck { seconds } && seconds
            == POLL_INTERVAL_SECONDS),
        !booted ==> r is Done,
{
    if booted {
        WaitAction::SleepAndRecheck { seconds: POLL_INTERVAL_SECONDS }
    } else {
        WaitAction::Done
    }
}

fn build_qemu_start(
    connection: &SshConnection,
    guest_id: &String,
    guest: &Guest,
    boot_from_cdrom: bool,
    boot_from_network: bool,
    cdrom_paths: &Vec<String>,
    floppy_path: &Option<String>,
) -> (r: Invocation)
    ensures
        r@ == qemu_start_model(
            connection.destination@,
            guest_id@,
            *guest,
            boot_from_cdrom,
            boot_from_network,
            cdrom_paths@.map_values(|p: String| p@),
            match floppy_path {
                Some(p) => Some(p@),
                None => None,
            },
        ),
{
    let ghost dest = connection.destination@;
    let mut invocation = connection.command("qemu-system-x86_64");
    let ghost base_args = invocation@.args;
    invocation.arg("-name");
    invocation.arg_string(guest_id.clone());
    invocation.arg("-machine");
    invocation.arg("q35,accel=kvm");
    invocation.arg("-cpu");
    invocation.arg_string(guest.host.clone());
    invocation.arg("-m");
    invocation.arg_string(concat_str(u64_to_string(guest.memory).as_str(), "M"));
    invocation.arg("-smp");
    invocation.arg_string(u64_to_string(guest.cores));
    invocation.arg("-no-user-config");
    invocation.arg("-nodefaults");
    invocation.arg("-daemonize");
    invocation.arg("-runas");
    invocation.arg("nobody");
    invocation.arg("-monitor");
    let mut monitor_arg = "unix:".to_owned();
    monitor_arg.append(guest.monitor_socket_path.as_str());
    monitor_arg.append(",server,nowait");
    invocation.arg_string(monitor_arg);
    invocation.arg("-pidfile");
    invocation.arg_string(guest.pidfile_path.clone());
    invocation.arg("-vga");
    invocation.arg("std");
    invocation.arg("-spice");
    let mut spice_arg = "port=".to_owned();
    spice_arg.append(u64_to_string(guest.spice_port).as_str());
    spice_arg.append(",disable-ticketing=on");
    invocation.arg_string(spice_arg);
    invocation.arg("-object");
    invocation.arg("iothread,id=iothread1");
    invocation.arg("-device");
    invocation.arg("virtio-scsi-pci-non-transitional,iothread=iothread1");
    proof {
        assert(invocation@.args =~= base_args + qemu_fixed_args(guest_id@, *guest));
    }
    let ghost after_fixed = invocation@.args;
    proof {
        assert(invocation@.args =~= after_fixed + nics_args(guest.network_interfaces@, 0));
    }
    let mut i: usize = 0;
    while i < guest.network_interfaces.len()
        invariant
            i <= guest.network_interfaces@.len(),
            invocation@.program == "ssh"@,
            invocation@.args == after_fixed + nics_args(guest.network_interfaces@, i as int),
        decreases guest.network_interfaces@.len() - i,
    {
        let nic = &guest.network_interfaces[i];
        invocation.arg("-device");
        let mut dev = nic.model.clone();
        dev.append(",netdev=network.");
        dev.append(nic.tap_name.as_str());
        dev.append(",mac=");
        dev.append(nic.mac_address.as_str());
        invocation.arg_string(dev);
        invocation.arg("-netdev");
        let mut netdev = "tap,id=network.".to_owned();
        netdev.append(nic.tap_name.as_str());
        netdev.append(",ifname=");
        netdev.append(nic.tap_name.as_str());
        netdev.append(",script=no,downscript=no");
        invocation.arg_string(netdev);
        proof {
            assert(invocation@.args =~= after_fixed + nics_args(
                guest.network_interfaces@,
                i as int + 1,
            ));
        }
        i = i + 1;
    }
    let ghost after_nics = invocation@.args;
    proof {
        assert(invocation@.args =~= after_nics + disks_args(guest.disks@, 0));
    }
    let mut d: usize = 0;
    while d < guest.disks.len()
        invariant
            d <= guest.disks@.len(),
            invocation@.program == "ssh"@,
            invocation@.args == after_nics + disks_args(guest.disks@, d as int),
        decreases guest.disks@.len() - d,
    {
        let disk = &guest.disks[d];
        invocation.arg("-device");
        let mut dev = disk.model.clone();
        dev.append(",drive=drive.");
        dev.append(disk.label.as_str());
        invocation.arg_string(dev);
        invocation.arg("-drive");
        let scsi = "scsi-hd".to_owned();
        let mut drive = "if=none,id=drive.".to_owned();
        drive.append(disk.label.as_str());
        drive.append(",format=qcow2,file=");
        drive.append(disk.path.as_str());
        if disk.model == scsi {
            drive.append(",index=");
            drive.append(u64_to_string(d as u64).as_str());
        }
        invocation.arg_string(drive);
        proof {
            assert(invocation@.args =~= after_nics + disks_args(guest.disks@, d as int + 1));
        }
        d = d + 1;
    }
    let ghost after_disks = invocation@.args;
    if boot_from_cdrom {
        invocation.arg("-boot");
        invocation.arg("d");
    }
    if boot_from_network {
        invocation.arg("-boot");
        invocation.arg("n");
    }
    proof {
        assert(invocation@.args =~= after_disks + boot_args(boot_from_cdrom, boot_from_network));
    }
    let ghost after_boot = invocation@.args;
    let ghost cdrom_models = cdrom_paths@.map_values(|p: String| p@);
    proof {
        assert(invocation@.args =~= after_boot + cdroms_args(cdrom_models, 0));
    }
    let mut c: usize = 0;
    while c < cdrom_paths.len()
        invariant
            c <= cdrom_paths@.len(),
            cdrom_models == cdrom_paths@.map_values(|p: String| p@),
            invocation@.program == "ssh"@,
            invocation@.args == after_boot + cdroms_args(cdrom_models, c as int),
        decreases cdrom_paths@.len() - c,
    {
        proof {
            assert(cdrom_models[c as int] == cdrom_paths@[c as int]@);
        }
        invocation.arg("-device");
        let mut dev = "scsi-cd,drive=drive.cd".to_owned();
        dev.append(u64_to_string(c as u64).as_str());
        invocation.arg_string(dev);
        invocation.arg("-drive");
        let mut drive = "if=none,id=drive.cd".to_owned();
        drive.append(u64_to_string(c as u64).as_str());
        drive.append(",format=raw,media=cdrom,file=");
        drive.append(cdrom_paths[c].as_str());
        invocation.arg_string(drive);
        proof {
            assert(invocation@.args =~= after_boot + cdroms_args(cdrom_models, c as int + 1));
        }
        c = c + 1;
    }
    match floppy_path {
        Some(path) => {
            invocation.arg("-drive");
            let mut drive = "if=floppy,id=drive.fd0,format=raw,file=fat:floppy:rw:".to_owned();
            drive.append(path.as_str());
            invocation.arg_string(drive);
        },
        None => {
        },
    }
    proof {
        assert(invocation@.args =~= qemu_start_model(
            dest,
            guest_id@,
            *guest,
            boot_from_cdrom,
            boot_from_network,
            cdrom_models,
            match floppy_path {
                Some(p) => Some(p@),
                None => None,
            },
        ).args);
    }
    invocation
}

} // verus!
