//! The snapshot operations: querying and reducing per-disk snapshot reports,
//! and planning the command sequences of the snapshot lifecycle. Every
//! operation is a pure function from the inventory and the queried data to
//! the exact commands a driver must run, or the error that forbids them.

use vstd::prelude::*;

use crate::command::Invocation;
use crate::command::InvocationModel;
use crate::config::App;
use crate::config::Disk;
use crate::connection::SshConnection;
use crate::connection::ssh_command_model;
use crate::errors::Error;
use crate::paths::parent_dir;
use crate::paths::parent_dir_spec;
use crate::render::concat_str;
use crate::render::dec_digits;
use crate::render::u64_to_string;
use crate::snapshots::Snapshot;
use crate::snapshots::disk_models;
use crate::snapshots::disks_models;
use crate::snapshots::guest_level;
use crate::snapshots::has_id;
use crate::snapshots::lookup_timestamp;
use crate::snapshots::reduce_snapshots;

verus! {

/// The models of a command sequence.
pub open spec fn invocation_models(s: Seq<Invocation>) -> Seq<InvocationModel> {
    s.map_values(|i: Invocation| i@)
}

/// Appending one invocation appends its model.
pub proof fn lemma_models_push(pre: Seq<Invocation>, cur: Seq<Invocation>, x: Invocation)
    requires
        cur == pre.push(x),
    ensures
        invocation_models(cur) == invocation_models(pre).push(x@),
{
    assert forall|p: int| 0 <= p < cur.len() implies invocation_models(cur)[p]
        == invocation_models(pre).push(x@)[p] by {
        if p < pre.len() {
            assert(cur[p] == pre[p]);
        } else {
            assert(cur[p] == x);
        }
    }
    assert(invocation_models(cur) =~= invocation_models(pre).push(x@));
}

/// The image-info query for one disk: JSON output, tolerating an image that
/// is concurrently open elsewhere.
pub open spec fn disk_info_model(destination: Seq<char>, disk_path: Seq<char>) -> InvocationModel {
    let base = ssh_command_model(destination, "qemu-img"@);
    InvocationModel {
        program: base.program,
        args: base.args + seq!["info"@, "--force-share"@, "--output=json"@, disk_path],
    }
}

/// Builds the image-info query for one disk.
pub fn disk_info_invocation(connection: &SshConnection, disk_path: &String) -> (r: Invocation)
    ensures
        r@ == disk_info_model(connection.destination@, disk_path@),
{
    let mut invocation = connection.command("qemu-img");
    invocation.arg("info");
    invocation.arg("--force-share");
    invocation.arg("--output=json");
    invocation.arg_string(disk_path.clone());
    proof {
        assert(invocation@.args =~= disk_info_model(connection.destination@, disk_path@).args);
    }
    invocation
}

/// Turns the outcome of parsing one disk's image-info output into that
/// disk's snapshot report: a failed parse is its own error kind, carrying
/// the exact query and its raw output.
pub fn interpret_snapshot_report(
    invocation: &Invocation,
    stdout: &String,
    parsed: Option<Vec<Snapshot>>,
) -> (r: Result<Vec<Snapshot>, Error>)
    ensures
        match r {
            Ok(report) => parsed matches Some(p) && report == p,
            Err(e) => {
                &&& parsed is None
                &&& e matches Error::ParseCommandOutput { command, stdout: s } && command@
                    == invocation@.command_line() && s@ == stdout@
            },
        },
{
    match parsed {
        Some(report) => Ok(report),
        None => Err(
            Error::ParseCommandOutput {
                command: invocation.command_line(),
                stdout: stdout.clone(),
            },
        ),
    }
}

impl App {
    /// Reduces the per-disk snapshot reports of a guest, queried disk by
    /// disk in declared order, into the guest-level snapshot set.
    pub fn get_guest_snapshots(&self, guest_id: &String, per_disk: &Vec<Vec<Snapshot>>) -> (r:
        Result<Vec<Snapshot>, Error>)
        ensures
            match r {
                Ok(snapshots) => {
                    &&& self.guest_of(guest_id@) is Some
                    &&& disk_models(snapshots@) == guest_level(disks_models(per_disk@))
                },
                Err(e) => {
                    &&& self.guest_of(guest_id@) is None
                    &&& e matches Error::UnknownGuest { guest_id: g } && g@ == guest_id@
                },
            },
    {
        let _guest = self.get_guest(guest_id)?;
        Ok(reduce_snapshots(per_disk))
    }
}

/// One `qemu-img snapshot` command against one disk, with the flag argument
/// (`-c`, `-a` or `-d` glued to the snapshot id) it acts with.
pub open spec fn snapshot_op_model(
    destination: Seq<char>,
    flag_arg: Seq<char>,
    disk_path: Seq<char>,
) -> InvocationModel {
    let base = ssh_command_model(destination, "qemu-img"@);
    InvocationModel { program: base.program, args: base.args + seq!["snapshot"@, flag_arg, disk_path] }
}

/// The `qemu-img snapshot` commands against the first `n` disks, in declared
/// order, with the same flag argument each.
pub open spec fn snapshot_cmds_model(
    destination: Seq<char>,
    disks: Seq<Disk>,
    n: int,
    flag_arg: Seq<char>,
) -> Seq<InvocationModel>
    decreases n,
{
    if n <= 0 {
        Seq::empty()
    } else {
        snapshot_cmds_model(destination, disks, n - 1, flag_arg).push(
            snapshot_op_model(destination, flag_arg, disks[n - 1].path@),
        )
    }
}

fn build_snapshot_op(connection: &SshConnection, flag_arg: &String, disk_path: &String) -> (r:
    Invocation)
    ensures
        r@ == snapshot_op_model(connection.destination@, flag_arg@, disk_path@),
{
    let mut invocation = connection.command("qemu-img");
    invocation.arg("snapshot");
    invocation.arg_string(flag_arg.clone());
    invocation.arg_string(disk_path.clone());
    proof {
        assert(invocation@.args =~= snapshot_op_model(
            connection.destination@,
            flag_arg@,
            disk_path@,
        ).args);
    }
    invocation
}

fn build_snapshot_cmds(connection: &SshConnection, disks: &Vec<Disk>, flag_arg: &String) -> (r:
    Vec<Invocation>)
    ensures
        invocation_models(r@) == snapshot_cmds_model(
            connection.destination@,
            disks@,
            disks@.len() as int,
            flag_arg@,
        ),
{
    let mut r: Vec<Invocation> = Vec::new();
    proof {
        assert(invocation_models(r@) =~= snapshot_cmds_model(
            connection.destination@,
            disks@,
            0,
            flag_arg@,
        ));
    }
    let mut i: usize = 0;
    while i < disks.len()
        invariant
            i <= disks@.len(),
            invocation_models(r@) == snapshot_cmds_model(
                connection.destination@,
                disks@,
                i as int,
                flag_arg@,
            ),
        decreases disks@.len() - i,
    {
        let invocation = build_snapshot_op(connection, flag_arg, &disks[i].path);
        r.push(invocation);
        proof {
            assert(invocation_models(r@) =~= snapshot_cmds_model(
                connection.destination@,
                disks@,
                i as int + 1,
                flag_arg@,
            ));
        }
        i = i + 1;
    }
    r
}

impl App {
    /// Plans applying a snapshot: the snapshot must stand in the guest-level
    /// set; then one `qemu-img snapshot -a` command per disk, in declared
    /// order.
    pub fn apply_snapshot(
        &self,
        guest_id: &String,
        snapshots: &Vec<Snapshot>,
        snapshot_id: &String,
    ) -> (r: Result<Vec<Invocation>, Error>)
        ensures
            match r {
                Ok(cmds) => {
                    &&& self.guest_of(guest_id@) matches Some(g) && invocation_models(cmds@)
                        == snapshot_cmds_model(
                        self.host@,
                        g.disks@,
                        g.disks@.len() as int,
                        "-a"@ + snapshot_id@,
                    )
                    &&& has_id(disk_models(snapshots@), snapshot_id@)
                },
                Err(e) => match e {
                    Error::UnknownGuest { guest_id: g } => {
                        &&& self.guest_of(guest_id@) is None
                        &&& g@ == guest_id@
                    },
                    Error::UnknownSnapshot { guest_id: g, snapshot_id: s } => {
                        &&& self.guest_of(guest_id@) is Some
                        &&& !has_id(disk_models(snapshots@), snapshot_id@)
                        &&& g@ == guest_id@
                        &&& s@ == snapshot_id@
                    },
                    _ => false,
                },
            },
    {
        let connection = self.get_host_ssh_connection();
        let disks = self.get_guest_disks(guest_id)?;
        if !snapshot_set_contains(snapshots, snapshot_id) {
            return Err(
                Error::UnknownSnapshot {
                    guest_id: guest_id.clone(),
                    snapshot_id: snapshot_id.clone(),
                },
            );
        }
        let flag_arg = concat_str("-a", snapshot_id.as_str());
        Ok(build_snapshot_cmds(&connection, disks, &flag_arg))
    }

    /// Plans deleting a snapshot: the snapshot must stand in the guest-level
    /// set; then one `qemu-img snapshot -d` command per disk, in declared
    /// order.
    pub fn delete_snapshot(
        &self,
        guest_id: &String,
        snapshots: &Vec<Snapshot>,
        snapshot_id: &String,
    ) -> (r: Result<Vec<Invocation>, Error>)
        ensures
            match r {
                Ok(cmds) => {
                    &&& self.guest_of(guest_id@) matches Some(g) && invocation_models(cmds@)
                        == snapshot_cmds_model(
                        self.host@,
                        g.disks@,
                        g.disks@.len() as int,
                        "-d"@ + snapshot_id@,
                    )
                    &&& has_id(disk_models(snapshots@), snapshot_id@)
                },
                Err(e) => match e {
                    Error::UnknownGuest { guest_id: g } => {
                        &&& self.guest_of(guest_id@) is None
                        &&& g@ == guest_id@
                    },
                    Error::UnknownSnapshot { guest_id: g, snapshot_id: s } => {
                        &&& self.guest_of(guest_id@) is Some
                        &&& !has_id(disk_models(snapshots@), snapshot_id@)
                        &&& g@ == guest_id@
                        &&& s@ == snapshot_id@
                    },
                    _ => false,
                },
            },
    {
        let connection = self.get_host_ssh_connection();
        let disks = self.get_guest_disks(guest_id)?;
        if !snapshot_set_contains(snapshots, snapshot_id) {
            return Err(
                Error::UnknownSnapshot {
                    guest_id: guest_id.clone(),
                    snapshot_id: snapshot_id.clone(),
                },
            );
        }
        let flag_arg = concat_str("-d", snapshot_id.as_str());
        Ok(build_snapshot_cmds(&connection, disks, &flag_arg))
    }

    /// Plans creating a snapshot, given each disk's own report: if any disk
    /// already carries the id, the operation fails — naming the first such
    /// disk — before any creation command is issued on any disk; otherwise
    /// one `qemu-img snapshot -c` command per disk, in declared order.
    pub fn create_snapshot(
        &self,
        guest_id: &String,
        snapshot_id: &String,
        per_disk: &Vec<Vec<Snapshot>>,
    ) -> (r: Result<Vec<Invocation>, Error>)
        requires
            report_count_matches_disks(*self, guest_id@, per_disk@.len() as int),
        ensures
            match r {
                Ok(cmds) => {
                    &&& self.guest_of(guest_id@) matches Some(g) && invocation_models(cmds@)
                        == snapshot_cmds_model(
                        self.host@,
                        g.disks@,
                        g.disks@.len() as int,
                        "-c"@ + snapshot_id@,
                    )
                    &&& forall|i: int|
                        0 <= i < per_disk@.len() ==> !has_id(
                            disk_models(#[trigger] per_disk@[i]@),
                            snapshot_id@,
                        )
                },
                Err(e) => match e {
                    Error::UnknownGuest { guest_id: g } => {
                        &&& self.guest_of(guest_id@) is None
                        &&& g@ == guest_id@
                    },
                    Error::DuplicateSnapshot { guest_id: g, disk_id, snapshot_id: s } => {
                        &&& self.guest_of(guest_id@) matches Some(gu)
                        &&& exists|i: int|
                            {
                                &&& 0 <= i < per_disk@.len()
                                &&& has_id(disk_models(#[trigger] per_disk@[i]@), snapshot_id@)
                                &&& disk_id@ == gu.disks@[i].label@
                                &&& forall|t: int|
                                    0 <= t < i ==> !has_id(
                                        disk_models(#[trigger] per_disk@[t]@),
                                        snapshot_id@,
                                    )
                            }
                        &&& g@ == guest_id@
                        &&& s@ == snapshot_id@
                    },
                    _ => false,
                },
            },
    {
        let connection = self.get_host_ssh_connection();
        let disks = self.get_guest_disks(guest_id)?;
        let mut i: usize = 0;
        while i < per_disk.len()
            invariant
                i <= per_disk@.len(),
                per_disk@.len() == disks@.len(),
                self.guest_of(guest_id@) matches Some(g) && g.disks == *disks,
                forall|t: int|
                    0 <= t < i ==> !has_id(disk_models(#[trigger] per_disk@[t]@), snapshot_id@),
            decreases per_disk@.len() - i,
        {
            if snapshot_set_contains(&per_disk[i], snapshot_id) {
                proof {
                    assert({
                        &&& 0 <= i as int && (i as int) < per_disk@.len()
                        &&& has_id(disk_models(#[trigger] per_disk@[i as int]@), snapshot_id@)
                        &&& forall|t: int|
                            0 <= t < i as int ==> !has_id(
                                disk_models(#[trigger] per_disk@[t]@),
                                snapshot_id@,
                            )
                    });
                    let gspec = self.guest_of(guest_id@).unwrap();
                    assert(gspec.disks == *disks);
                    assert(gspec.disks@[i as int].label@ == disks@[i as int].label@);
                }
                return Err(
                    Error::DuplicateSnapshot {
                        guest_id: guest_id.clone(),
                        disk_id: disks[i].label.clone(),
                        snapshot_id: snapshot_id.clone(),
                    },
                );
            }
            i = i + 1;
        }
        let flag_arg = concat_str("-c", snapshot_id.as_str());
        Ok(build_snapshot_cmds(&connection, disks, &flag_arg))
    }
}

/// The command that creates a path's parent directory with fixed
/// permissions.
pub open spec fn mkdir_parent_model(destination: Seq<char>, parent: Seq<char>) -> InvocationModel {
    let base = ssh_command_model(destination, "mkdir"@);
    InvocationModel { program: base.program, args: base.args + seq!["--mode"@, "0755"@, "-p"@, parent] }
}

/// Builds the command that creates the parent directory of `path`, if the
/// path has one.
pub fn create_parent_dir_invocation(connection: &SshConnection, path: &String) -> (r: Option<
    Invocation,
>)
    ensures
        match parent_dir_spec(path@) {
            Some(p) => r matches Some(inv) && inv@ == mkdir_parent_model(
                connection.destination@,
                p,
            ),
            None => r is None,
        },
{
    match parent_dir(path.as_str()) {
        Some(parent) => {
            let mut invocation = connection.command("mkdir");
            invocation.arg("--mode");
            invocation.arg("0755");
            invocation.arg("-p");
            invocation.arg_string(parent);
            proof {
                assert(invocation@.args =~= mkdir_parent_model(
                    connection.destination@,
                    parent_dir_spec(path@).unwrap(),
                ).args);
            }
            Some(invocation)
        },
        None => None,
    }
}

/// The command that creates one disk's image: quiet, qcow2, lazy refcounts
/// and metadata preallocation, at the declared size in gigabytes.
pub open spec fn qemu_img_create_model(destination: Seq<char>, disk: Disk) -> InvocationModel {
    let base = ssh_command_model(destination, "qemu-img"@);
    InvocationModel {
        program: base.program,
        args: base.args + seq![
            "create"@,
            "-q"@,
            "-fqcow2"@,
            "-olazy_refcounts=on"@,
            "-opreallocation=metadata"@,
            disk.path@,
            dec_digits(disk.size as int) + "G"@,
        ],
    }
}

/// The commands that bring one missing disk into being: its parent directory
/// if the path has one, then the image itself.
pub open spec fn disk_create_models(destination: Seq<char>, disk: Disk) -> Seq<InvocationModel> {
    (match parent_dir_spec(disk.path@) {
        Some(p) => seq![mkdir_parent_model(destination, p)],
        None => Seq::empty(),
    }) + seq![qemu_img_create_model(destination, disk)]
}

/// The creation commands for the missing disks among the first `n`.
pub open spec fn init_create_models(
    destination: Seq<char>,
    disks: Seq<Disk>,
    present: Seq<bool>,
    n: int,
) -> Seq<InvocationModel>
    decreases n,
{
    if n <= 0 {
        Seq::empty()
    } else {
        init_create_models(destination, disks, present, n - 1) + (if present[n - 1] {
            Seq::empty()
        } else {
            disk_create_models(destination, disks[n - 1])
        })
    }
}

/// The root-snapshot commands for the missing disks among the first `n`.
pub open spec fn init_root_models(
    destination: Seq<char>,
    disks: Seq<Disk>,
    present: Seq<bool>,
    n: int,
) -> Seq<InvocationModel>
    decreases n,
{
    if n <= 0 {
        Seq::empty()
    } else {
        init_root_models(destination, disks, present, n - 1) + (if present[n - 1] {
            Seq::empty()
        } else {
            seq![snapshot_op_model(destination, "-croot"@, disks[n - 1].path@)]
        })
    }
}

fn build_qemu_img_create(connection: &SshConnection, disk: &Disk) -> (r: Invocation)
    ensures
        r@ == qemu_img_create_model(connection.destination@, *disk),
{
    let mut invocation = connection.command("qemu-img");
    invocation.arg("create");
    invocation.arg("-q");
    invocation.arg("-fqcow2");
    invocation.arg("-olazy_refcounts=on");
    invocation.arg("-opreallocation=metadata");
    invocation.arg_string(disk.path.clone());
    invocation.arg_string(concat_str(u64_to_string(disk.size).as_str(), "G"));
    proof {
        assert(invocation@.args =~= qemu_img_create_model(connection.destination@, *disk).args);
    }
    invocation
}

impl App {
    /// Plans initializing a guest, given which disk images already exist on
    /// the host: each missing disk's parent directory and image are created,
    /// in declared order, and then each freshly created disk receives a
    /// `root` snapshot. Disks that already exist are left untouched.
    pub fn initialize_guest(&self, guest_id: &String, present: &Vec<bool>) -> (r: Result<
        Vec<Invocation>,
        Error,
    >)
        requires
            report_count_matches_disks(*self, guest_id@, present@.len() as int),
        ensures
            match r {
                Ok(cmds) => self.guest_of(guest_id@) matches Some(g) && invocation_models(cmds@)
                    == init_create_models(self.host@, g.disks@, present@, g.disks@.len() as int)
                    + init_root_models(self.host@, g.disks@, present@, g.disks@.len() as int),
                Err(e) => {
                    &&& self.guest_of(guest_id@) is None
                    &&& e matches Error::UnknownGuest { guest_id: g } && g@ == guest_id@
                },
            },
    {
        let connection = self.get_host_ssh_connection();
        let disks = self.get_guest_disks(guest_id)?;
        let mut cmds: Vec<Invocation> = Vec::new();
        let ghost dest = connection.destination@;
        proof {
            assert(invocation_models(cmds@) =~= init_create_models(dest, disks@, present@, 0));
        }
        let mut i: usize = 0;
        while i < disks.len()
            invariant
                i <= disks@.len(),
                present@.len() == disks@.len(),
                dest == connection.destination@,
                invocation_models(cmds@) == init_create_models(dest, disks@, present@, i as int),
            decreases disks@.len() - i,
        {
            if !present[i] {
                match create_parent_dir_invocation(&connection, &disks[i].path) {
                    Some(mkdir) => {
                        cmds.push(mkdir);
                    },
                    None => {
                    },
                }
                let create = build_qemu_img_create(&connection, &disks[i]);
                cmds.push(create);
            }
            proof {
                assert(invocation_models(cmds@) =~= init_create_models(
                    dest,
                    disks@,
                    present@,
                    i as int + 1,
                ));
            }
            i = i + 1;
        }
        let ghost create_part = invocation_models(cmds@);
        proof {
            assert(invocation_models(cmds@) =~= create_part + init_root_models(
                dest,
                disks@,
                present@,
                0,
            ));
        }
        let mut j: usize = 0;
        while j < disks.len()
            invariant
                j <= disks@.len(),
                present@.len() == disks@.len(),
                dest == connection.destination@,
                invocation_models(cmds@) == create_part + init_root_models(
                    dest,
                    disks@,
                    present@,
                    j as int,
                ),
            decreases disks@.len() - j,
        {
            let ghost pre = cmds@;
            let missing: bool = !present[j];
            proof {
                assert(missing == !present@[j as int]);
            }
            if missing {
                let root_flag = "-croot".to_owned();
                let root_cmd = build_snapshot_op(&connection, &root_flag, &disks[j].path);
                proof {
                    assert(root_cmd@ == snapshot_op_model(dest, "-croot"@, disks@[j as int].path@));
                }
                cmds.push(root_cmd);
            }
            proof {
                let tail = if present@[j as int] {
                    Seq::<InvocationModel>::empty()
                } else {
                    seq![snapshot_op_model(dest, "-croot"@, disks@[j as int].path@)]
                };
                assert(init_root_models(dest, disks@, present@, j as int + 1) == init_root_models(
                    dest,
                    disks@,
                    present@,
                    j as int,
                ) + tail);
                if missing {
                    lemma_models_push(pre, cmds@, cmds@.last());
                    assert(cmds@.last()@ == snapshot_op_model(
                        dest,
                        "-croot"@,
                        disks@[j as int].path@,
                    ));
                } else {
                    assert(cmds@ == pre);
                }
                assert(invocation_models(cmds@) =~= create_part + init_root_models(
                    dest,
                    disks@,
                    present@,
                    j as int + 1,
                ));
            }
            j = j + 1;
        }
        Ok(cmds)
    }
}

/// Whether the number of queried per-disk values matches a guest's declared
/// disk count; an unknown guest carries no obligation.
pub open spec fn report_count_matches_disks(app: App, guest_id: Seq<char>, reports: int) -> bool {
    match app.guest_of(guest_id) {
        Some(g) => reports == g.disks@.len(),
        None => true,
    }
}

/// Whether a snapshot report or the reduced guest-level set contains a name.
pub fn snapshot_set_contains(snapshots: &Vec<Snapshot>, snapshot_id: &String) -> (r: bool)
    ensures
        r == has_id(disk_models(snapshots@), snapshot_id@),
{
    let found = lookup_timestamp(snapshots, snapshot_id);
    proof {
        crate::snapshots::lemma_lookup_some_iff_has_id(disk_models(snapshots@), snapshot_id@);
    }
    match found {
        Some(_) => true,
        None => false,
    }
}

} // verus!
