//! The inventory lookups, the command planning of every guest operation,
//! and the stop state machine, on a small concrete inventory.

use mima::command::Invocation;
use mima::config::default_disk_model;
use mima::config::default_host;
use mima::config::default_network_interface_model;
use mima::config::App;
use mima::config::Disk;
use mima::config::Guest;
use mima::config::Network;
use mima::config::NetworkInterface;
use mima::connection::GuestConnection;
use mima::connection::SshConnection;
use mima::errors::Error;
use mima::lifecycle::guest_state;
use mima::lifecycle::is_booted;
use mima::lifecycle::exists_probe_invocation;
use mima::lifecycle::liveness_probe_invocation;
use mima::lifecycle::wait_for_guest_to_shutdown_step;
use mima::lifecycle::GuestState;
use mima::lifecycle::LivenessEvidence;
use mima::lifecycle::StopAction;
use mima::lifecycle::StopPhase;
use mima::lifecycle::StopSession;
use mima::lifecycle::WaitAction;
use mima::listing::sort_snapshots_by_timestamp;
use mima::operations::disk_info_invocation;
use mima::operations::interpret_snapshot_report;
use mima::snapshots::Snapshot;
use mima::snapshots::Timestamp;
use mima::transfer::choose_input;
use mima::transfer::execute_file_on_guest_commands;
use mima::transfer::execute_script_on_guest_command;
use mima::transfer::InputSource;

fn ssh_prefix(timeout: &str, destination: &str) -> Vec<String> {
    vec![
        "-o".to_string(),
        "BatchMode=yes".to_string(),
        "-o".to_string(),
        format!("ConnectTimeout={timeout}"),
        "-o".to_string(),
        "ForwardAgent=yes".to_string(),
        "-o".to_string(),
        "StrictHostKeyChecking=no".to_string(),
        "-o".to_string(),
        "UserKnownHostsFile=/dev/null".to_string(),
        format!("root@{destination}"),
    ]
}

fn snap(id: &str, secs: u64) -> Snapshot {
    Snapshot { id: id.to_string(), timestamp: Timestamp { secs, nanos: 0 } }
}

fn sample_app() -> App {
    let guest = Guest {
        description: "main guest".to_string(),
        ip_address: Some("10.0.0.9".to_string()),
        memory: 512,
        cores: 2,
        spice_port: 5900,
        host: default_host(),
        monitor_socket_path: "/run/mima/zero.sock".to_string(),
        pidfile_path: "/run/mima/zero.pid".to_string(),
        network_interfaces: vec![NetworkInterface {
            network_id: "lan".to_string(),
            mac_address: "52:54:00:00:00:01".to_string(),
            model: default_network_interface_model(),
            tap_name: "tap0".to_string(),
        }],
        disks: vec![
            Disk {
                label: "sda".to_string(),
                path: "/images/zero-sda.qcow2".to_string(),
                size: 20,
                model: default_disk_model(),
            },
            Disk {
                label: "sdb".to_string(),
                path: "/images/zero-sdb.qcow2".to_string(),
                size: 30,
                model: default_disk_model(),
            },
        ],
    };
    let bare = Guest {
        description: "no address".to_string(),
        ip_address: None,
        memory: 128,
        cores: 1,
        spice_port: 5901,
        host: default_host(),
        monitor_socket_path: "/run/mima/one.sock".to_string(),
        pidfile_path: "/run/mima/one.pid".to_string(),
        network_interfaces: Vec::new(),
        disks: Vec::new(),
    };
    App {
        host: "kvm.example".to_string(),
        guests: vec![("zero".to_string(), guest), ("one".to_string(), bare)],
        networks: vec![("lan".to_string(), Network { bridge_name: "br0".to_string() })],
    }
}

#[test]
fn defaults_match_the_declared_values() {
    assert_eq!(default_host(), "host");
    assert_eq!(default_disk_model(), "scsi-hd");
    assert_eq!(default_network_interface_model(), "virtio-net-pci-non-transitional");
}

#[test]
fn guest_lookup_finds_known_ids_only() {
    let app = sample_app();
    let guest = app.get_guest(&"zero".to_string()).unwrap();
    assert_eq!(guest.description, "main guest");
    let error = app.get_guest(&"nine".to_string()).unwrap_err();
    assert!(matches!(&error, Error::UnknownGuest { guest_id } if guest_id == "nine"));
    assert_eq!(error.message(), "Unknown guest 'nine'");
}

#[test]
fn network_lookup_finds_known_ids_only() {
    let app = sample_app();
    let network = app.get_network(&"lan".to_string()).unwrap();
    assert_eq!(network.bridge_name, "br0");
    let error = app.get_network(&"wan".to_string()).unwrap_err();
    assert!(matches!(&error, Error::UnknownNetwork { network_id } if network_id == "wan"));
}

#[test]
fn guest_disks_come_in_declared_order() {
    let app = sample_app();
    let disks = app.get_guest_disks(&"zero".to_string()).unwrap();
    assert_eq!(disks[0].label, "sda");
    assert_eq!(disks[1].label, "sdb");
}

#[test]
fn guest_connection_requires_a_configured_address() {
    let app = sample_app();
    let connection = app.get_guest_ssh_connection(&"zero".to_string()).unwrap();
    assert_eq!(connection.destination, "10.0.0.9");
    let error = app.get_guest_ssh_connection(&"one".to_string()).unwrap_err();
    assert!(matches!(&error, Error::MissingIpAddressConfiguration { guest_id } if guest_id == "one"));
    let host = app.get_host_ssh_connection();
    assert_eq!(host.destination, "kvm.example");
}

#[test]
fn ssh_connection_wraps_commands() {
    let connection = SshConnection::new("kvm.example");
    let invocation = connection.command("qemu-img");
    assert_eq!(invocation.program, "ssh");
    let mut expected = ssh_prefix("10", "kvm.example");
    expected.push("qemu-img".to_string());
    assert_eq!(invocation.args, expected);
}

#[test]
fn guest_connection_splits_the_command_into_words() {
    let connection = GuestConnection::new("10.0.0.9", 4);
    let invocation = connection.execute_with_args("mkdir -p /tmp", vec!["extra".to_string()]);
    assert_eq!(invocation.program, "ssh");
    assert_eq!(
        invocation.args,
        vec![
            "-o",
            "BatchMode=yes",
            "-o",
            "ConnectTimeout=4",
            "-o",
            "StrictHostKeyChecking=no",
            "-o",
            "UserKnownHostsFile=/dev/null",
            "-A",
            "root@10.0.0.9",
            "mkdir",
            "-p",
            "/tmp",
            "extra",
        ]
    );
}

#[test]
fn guest_connection_upload_targets_the_remote_path() {
    let connection = GuestConnection::new("10.0.0.9", 4);
    let invocation = connection.upload("/local/file", "/tmp");
    assert_eq!(invocation.program, "scp");
    assert_eq!(
        invocation.args,
        vec![
            "-o",
            "BatchMode=yes",
            "-o",
            "ConnectTimeout=4",
            "-o",
            "StrictHostKeyChecking=no",
            "-o",
            "UserKnownHostsFile=/dev/null",
            "/local/file",
            "root@10.0.0.9:/tmp",
        ]
    );
}

#[test]
fn disk_query_asks_for_shared_json_output() {
    let connection = SshConnection::new("kvm.example");
    let invocation = disk_info_invocation(&connection, &"/images/zero-sda.qcow2".to_string());
    let mut expected = ssh_prefix("10", "kvm.example");
    expected.push("qemu-img".to_string());
    expected.push("info".to_string());
    expected.push("--force-share".to_string());
    expected.push("--output=json".to_string());
    expected.push("/images/zero-sda.qcow2".to_string());
    assert_eq!(invocation.args, expected);
}

#[test]
fn unparseable_disk_output_is_its_own_error() {
    let connection = SshConnection::new("kvm.example");
    let invocation = disk_info_invocation(&connection, &"/images/zero-sda.qcow2".to_string());
    let report = interpret_snapshot_report(&invocation, &"not json".to_string(), None);
    let error = report.unwrap_err();
    match &error {
        Error::ParseCommandOutput { stdout, .. } => assert_eq!(stdout, "not json"),
        other => panic!("wrong error: {other:?}"),
    }
    let parsed = vec![snap("root", 1)];
    let report =
        interpret_snapshot_report(&invocation, &"{}".to_string(), Some(parsed)).unwrap();
    assert_eq!(report.len(), 1);
}

#[test]
fn guest_snapshots_reduce_across_disks() {
    let app = sample_app();
    let per_disk = vec![
        vec![snap("root", 1), snap("dev", 3)],
        vec![snap("root", 1), snap("centos6", 2), snap("dev", 4)],
    ];
    let reduced = app.get_guest_snapshots(&"zero".to_string(), &per_disk).unwrap();
    let names: Vec<String> = reduced.iter().map(|s| s.id.clone()).collect();
    assert_eq!(names, vec!["root", "dev"]);
    let error = app.get_guest_snapshots(&"nine".to_string(), &per_disk).unwrap_err();
    assert!(matches!(error, Error::UnknownGuest { .. }));
}

#[test]
fn apply_snapshot_needs_the_reduced_set_to_contain_the_id() {
    let app = sample_app();
    let snapshots = vec![snap("root", 1)];
    let cmds = app
        .apply_snapshot(&"zero".to_string(), &snapshots, &"root".to_string())
        .unwrap();
    assert_eq!(cmds.len(), 2);
    let mut expected = ssh_prefix("10", "kvm.example");
    expected.push("qemu-img".to_string());
    expected.push("snapshot".to_string());
    expected.push("-aroot".to_string());
    expected.push("/images/zero-sda.qcow2".to_string());
    assert_eq!(cmds[0].args, expected);
    assert_eq!(cmds[1].args[cmds[1].args.len() - 1], "/images/zero-sdb.qcow2");

    let error = app
        .apply_snapshot(&"zero".to_string(), &snapshots, &"dev".to_string())
        .unwrap_err();
    assert!(matches!(&error, Error::UnknownSnapshot { snapshot_id, .. } if snapshot_id == "dev"));
}

#[test]
fn delete_snapshot_touches_every_disk() {
    let app = sample_app();
    let snapshots = vec![snap("old", 5)];
    let cmds = app
        .delete_snapshot(&"zero".to_string(), &snapshots, &"old".to_string())
        .unwrap();
    assert_eq!(cmds.len(), 2);
    assert!(cmds[0].args.contains(&"-dold".to_string()));
    assert!(cmds[1].args.contains(&"-dold".to_string()));
}

#[test]
fn delete_snapshot_needs_the_reduced_set_to_contain_the_id() {
    let app = sample_app();
    let snapshots = vec![snap("old", 5)];
    let error = app
        .delete_snapshot(&"zero".to_string(), &snapshots, &"gone".to_string())
        .unwrap_err();
    assert!(matches!(&error, Error::UnknownSnapshot { snapshot_id, .. } if snapshot_id == "gone"));
}

#[test]
fn duplicate_snapshot_fails_before_any_creation_command() {
    // the id exists on the second disk only: the plan is refused and names
    // that disk, so no creation command is issued anywhere
    let app = sample_app();
    let per_disk = vec![Vec::new(), vec![snap("root", 1)]];
    let error = app
        .create_snapshot(&"zero".to_string(), &"root".to_string(), &per_disk)
        .unwrap_err();
    match &error {
        Error::DuplicateSnapshot { guest_id, disk_id, snapshot_id } => {
            assert_eq!(guest_id, "zero");
            assert_eq!(disk_id, "sdb");
            assert_eq!(snapshot_id, "root");
        }
        other => panic!("wrong error: {other:?}"),
    }
}

#[test]
fn create_snapshot_plans_one_command_per_disk() {
    let app = sample_app();
    let per_disk = vec![vec![snap("root", 1)], vec![snap("root", 1)]];
    let cmds = app
        .create_snapshot(&"zero".to_string(), &"fresh".to_string(), &per_disk)
        .unwrap();
    assert_eq!(cmds.len(), 2);
    assert!(cmds[0].args.contains(&"-cfresh".to_string()));
    assert!(cmds[0].args.contains(&"/images/zero-sda.qcow2".to_string()));
    assert!(cmds[1].args.contains(&"/images/zero-sdb.qcow2".to_string()));
}

#[test]
fn initialize_guest_creates_only_missing_disks() {
    let app = sample_app();
    let cmds = app
        .initialize_guest(&"zero".to_string(), &vec![true, false])
        .unwrap();
    // the missing disk gets its parent directory, its image, and a root
    // snapshot; the existing disk is untouched
    assert_eq!(cmds.len(), 3);
    assert!(cmds[0].args.contains(&"mkdir".to_string()));
    assert!(cmds[0].args.contains(&"/images".to_string()));
    assert!(cmds[1].args.contains(&"create".to_string()));
    assert!(cmds[1].args.contains(&"30G".to_string()));
    assert!(cmds[2].args.contains(&"-croot".to_string()));
    assert!(cmds[2].args.contains(&"/images/zero-sdb.qcow2".to_string()));
}

#[test]
fn start_guest_is_idempotent_when_running() {
    let app = sample_app();
    let cmds = app
        .start_guest(&"zero".to_string(), true, false, false, &Vec::new(), &None)
        .unwrap();
    assert!(cmds.is_empty());
}

#[test]
fn start_guest_plans_the_full_boot_sequence() {
    let app = sample_app();
    let cmds = app
        .start_guest(&"zero".to_string(), false, false, false, &Vec::new(), &None)
        .unwrap();
    // two directory creations, the hypervisor, one tap attachment, the
    // pidfile permissions
    assert_eq!(cmds.len(), 5);
    assert!(cmds[0].args.contains(&"/run/mima".to_string()));
    let qemu = &cmds[2];
    let args = &qemu.args;
    assert!(args.contains(&"qemu-system-x86_64".to_string()));
    assert!(args.contains(&"-name".to_string()));
    assert!(args.contains(&"zero".to_string()));
    assert!(args.contains(&"512M".to_string()));
    assert!(args.contains(&"port=5900,disable-ticketing=on".to_string()));
    assert!(args.contains(&"unix:/run/mima/zero.sock,server,nowait".to_string()));
    assert!(args.contains(
        &"virtio-net-pci-non-transitional,netdev=network.tap0,mac=52:54:00:00:00:01".to_string()
    ));
    assert!(args.contains(
        &"if=none,id=drive.sda,format=qcow2,file=/images/zero-sda.qcow2,index=0".to_string()
    ));
    assert!(args.contains(
        &"if=none,id=drive.sdb,format=qcow2,file=/images/zero-sdb.qcow2,index=1".to_string()
    ));
    let attach = &cmds[3];
    assert!(attach.args.contains(&"tap0".to_string()));
    assert!(attach.args.contains(&"br0".to_string()));
    assert!(attach.args.contains(&"master".to_string()));
    let chmod = &cmds[4];
    assert!(chmod.args.contains(&"644".to_string()));
    assert!(chmod.args.contains(&"/run/mima/zero.pid".to_string()));
}

#[test]
fn start_guest_boot_options_add_their_arguments() {
    let app = sample_app();
    let cmds = app
        .start_guest(
            &"zero".to_string(),
            false,
            true,
            false,
            &vec!["/isos/install.iso".to_string()],
            &Some("/isos/drivers.img".to_string()),
        )
        .unwrap();
    let args = &cmds[2].args;
    assert!(args.contains(&"-boot".to_string()));
    assert!(args.contains(&"d".to_string()));
    assert!(args.contains(&"scsi-cd,drive=drive.cd0".to_string()));
    assert!(args.contains(
        &"if=none,id=drive.cd0,format=raw,media=cdrom,file=/isos/install.iso".to_string()
    ));
    assert!(args.contains(
        &"if=floppy,id=drive.fd0,format=raw,file=fat:floppy:rw:/isos/drivers.img".to_string()
    ));
}

#[test]
fn start_guest_fails_on_an_unknown_network() {
    let mut app = sample_app();
    app.guests[0].1.network_interfaces[0].network_id = "wan".to_string();
    let error = app
        .start_guest(&"zero".to_string(), false, false, false, &Vec::new(), &None)
        .unwrap_err();
    assert!(matches!(&error, Error::UnknownNetwork { network_id } if network_id == "wan"));
}

#[test]
fn liveness_needs_all_three_conditions() {
    let all = LivenessEvidence {
        pidfile_exists: true,
        monitor_socket_exists: true,
        process_probe_success: true,
    };
    assert!(is_booted(&all));
    assert_eq!(guest_state(&all), GuestState::Running);
    let stale = LivenessEvidence {
        pidfile_exists: true,
        monitor_socket_exists: true,
        process_probe_success: false,
    };
    assert!(!is_booted(&stale));
    assert_eq!(guest_state(&stale), GuestState::Stopped);
}

#[test]
fn liveness_probe_argument_vector() {
    let connection = SshConnection::new("kvm.example");
    let probe = liveness_probe_invocation(&connection, &"/run/mima/zero.pid".to_string());
    let mut expected = ssh_prefix("10", "kvm.example");
    expected.push("pgrep".to_string());
    expected.push("--full".to_string());
    expected.push("--pidfile".to_string());
    expected.push("/run/mima/zero.pid".to_string());
    expected.push("qemu".to_string());
    assert_eq!(probe.args, expected);

    let exists = exists_probe_invocation(&connection, &"/images/zero-sda.qcow2".to_string());
    let tail = &exists.args[exists.args.len() - 3..];
    assert_eq!(tail, ["test", "-e", "/images/zero-sda.qcow2"]);
}

fn stop_session(wait: u64, force: bool) -> StopSession {
    StopSession::new(
        SshConnection::new("kvm.example"),
        "/run/mima/zero.sock".to_string(),
        "/run/mima/zero.pid".to_string(),
        wait,
        force,
    )
}

#[test]
fn stop_on_a_stopped_guest_issues_nothing() {
    let mut session = stop_session(60, false);
    match session.on_liveness(false) {
        StopAction::Done => {}
        other => panic!("wrong action: {other:?}"),
    }
    assert_eq!(session.phase, StopPhase::Finished);
}

#[test]
fn forced_stop_kills_at_once() {
    let mut session = stop_session(60, true);
    match session.on_liveness(true) {
        StopAction::RunKill { invocation } => {
            assert!(invocation.args.contains(&"pkill".to_string()));
            assert!(!invocation.args.contains(&"-9".to_string()));
        }
        other => panic!("wrong action: {other:?}"),
    }
    match session.on_kill(Ok(String::new())) {
        StopAction::SleepAndRecheck { seconds } => assert_eq!(seconds, 1),
        other => panic!("wrong action: {other:?}"),
    }
    // still alive one second later: escalate
    match session.on_liveness(true) {
        StopAction::RunKill { invocation } => {
            assert!(invocation.args.contains(&"-9".to_string()));
        }
        other => panic!("wrong action: {other:?}"),
    }
    match session.on_kill(Ok(String::new())) {
        StopAction::Done => {}
        other => panic!("wrong action: {other:?}"),
    }
}

#[test]
fn soft_stop_polls_then_gives_up_and_kills() {
    let mut session = stop_session(2, false);
    match session.on_liveness(true) {
        StopAction::SendPowerdown { invocation, line } => {
            assert_eq!(line, "system_powerdown");
            assert!(invocation.args.contains(&"socat".to_string()));
            assert!(invocation
                .args
                .contains(&"UNIX-CONNECT:/run/mima/zero.sock".to_string()));
        }
        other => panic!("wrong action: {other:?}"),
    }
    match session.on_powerdown(true, true) {
        StopAction::SleepAndRecheck { seconds } => assert_eq!(seconds, 1),
        other => panic!("wrong action: {other:?}"),
    }
    // still alive after the first poll: one poll left
    match session.on_liveness(true) {
        StopAction::SleepAndRecheck { seconds } => assert_eq!(seconds, 1),
        other => panic!("wrong action: {other:?}"),
    }
    // the window is spent: the kill follows
    match session.on_liveness(true) {
        StopAction::RunKill { invocation } => {
            assert!(invocation.args.contains(&"pkill".to_string()));
        }
        other => panic!("wrong action: {other:?}"),
    }
}

#[test]
fn soft_stop_ends_as_soon_as_the_guest_dies() {
    let mut session = stop_session(60, false);
    session.on_liveness(true);
    session.on_powerdown(true, true);
    match session.on_liveness(false) {
        StopAction::Done => {}
        other => panic!("wrong action: {other:?}"),
    }
}

#[test]
fn failed_powerdown_write_is_reported_but_does_not_end_the_stop() {
    // the soft shutdown is best-effort: the monitor error is surfaced and
    // the poll window still opens
    let mut session = stop_session(60, false);
    session.on_liveness(true);
    match session.on_powerdown(true, false) {
        StopAction::ReportThenRecheck { error, seconds } => {
            assert_eq!(seconds, 1);
            assert!(matches!(&error, Error::MonitorCommand { .. }));
            assert_eq!(
                error.message(),
                "Failed to issue command 'system_powerdown' to monitor socket '/run/mima/zero.sock'"
            );
        }
        other => panic!("wrong action: {other:?}"),
    }
    // the operation goes on: a still-live guest keeps being polled
    match session.on_liveness(true) {
        StopAction::SleepAndRecheck { seconds } => assert_eq!(seconds, 1),
        other => panic!("wrong action: {other:?}"),
    }
}

#[test]
fn failed_powerdown_write_with_no_window_still_kills() {
    let mut session = stop_session(0, false);
    session.on_liveness(true);
    match session.on_powerdown(true, false) {
        StopAction::ReportThenKill { error, invocation } => {
            assert!(matches!(&error, Error::MonitorCommand { .. }));
            assert!(invocation.args.contains(&"pkill".to_string()));
        }
        other => panic!("wrong action: {other:?}"),
    }
}

#[test]
fn failed_powerdown_spawn_ends_the_stop() {
    let mut session = stop_session(60, false);
    session.on_liveness(true);
    match session.on_powerdown(false, false) {
        StopAction::Fail { error } => {
            assert!(matches!(&error, Error::ProcessExecution { .. }));
        }
        other => panic!("wrong action: {other:?}"),
    }
}

#[test]
fn waiting_polls_until_the_guest_stops() {
    match wait_for_guest_to_shutdown_step(true) {
        WaitAction::SleepAndRecheck { seconds } => assert_eq!(seconds, 1),
        other => panic!("wrong action: {other:?}"),
    }
    match wait_for_guest_to_shutdown_step(false) {
        WaitAction::Done => {}
        other => panic!("wrong action: {other:?}"),
    }
}

#[test]
fn snapshot_rows_render_the_calendar_timestamp() {
    let row = mima::listing::snapshot_row(&snap("root", 1)).unwrap();
    assert_eq!(row, vec!["root", "1970-01-01 00:00:01"]);
    let later = mima::listing::snapshot_row(&snap("dev", 1700000000)).unwrap();
    assert_eq!(later, vec!["dev", "2023-11-14 22:13:20"]);
}

#[test]
fn snapshot_rows_cover_the_whole_calendar() {
    // a row is owed up to the calendar's last representable second
    let bound = mima::listing::MAX_CALENDAR_SECS;
    let last = mima::listing::snapshot_row(&snap("edge", bound)).unwrap();
    assert_eq!(last, vec!["edge", "9999-12-31 23:59:59"]);
    assert!(mima::listing::snapshot_row(&snap("past", bound + 1)).is_none());
}

#[test]
fn snapshots_sort_by_timestamp_for_display() {
    let unsorted = vec![snap("c", 30), snap("a", 10), snap("b", 20)];
    let sorted = sort_snapshots_by_timestamp(unsorted);
    let names: Vec<String> = sorted.iter().map(|s| s.id.clone()).collect();
    assert_eq!(names, vec!["a", "b", "c"]);
}

#[test]
fn listing_rows_carry_the_declared_columns() {
    let app = sample_app();
    let guest = app.get_guest(&"zero".to_string()).unwrap();
    let row = guest.list_row(&"zero".to_string(), true);
    assert_eq!(row, vec!["zero", "true", "5900", "main guest"]);
    let details = guest.details_row(&"zero".to_string(), false);
    assert_eq!(details, vec!["zero", "false", "5900", "512", "2", "main guest"]);
    let disk_row = guest.disks[0].details_row();
    assert_eq!(disk_row, vec!["sda", "20", "/images/zero-sda.qcow2"]);
    let nic_row = guest.network_interfaces[0].details_row();
    assert_eq!(
        nic_row,
        vec!["lan", "virtio-net-pci-non-transitional", "52:54:00:00:00:01", "tap0"]
    );
}

#[test]
fn input_source_decision() {
    let from_file = choose_input(&Some("/tmp/s.sh".to_string()), true, true).unwrap();
    assert_eq!(from_file, InputSource::FromPath);
    let error = choose_input(&Some("/tmp/s.sh".to_string()), false, true).unwrap_err();
    assert!(matches!(&error, Error::InvalidFile { path } if path == "/tmp/s.sh"));
    let piped = choose_input(&None, false, false).unwrap();
    assert_eq!(piped, InputSource::InheritedStdin);
    let error = choose_input(&None, false, true).unwrap_err();
    assert!(matches!(&error, Error::MissingInputPathOrStdin { .. }));
    assert_eq!(error.message(), "missing input path or STDIN data");
}

#[test]
fn copy_file_plans_the_folder_then_the_write() {
    let app = sample_app();
    let (source, mkdir, tee) = app
        .copy_file_to_guest(
            &"zero".to_string(),
            &"/etc/app/config".to_string(),
            &Some("/local/config".to_string()),
            true,
            true,
        )
        .unwrap();
    assert_eq!(source, InputSource::FromPath);
    let tail = &mkdir.args[mkdir.args.len() - 4..];
    assert_eq!(tail, ["mkdir", "--parents", "$(dirname", "/etc/app/config)"]);
    let tee_tail = &tee.args[tee.args.len() - 2..];
    assert_eq!(tee_tail, ["tee", "/etc/app/config"]);
}

#[test]
fn copy_file_validates_input_before_the_guest() {
    // a bad source path wins over an unknown guest id
    let app = sample_app();
    let error = app
        .copy_file_to_guest(
            &"nine".to_string(),
            &"/etc/app/config".to_string(),
            &Some("/local/config".to_string()),
            false,
            true,
        )
        .unwrap_err();
    assert!(matches!(error, Error::InvalidFile { .. }));
}

#[test]
fn execute_file_stages_uploads_and_runs() {
    let connection = GuestConnection::new("10.0.0.9", 4);
    let cmds = execute_file_on_guest_commands(
        &connection,
        &"/local/setup.sh".to_string(),
        true,
        vec!["--fast".to_string()],
    )
    .unwrap();
    assert_eq!(cmds.len(), 4);
    let mkdir_tail = &cmds[0].args[cmds[0].args.len() - 3..];
    assert_eq!(mkdir_tail, ["mkdir", "-p", "/tmp"]);
    assert_eq!(cmds[1].program, "scp");
    assert_eq!(cmds[1].args[cmds[1].args.len() - 2], "/local/setup.sh");
    let chmod_tail = &cmds[2].args[cmds[2].args.len() - 3..];
    assert_eq!(chmod_tail, ["chmod", "+x", "/tmp/setup.sh"]);
    let run_tail = &cmds[3].args[cmds[3].args.len() - 2..];
    assert_eq!(run_tail, ["/tmp/setup.sh", "--fast"]);

    let error = execute_file_on_guest_commands(
        &connection,
        &"/local/missing.sh".to_string(),
        false,
        Vec::new(),
    )
    .unwrap_err();
    assert!(matches!(&error, Error::InvalidFile { path } if path == "/local/missing.sh"));
}

#[test]
fn script_runs_piped_through_the_shell() {
    let connection = GuestConnection::new("10.0.0.9", 4);
    let invocation =
        execute_script_on_guest_command(&connection, vec!["one".to_string(), "two".to_string()]);
    let tail = &invocation.args[invocation.args.len() - 5..];
    assert_eq!(tail, ["bash", "-s", "-", "one", "two"]);
}

#[test]
fn connecting_hands_extra_arguments_to_ssh() {
    let app = sample_app();
    let invocation = app
        .connect_to_guest(&"zero".to_string(), vec!["-L".to_string(), "80:x:80".to_string()])
        .unwrap();
    assert_eq!(invocation.program, "ssh");
    let tail = &invocation.args[invocation.args.len() - 3..];
    assert_eq!(tail, ["root@10.0.0.9", "-L", "80:x:80"]);
}

#[test]
fn host_connection_prepares_split_commands() {
    let connection = mima::connection::HostConnection::new("kvm.example", 8);
    let invocation = connection.prepare("qemu-img info");
    assert_eq!(invocation.program, "ssh");
    let tail = &invocation.args[invocation.args.len() - 3..];
    assert_eq!(tail, ["root@kvm.example", "qemu-img", "info"]);
    assert!(invocation.args.contains(&"ConnectTimeout=8".to_string()));
}

#[test]
fn parent_dir_commands_use_fixed_permissions() {
    let connection = SshConnection::new("kvm.example");
    let invocation = mima::operations::create_parent_dir_invocation(
        &connection,
        &"/images/zero-sda.qcow2".to_string(),
    )
    .unwrap();
    let tail = &invocation.args[invocation.args.len() - 5..];
    assert_eq!(tail, ["mkdir", "--mode", "0755", "-p", "/images"]);
    assert!(mima::operations::create_parent_dir_invocation(
        &connection,
        &"bare.qcow2".to_string()
    )
    .is_none());
}
