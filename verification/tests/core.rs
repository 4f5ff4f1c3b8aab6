//! The execution-result interpretation, the backoff establisher, the
//! snapshot reduction and the text utilities, on concrete values.

use mima::command::execute;
use mima::command::Invocation;
use mima::command::RawOutcome;
use mima::connection::BackoffDecision;
use mima::connection::ConnectionEstablisher;
use mima::errors::Error;
use mima::paths::file_name;
use mima::paths::parent_dir;
use mima::render::bool_to_string;
use mima::render::concat_str;
use mima::render::join_with_spaces;
use mima::render::split_whitespace_words;
use mima::render::u64_to_string;
use mima::snapshots::lookup_timestamp;
use mima::snapshots::reduce_snapshots;
use mima::snapshots::timestamps_within_tolerance;
use mima::snapshots::Snapshot;
use mima::snapshots::Timestamp;

fn snap(id: &str, secs: u64) -> Snapshot {
    Snapshot { id: id.to_string(), timestamp: Timestamp { secs, nanos: 0 } }
}

fn ids(snapshots: &[Snapshot]) -> Vec<String> {
    snapshots.iter().map(|s| s.id.clone()).collect()
}

#[test]
fn backoff_learns_the_working_timeout() {
    // probes fail at one and two seconds, succeed at four: the connection
    // keeps four, not one
    let mut establisher = ConnectionEstablisher::new("192.0.2.10", 60);
    assert_eq!(establisher.connection_timeout, 1);
    match establisher.on_probe_failure() {
        BackoffDecision::Retry { sleep_seconds } => assert_eq!(sleep_seconds, 2),
        BackoffDecision::GiveUp => panic!("gave up too early"),
    }
    match establisher.on_probe_failure() {
        BackoffDecision::Retry { sleep_seconds } => assert_eq!(sleep_seconds, 4),
        BackoffDecision::GiveUp => panic!("gave up too early"),
    }
    let connection = establisher.connect_guest();
    assert_eq!(connection.connection_timeout, 4);
    assert_eq!(connection.ip_address, "192.0.2.10");
}

#[test]
fn backoff_gives_up_at_a_tiny_cap() {
    // with a cap of one, the first doubled timeout already reaches it
    let mut establisher = ConnectionEstablisher::new("192.0.2.10", 1);
    match establisher.on_probe_failure() {
        BackoffDecision::GiveUp => {}
        BackoffDecision::Retry { .. } => panic!("should have given up"),
    }
    assert_eq!(establisher.connection_timeout, 1);
}

#[test]
fn backoff_doubles_until_the_cap() {
    let mut establisher = ConnectionEstablisher::new("host", 60);
    let mut sleeps = Vec::new();
    loop {
        match establisher.on_probe_failure() {
            BackoffDecision::Retry { sleep_seconds } => sleeps.push(sleep_seconds),
            BackoffDecision::GiveUp => break,
        }
    }
    // 2*32 = 64 reaches the cap of 60, so the last slept timeout is 32
    assert_eq!(sleeps, vec![2, 4, 8, 16, 32]);
    // cumulative sleep (62) stays below twice the cap
    assert!(sleeps.iter().sum::<u64>() < 120);
}

#[test]
fn backoff_probe_argument_vector() {
    let establisher = ConnectionEstablisher::new("198.51.100.7", 60);
    let probe = establisher.probe_invocation();
    assert_eq!(probe.program, "ssh");
    assert_eq!(
        probe.args,
        vec![
            "-o",
            "BatchMode=yes",
            "-o",
            "ConnectTimeout=1",
            "-o",
            "StrictHostKeyChecking=no",
            "-o",
            "UserKnownHostsFile=/dev/null",
            "root@198.51.100.7",
            "exit",
            "0",
        ]
    );
}

#[test]
fn reduction_intersects_disks_by_name() {
    // disk A reports {root@1, dev@3}; disk B reports {root@1, centos6@2,
    // dev@4}: the guest-level set is {root, dev}
    let disk_a = vec![snap("root", 1), snap("dev", 3)];
    let disk_b = vec![snap("root", 1), snap("centos6", 2), snap("dev", 4)];
    let reduced = reduce_snapshots(&vec![disk_a, disk_b]);
    assert_eq!(ids(&reduced), vec!["root", "dev"]);
    // the surviving timestamps are the first disk's
    assert_eq!(reduced[1].timestamp.secs, 3);
}

#[test]
fn reduction_drops_out_of_tolerance_names() {
    // the same guest, but disk B's dev timestamp is far off: only root stays
    let disk_a = vec![snap("root", 1), snap("dev", 3)];
    let disk_b = vec![snap("root", 1), snap("centos6", 2), snap("dev", 1000000)];
    let reduced = reduce_snapshots(&vec![disk_a, disk_b]);
    assert_eq!(ids(&reduced), vec!["root"]);
}

#[test]
fn reduction_measures_tolerance_against_the_first_disk() {
    // the second and third disks differ from each other by 500 seconds, but
    // each lies within 300 seconds of the first disk's value: the snapshot
    // survives
    let disk_a = vec![snap("dev", 500)];
    let disk_b = vec![snap("dev", 250)];
    let disk_c = vec![snap("dev", 750)];
    let reduced = reduce_snapshots(&vec![disk_a, disk_b, disk_c]);
    assert_eq!(ids(&reduced), vec!["dev"]);
    assert_eq!(reduced[0].timestamp.secs, 500);
}

#[test]
fn reduction_of_no_disks_is_empty() {
    let reduced = reduce_snapshots(&Vec::new());
    assert!(reduced.is_empty());
}

#[test]
fn reduction_of_one_disk_keeps_its_report() {
    let disk = vec![snap("root", 1), snap("dev", 3)];
    let reduced = reduce_snapshots(&vec![disk]);
    assert_eq!(ids(&reduced), vec!["root", "dev"]);
}

#[test]
fn reduction_keeps_the_last_entry_of_a_repeated_name() {
    let disk = vec![snap("root", 1), snap("root", 9)];
    let reduced = reduce_snapshots(&vec![disk]);
    assert_eq!(ids(&reduced), vec!["root"]);
    assert_eq!(reduced[0].timestamp.secs, 9);
}

#[test]
fn tolerance_is_a_strict_three_hundred_second_bound() {
    let base = Timestamp { secs: 1000, nanos: 0 };
    let just_inside = Timestamp { secs: 1299, nanos: 999_999_999 };
    let at_the_bound = Timestamp { secs: 1300, nanos: 0 };
    assert!(timestamps_within_tolerance(base, just_inside));
    assert!(timestamps_within_tolerance(just_inside, base));
    assert!(!timestamps_within_tolerance(base, at_the_bound));
    assert!(!timestamps_within_tolerance(at_the_bound, base));
}

#[test]
fn tolerance_borrows_nanoseconds_correctly() {
    let a = Timestamp { secs: 1, nanos: 500_000_000 };
    let b = Timestamp { secs: 301, nanos: 400_000_000 };
    // the difference is 299.9 seconds: within tolerance
    assert!(timestamps_within_tolerance(a, b));
}

#[test]
fn lookup_takes_the_last_matching_entry() {
    let disk = vec![snap("a", 1), snap("b", 2), snap("a", 7)];
    let found = lookup_timestamp(&disk, &"a".to_string()).unwrap();
    assert_eq!(found.secs, 7);
    assert!(lookup_timestamp(&disk, &"c".to_string()).is_none());
}

fn probe_invocation() -> Invocation {
    let mut invocation = Invocation::new("qemu-img");
    invocation.arg("info");
    invocation.arg("disk.qcow2");
    invocation
}

#[test]
fn execute_hands_stdout_through_on_success() {
    let outcome = RawOutcome {
        spawned: true,
        success: true,
        stdout: Some("hello".to_string()),
        stderr: Some("".to_string()),
    };
    let result = execute(&probe_invocation(), outcome);
    assert_eq!(result.unwrap(), "hello");
}

#[test]
fn execute_reports_a_nonzero_exit_with_both_streams() {
    let outcome = RawOutcome {
        spawned: true,
        success: false,
        stdout: Some("out".to_string()),
        stderr: Some("err".to_string()),
    };
    let error = execute(&probe_invocation(), outcome).unwrap_err();
    match &error {
        Error::CommandExecutionFailed { command, stdout, stderr } => {
            assert_eq!(command, "qemu-img info disk.qcow2");
            assert_eq!(stdout, "out");
            assert_eq!(stderr, "err");
        }
        other => panic!("wrong error: {other:?}"),
    }
    assert_eq!(
        error.message(),
        "Failed to run 'qemu-img info disk.qcow2'\n\nstdout:\nout\nstderr:\nerr"
    );
}

#[test]
fn execute_reports_a_spawn_failure() {
    let outcome = RawOutcome { spawned: false, success: false, stdout: None, stderr: None };
    let error = execute(&probe_invocation(), outcome).unwrap_err();
    assert!(matches!(&error, Error::ProcessExecution { command } if command == "qemu-img info disk.qcow2"));
    assert_eq!(error.message(), "Failed to run 'qemu-img info disk.qcow2'");
}

#[test]
fn execute_reports_undecodable_streams() {
    let outcome = RawOutcome {
        spawned: true,
        success: true,
        stdout: None,
        stderr: Some("".to_string()),
    };
    let error = execute(&probe_invocation(), outcome).unwrap_err();
    assert!(matches!(&error, Error::ParseStream { stream } if stream == "stdout"));
    assert_eq!(error.message(), "Failed to parse 'stdout' stream");

    let outcome = RawOutcome {
        spawned: true,
        success: true,
        stdout: Some("".to_string()),
        stderr: None,
    };
    let error = execute(&probe_invocation(), outcome).unwrap_err();
    assert!(matches!(&error, Error::ParseStream { stream } if stream == "stderr"));
}

#[test]
fn error_messages_carry_their_context() {
    let unknown = Error::UnknownGuest { guest_id: "zero".to_string() };
    assert_eq!(unknown.message(), "Unknown guest 'zero'");

    let duplicate = Error::DuplicateSnapshot {
        guest_id: "zero".to_string(),
        disk_id: "sda".to_string(),
        snapshot_id: "root".to_string(),
    };
    assert_eq!(
        duplicate.message(),
        "Disk 'sda' of guest 'zero' already contains snapshot 'root'"
    );

    let unknown_snapshot = Error::UnknownSnapshot {
        guest_id: "zero".to_string(),
        snapshot_id: "dev".to_string(),
    };
    assert_eq!(unknown_snapshot.message(), "unknown snapshot 'dev' for guest 'zero'");

    let missing_ip = Error::MissingIpAddressConfiguration { guest_id: "zero".to_string() };
    assert_eq!(missing_ip.message(), "IP address is not configured for guest 'zero'");

    let monitor = Error::MonitorCommand {
        monitor_socket_path: "/run/zero.sock".to_string(),
        command: "system_powerdown".to_string(),
    };
    assert_eq!(
        monitor.message(),
        "Failed to issue command 'system_powerdown' to monitor socket '/run/zero.sock'"
    );

    let parse = Error::ParseCommandOutput {
        command: "qemu-img info".to_string(),
        stdout: "not json".to_string(),
    };
    assert_eq!(
        parse.message(),
        "Failed to parse output of 'qemu-img info'\n\nstdout:\nnot json"
    );

    let invalid = Error::InvalidFile { path: "/no/such".to_string() };
    assert_eq!(invalid.message(), "'/no/such' is not a file");

    let unknown_network = Error::UnknownNetwork { network_id: "lan".to_string() };
    assert_eq!(unknown_network.message(), "unknown network 'lan'");
}

#[test]
fn decimal_rendering() {
    assert_eq!(u64_to_string(0), "0");
    assert_eq!(u64_to_string(7), "7");
    assert_eq!(u64_to_string(10), "10");
    assert_eq!(u64_to_string(305), "305");
    assert_eq!(u64_to_string(u64::MAX), "18446744073709551615");
}

#[test]
fn text_utilities() {
    assert_eq!(concat_str("a", "bc"), "abc");
    assert_eq!(bool_to_string(true), "true");
    assert_eq!(bool_to_string(false), "false");
    let parts = vec!["qemu-img".to_string(), "info".to_string(), "x".to_string()];
    assert_eq!(join_with_spaces(&parts), "qemu-img info x");
    assert_eq!(join_with_spaces(&Vec::new()), "");
}

#[test]
fn whitespace_splitting() {
    assert_eq!(split_whitespace_words("qemu-img info"), vec!["qemu-img", "info"]);
    assert_eq!(split_whitespace_words("  a \t b\nc  "), vec!["a", "b", "c"]);
    assert_eq!(split_whitespace_words(""), Vec::<String>::new());
    assert_eq!(split_whitespace_words("   "), Vec::<String>::new());
    assert_eq!(split_whitespace_words("one"), vec!["one"]);
}

#[test]
fn path_arithmetic() {
    assert_eq!(parent_dir("/var/run/zero.pid").unwrap(), "/var/run");
    assert_eq!(parent_dir("/zero.pid").unwrap(), "/");
    assert!(parent_dir("zero.pid").is_none());
    assert_eq!(file_name("/var/run/zero.pid"), "zero.pid");
    assert_eq!(file_name("zero.pid"), "zero.pid");
}

#[test]
fn invocation_command_line_joins_program_and_arguments() {
    let invocation = probe_invocation();
    assert_eq!(invocation.command_line(), "qemu-img info disk.qcow2");
    let bare = Invocation::new("true");
    assert_eq!(bare.command_line(), "true");
}
