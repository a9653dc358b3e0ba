use steamdualboot::engine::exec::{is_root, run_priv, Command, EngineError, PrivRun};

fn cmd(p: &str, args: &[&str]) -> Command {
    Command { program: p.to_string(), args: args.iter().map(|a| a.to_string()).collect() }
}

#[test]
fn dry_run_only_reports_the_command_line() {
    let c = cmd("parted", &["-s", "/dev/nvme0n1", "rm", "10"]);
    assert_eq!(c.command_line(), "parted -s /dev/nvme0n1 rm 10");
    match run_priv(&c, false, true) {
        PrivRun::Skip(m) => assert_eq!(m, "DRY-RUN: parted -s /dev/nvme0n1 rm 10"),
        PrivRun::Exec(_) => panic!("dry run must not execute"),
    }
}

#[test]
fn live_runs_directly_as_root_and_through_pkexec_otherwise() {
    let c = cmd("resize2fs", &["/dev/nvme0n1p8", "239G"]);
    match run_priv(&c, true, true) {
        PrivRun::Exec(e) => {
            assert_eq!(e.program, "resize2fs");
            assert_eq!(e.args, vec!["/dev/nvme0n1p8", "239G"]);
        }
        PrivRun::Skip(_) => panic!("live must execute"),
    }
    match run_priv(&c, true, false) {
        PrivRun::Exec(e) => {
            assert_eq!(e.program, "pkexec");
            assert_eq!(e.args, vec!["resize2fs", "/dev/nvme0n1p8", "239G"]);
        }
        PrivRun::Skip(_) => panic!("live must execute"),
    }
}

#[test]
fn command_line_with_no_arguments_keeps_the_space() {
    let c = cmd("/usr/local/bin/steamdualboot-heal", &[]);
    assert_eq!(c.command_line(), "/usr/local/bin/steamdualboot-heal ");
}

#[test]
fn effective_uid_decides_root() {
    let status = "Name:\tsteamdualboot\nUmask:\t0022\nUid:\t1000\t0\t0\t0\nGid:\t1000\t1000\t1000\t1000\n";
    assert!(is_root(Some(status)));
    assert!(!is_root(Some("Uid:\t0\t1000\t1000\t1000\n")));
    assert!(!is_root(Some("Uid:\t0\n")));
    assert!(!is_root(Some("Gid:\t0\t0\t0\t0\n")));
    assert!(!is_root(Some("")));
    assert!(!is_root(None));
    // Only the first Uid line counts.
    assert!(!is_root(Some("Uid: 5 7 7\nUid: 0 0 0\n")));
    assert!(is_root(Some("Uid:   1 0   \r\n")));
}

#[test]
fn error_messages() {
    let e = EngineError::Cmd { cmd: "parted -s /dev/x rm 9".to_string(), code: -1, stderr: "boom".to_string() };
    assert_eq!(e.message(), "command `parted -s /dev/x rm 9` failed (-1): boom");
    let e = EngineError::Cmd { cmd: "e2fsck".to_string(), code: 8, stderr: String::new() };
    assert_eq!(e.message(), "command `e2fsck` failed (8): ");
    assert_eq!(EngineError::Msg("no disk".to_string()).message(), "no disk");
    assert_eq!(EngineError::Io("permission denied".to_string()).message(), "permission denied");
}
