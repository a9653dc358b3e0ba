use steamdualboot::engine::commands::{picker_config_command, reboot_command, repair_command, uninstall_commands};
use steamdualboot::engine::disk::{find_home, partition_number, PartitionInfo};
use steamdualboot::engine::exec::{run_priv, Command, EngineError, PrivRun};
use steamdualboot::engine::ops::{
    absorb, join_path, on_step_done, report, start_report, step_actions, Action, InstallTarget, STEP_COUNT,
};
use steamdualboot::engine::preflight::{
    is_mains, is_online, is_secure_boot_var, preflight, secure_boot_state, PreflightFacts,
};
use steamdualboot::engine::state::{bad, iso_precheck, iso_readers, iso_verdict};
use steamdualboot::engine::types::get_state;

fn target() -> InstallTarget {
    InstallTarget {
        device: "/dev/nvme0n1".to_string(),
        home_part: 8,
        work_dir: "/tmp/sdb-test".to_string(),
        shrink_target: "239G".to_string(),
        iso_path: "/tmp/Win11.iso".to_string(),
        bootloader_efi: "/usr/lib/steamdualboot/steamdualboot.efi".to_string(),
    }
}

fn lines_of(actions: &[Action]) -> Vec<String> {
    actions
        .iter()
        .map(|a| match a {
            Action::Run(c) => c.command_line(),
            Action::MakeDir(d) => format!("mkdir {d}"),
            Action::Write { path, contents } => format!("write {path} ({} bytes)", contents.len()),
            Action::Note(n) => n.clone(),
        })
        .collect()
}

/// Runs the pipeline in dry-run through the library's decisions, without
/// touching the file system: every command is only reported.
fn dry_run(t: &InstallTarget) -> (Vec<String>, String, u32) {
    let mut logs = vec![start_report(false).log];
    let (mut last_status, mut last_pct) = (String::new(), 0);
    for step in 0..STEP_COUNT {
        let mut lines = Vec::new();
        let mut outcome = Ok(());
        for a in step_actions(step, t) {
            let performed = match &a {
                Action::Run(c) => match run_priv(c, false, false) {
                    PrivRun::Skip(m) => Ok(m),
                    PrivRun::Exec(_) => panic!("dry run must not execute"),
                },
                _ => Ok(String::new()),
            };
            outcome = absorb(&mut lines, &a, performed);
            if outcome.is_err() {
                break;
            }
        }
        let (ups, go_on) = on_step_done(step, outcome.map(|()| lines));
        for u in ups {
            logs.push(u.log);
            last_status = u.status;
            last_pct = u.pct;
        }
        if !go_on {
            break;
        }
    }
    (logs, last_status, last_pct)
}

#[test]
fn dry_run_pipeline_builds_real_commands() {
    let (logs, last_status, last_pct) = dry_run(&target());
    let all = logs.join("\n");
    // Each phase produced its real tool invocation (dry-run-prefixed).
    assert!(all.contains("sfdisk -d /dev/nvme0n1"), "backup missing: {all}");
    assert!(all.contains("e2fsck") && all.contains("resize2fs"), "shrink missing");
    assert!(all.contains("parted") && all.contains("resizepart"), "partition resize missing");
    assert!(all.contains("autounattend.xml"), "unattend staging missing");
    assert!(all.contains("qemu-system-x86_64"), "vm install missing");
    assert!(all.contains("efibootmgr"), "boot registration missing");
    assert!(all.contains("steamdualboot-heal"), "heal hook missing");
    assert!(logs.iter().filter(|l| l.starts_with("DRY-RUN: ")).count() >= 6);
    assert_eq!(last_status, "done");
    assert_eq!(last_pct, 100);
}

#[test]
fn unattend_targets_partition_after_home() {
    // Windows partition index = home_part + 2 (home, MSR, Windows).
    let t = target();
    let actions = step_actions(3, &t);
    let xml = actions
        .iter()
        .find_map(|a| match a {
            Action::Write { path, contents } if path.ends_with("autounattend.xml") => Some(contents.clone()),
            _ => None,
        })
        .expect("answer file written");
    assert!(xml.contains(&format!("<PartitionID>{}</PartitionID>", t.home_part + 2)));
    assert!(lines_of(&actions).iter().any(|l| l.contains("autounattend.xml")));
}

#[test]
fn last_step_finishes_with_done_at_100() {
    let (ups, go_on) = on_step_done(STEP_COUNT - 1, Ok(vec!["registered".to_string()]));
    assert!(!go_on);
    assert_eq!(ups.len(), 2);
    assert_eq!(ups[0].status, "running");
    assert_eq!(ups[0].pct, 98);
    assert_eq!(ups[0].log, "registered");
    assert_eq!(ups[1].status, "done");
    assert_eq!(ups[1].pct, 100);
    assert_eq!(ups[1].log, "Installation complete. Reboot to finish.");
    assert_eq!(ups[1].step, "boot");
    assert_eq!(ups[1].step_index, 6);
}

#[test]
fn failed_step_stops_with_error() {
    let err = EngineError::Cmd { cmd: "e2fsck -f -y /dev/nvme0n1p8".to_string(), code: 4, stderr: "bad".to_string() };
    let (ups, go_on) = on_step_done(1, Err(err));
    assert!(!go_on);
    assert_eq!(ups.len(), 1);
    assert_eq!(ups[0].status, "error");
    assert_eq!(ups[0].pct, 100);
    assert_eq!(ups[0].log, "Failed: command `e2fsck -f -y /dev/nvme0n1p8` failed (4): bad");
}

#[test]
fn middle_step_goes_on() {
    let (ups, go_on) = on_step_done(2, Ok(vec!["a".to_string(), "b".to_string()]));
    assert!(go_on);
    assert_eq!(ups.len(), 2);
    assert!(ups.iter().all(|p| p.pct == 46 && p.step == "partition" && p.step_count == 6));
}

#[test]
fn reports_and_start() {
    let p = start_report(false);
    assert_eq!((p.step.as_str(), p.pct, p.log.as_str()), ("backup", 2, "mode = dry-run"));
    assert_eq!(start_report(true).log, "mode = LIVE");
    let r = report(4, 85, "running", "x".to_string());
    assert_eq!(r.label, "Install Windows 11 (VM)");
    let r = report(9, 100, "done", String::new());
    assert_eq!(r.step, "boot");
}

#[test]
fn path_joining() {
    assert_eq!(join_path("/tmp/sdb", "a.img"), "/tmp/sdb/a.img");
    assert_eq!(join_path("/tmp/sdb/", "a.img"), "/tmp/sdb/a.img");
    assert_eq!(join_path("", "a.img"), "a.img");
}

fn part(name: &str, size: Option<u64>, fstype: Option<&str>, label: Option<&str>) -> PartitionInfo {
    PartitionInfo {
        name: name.to_string(),
        size,
        fstype: fstype.map(|s| s.to_string()),
        partlabel: label.map(|s| s.to_string()),
    }
}

#[test]
fn home_is_the_largest_candidate() {
    let parts = vec![
        part("nvme0n1p1", Some(64 << 20), Some("vfat"), Some("esp")),
        part("nvme0n1p4", Some(5 << 30), Some("ext4"), Some("rootfs-A")),
        part("nvme0n1p8", Some(400 << 30), Some("ext4"), Some("home")),
        part("nvme0n1p7", Some(256 << 20), Some("ext4"), Some("var-B")),
    ];
    let h = find_home(&parts).expect("home found");
    assert_eq!((h.index, h.size, h.number), (2, 400 << 30, 8));
}

#[test]
fn home_ties_go_to_the_last_and_unknown_size_fails() {
    let parts = vec![part("sda3", Some(10), Some("ext4"), None), part("sda5", Some(10), None, Some("home"))];
    assert_eq!(find_home(&parts).map(|h| h.number), Some(5));
    let parts = vec![part("sda3", None, Some("ext4"), None)];
    assert!(find_home(&parts).is_none());
    let parts = vec![part("sda1", Some(99), Some("vfat"), None)];
    assert!(find_home(&parts).is_none());
}

#[test]
fn partition_numbers_from_names() {
    assert_eq!(partition_number("nvme0n1p8", 0), 8);
    assert_eq!(partition_number("mmcblk0p12", 3), 12);
    assert_eq!(partition_number("sda3", 5), 3);
    assert_eq!(partition_number("loop", 5), 6);
}

#[test]
fn uninstall_and_tool_commands() {
    let v = uninstall_commands("/dev/nvme0n1", 8);
    let lines: Vec<String> = v.iter().map(|c| c.command_line()).collect();
    assert_eq!(lines[0], "parted -s /dev/nvme0n1 rm 10");
    assert_eq!(lines[1], "parted -s /dev/nvme0n1 rm 9");
    assert_eq!(lines[2], "parted -s /dev/nvme0n1 resizepart 8 100%");
    assert_eq!(lines[3], "resize2fs /dev/nvme0n1p8");
    assert!(lines[4].starts_with("sh -c for n in $(efibootmgr"));
    assert_eq!(reboot_command().command_line(), "systemctl reboot");
    assert_eq!(repair_command().program, "/usr/local/bin/steamdualboot-heal");
    let c = picker_config_command("windows", 3);
    assert_eq!(c.program, "sh");
    assert_eq!(
        c.args,
        vec!["-c", "printf 'default=windows\\ntimeout=3\\n' > /run/sdb-esp/EFI/steamdualboot/config"]
    );
}

fn facts() -> PreflightFacts {
    PreflightFacts {
        dmi_product: "Jupiter\n".to_string(),
        live: true,
        disk_model: "Valve NVMe".to_string(),
        disk_device: "/dev/nvme0n1".to_string(),
        nvme_present: true,
        desktop: "KDE".to_string(),
        kvm_present: true,
        on_ac_power: Some(true),
        enough_space: true,
        shrinkable_gib_text: "300".to_string(),
        secure_boot: Some(false),
    }
}

#[test]
fn preflight_on_a_ready_deck() {
    let p = preflight(&facts());
    assert!(p.can_proceed);
    let ids: Vec<&str> = p.checks.iter().map(|c| c.id.as_str()).collect();
    assert_eq!(ids, vec!["desktop", "kvm", "model", "nvme", "power", "secureboot", "space"]);
    assert!(p.checks.iter().all(|c| c.ok));
    assert_eq!(p.checks[2].detail, "Jupiter");
    assert_eq!(p.checks[6].detail, "300 GiB shrinkable");
}

#[test]
fn fatal_failure_blocks_but_warnings_do_not() {
    let mut f = facts();
    f.on_ac_power = Some(false);
    f.secure_boot = Some(true);
    f.dmi_product = "Some PC".to_string();
    let p = preflight(&f);
    assert!(p.can_proceed);
    assert!(!p.checks[4].ok);
    assert_eq!(p.checks[4].detail, "Plug in before installing");
    assert!(!p.checks[5].ok);
    assert_eq!(p.checks[2].detail, "Valve NVMe (dev: not a Deck)");
    f.kvm_present = false;
    let p = preflight(&f);
    assert!(!p.can_proceed);
    assert_eq!(p.checks[1].detail, "no /dev/kvm (dry-run ok)");
    // Dry-run tolerates missing hardware.
    f.live = false;
    assert!(preflight(&f).can_proceed);
}

#[test]
fn iso_checks() {
    let r = iso_precheck(false, "/x.iso", 0, "0.0").expect("verdict");
    assert_eq!((r.ok, r.detail.as_str()), (false, "File not found"));
    let r = iso_precheck(true, "/x.img", 9 << 30, "9.0").expect("verdict");
    assert_eq!(r.detail, "Not an .iso file");
    let r = iso_precheck(true, "/X.ISO", 1 << 30, "1.0").expect("verdict");
    assert_eq!(r.detail, "Too small (1.0 GiB) to be a Windows 11 ISO");
    assert!(iso_precheck(true, "/Win11.Iso", 5 << 30, "5.0").is_none());
    let ok = iso_verdict(Some("BOOT/\nSources/Install.WIM\n"), "5");
    assert!(ok.ok);
    assert_eq!(ok.detail, "sources/install.wim present");
    let no = iso_verdict(Some("readme.txt\n"), "5");
    assert!(!no.ok);
    let unverified = iso_verdict(None, "5");
    assert_eq!(unverified.edition, "Windows 11 (unverified)");
    assert_eq!(unverified.detail, "5 GiB ISO — install no reader to verify contents");
    assert_eq!(bad("x").detail, "x");
    let readers = iso_readers("/a.iso");
    assert_eq!(readers[0].command_line(), "bsdtar -tf /a.iso");
    assert_eq!(readers[1].command_line(), "7z l -ba /a.iso");
    assert_eq!(readers[2].command_line(), "isoinfo -f -i /a.iso");
}

#[test]
fn app_state_modes() {
    assert_eq!(get_state(true).mode, "config");
    assert_eq!(get_state(false).mode, "setup");
}

#[test]
fn power_and_secure_boot_readings() {
    assert!(is_mains("Mains\n"));
    assert!(!is_mains("Battery\n"));
    assert!(is_online(" 1\n"));
    assert!(!is_online("0\n"));
    assert!(is_secure_boot_var("SecureBoot-8be4df61-93ca-11d2-aa0d-00e098032b8c"));
    assert!(!is_secure_boot_var("SetupMode-8be4df61"));
    assert_eq!(secure_boot_state(&[6, 0, 0, 0, 1]), Some(true));
    assert_eq!(secure_boot_state(&[6, 0, 0, 0, 0]), Some(false));
    assert_eq!(secure_boot_state(&[]), None);
}

#[test]
fn step_log_rules() {
    let mut lines = vec!["start".to_string()];
    let run = Action::Run(Command { program: "true".to_string(), args: vec![] });
    assert!(absorb(&mut lines, &run, Ok("ran".to_string())).is_ok());
    assert!(absorb(&mut lines, &Action::MakeDir("/nope".to_string()), Err(EngineError::Io("denied".to_string()))).is_ok());
    assert!(absorb(&mut lines, &Action::Note("hello".to_string()), Ok(String::new())).is_ok());
    let w = Action::Write { path: "/x".to_string(), contents: "y".to_string() };
    assert!(absorb(&mut lines, &w, Ok(String::new())).is_ok());
    match absorb(&mut lines, &w, Err(EngineError::Io("disk full".to_string()))) {
        Err(e) => assert_eq!(e.message(), "disk full"),
        Ok(()) => panic!("write failure must fail the step"),
    }
    match absorb(&mut lines, &run, Err(EngineError::Msg("bad".to_string()))) {
        Err(e) => assert_eq!(e.message(), "bad"),
        Ok(()) => panic!("command failure must fail the step"),
    }
    assert_eq!(lines, vec!["start", "ran", "hello"]);
}

#[test]
fn progress_moves_forward() {
    for fail_at in [None, Some(0usize), Some(2), Some(5)] {
        let mut ups = vec![start_report(false)];
        for step in 0..STEP_COUNT {
            let outcome = if Some(step) == fail_at {
                Err(EngineError::Msg("boom".to_string()))
            } else {
                Ok(vec!["a".to_string(), "b".to_string()])
            };
            let (more, go_on) = on_step_done(step, outcome);
            ups.extend(more);
            if !go_on {
                break;
            }
        }
        for w in ups.windows(2) {
            assert!(w[0].pct <= w[1].pct && w[0].step_index <= w[1].step_index);
        }
        let (last, rest) = ups.split_last().unwrap();
        assert!(rest.iter().all(|p| p.status == "running" && p.pct < 100));
        assert_eq!((last.pct, last.step_index), (100, 6));
        assert_eq!(last.status, if fail_at.is_none() { "done" } else { "error" });
        let steps = [
            ("backup", "Back up GPT + ESP"),
            ("shrink", "Shrink SteamOS home"),
            ("partition", "Create Windows partitions"),
            ("stage", "Generate autounattend.xml"),
            ("install", "Install Windows 11 (VM)"),
            ("boot", "Register boot picker + heal hook"),
        ];
        for p in &ups {
            assert_eq!(p.step_count, 6);
            assert!(p.step_index <= 6);
            let (id, label) = steps[p.step_index.min(5)];
            assert_eq!((p.step.as_str(), p.label.as_str()), (id, label));
        }
    }
}
