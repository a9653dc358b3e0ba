//! The install pipeline: backup → shrink → partition → stage → install →
//! boot registration.
//!
//! Each step is planned here as the exact actions to perform: the real
//! command lines (run through [`run_priv`](crate::engine::exec::run_priv), so
//! a dry run only reports them), the files to write and the log lines to
//! show. The app layer performs the actions and hands each step's outcome back
//! to [`on_step_done`], which words the progress updates the frontend sees and
//! says whether to go on.

use vstd::prelude::*;

use crate::engine::exec::{Command, EngineError, error_message};
use crate::engine::types::{owned, Progress};
use crate::engine::unattend::{answer_file, generate, UnattendOpts};
use crate::strings::{dec, lemma_views_push, push_char, push_decimal, push_str, views};
use vstd::string::StringExecFns;

verus! {

/// The ESP's partition number on the internal disk.
pub const ESP_PART: u32 = 1;

/// The number of pipeline steps.
pub const STEP_COUNT: usize = 6;

/// The identifier of step `i` (the last step for any later index).
pub open spec fn step_id(i: int) -> Seq<char> {
    if i == 0 {
        "backup"@
    } else if i == 1 {
        "shrink"@
    } else if i == 2 {
        "partition"@
    } else if i == 3 {
        "stage"@
    } else if i == 4 {
        "install"@
    } else {
        "boot"@
    }
}

/// The label shown for step `i` (the last step's for any later index).
pub open spec fn step_label(i: int) -> Seq<char> {
    if i == 0 {
        "Back up GPT + ESP"@
    } else if i == 1 {
        "Shrink SteamOS home"@
    } else if i == 2 {
        "Create Windows partitions"@
    } else if i == 3 {
        "Generate autounattend.xml"@
    } else if i == 4 {
        "Install Windows 11 (VM)"@
    } else {
        "Register boot picker + heal hook"@
    }
}

/// The progress percentage reported for the log lines of step `i`.
pub open spec fn step_pct(i: int) -> u32 {
    if i == 0 {
        14
    } else if i == 1 {
        30
    } else if i == 2 {
        46
    } else if i == 3 {
        58
    } else if i == 4 {
        85
    } else {
        98
    }
}

/// Whether `p` is the update for step index `i` (its identifier and label
/// those of step `min(i, 5)`) with the given percentage, status and log line.
pub open spec fn is_report(p: &Progress, i: int, pct: u32, status: Seq<char>, log: Seq<char>) -> bool {
    &&& p.step@ == step_id(i)
    &&& p.label@ == step_label(i)
    &&& p.step_index == i
    &&& p.step_count == STEP_COUNT
    &&& p.pct == pct
    &&& p.status@ == status
    &&& p.log@ == log
}

/// Whether update `p` names its step: its identifier and label are those of
/// step `min(step_index, 5)`, it counts the pipeline's steps, and its index
/// is at most one past the last step.
pub open spec fn labelled(p: Progress) -> bool {
    &&& p.step@ == step_id(p.step_index as int)
    &&& p.label@ == step_label(p.step_index as int)
    &&& p.step_count == STEP_COUNT
    &&& p.step_index <= STEP_COUNT
}

/// A progress update for step `i`.
pub fn report(i: usize, pct: u32, status: &str, log: String) -> (p: Progress)
    ensures
        is_report(&p, i as int, pct, status@, log@),
{
    let (step, label) = if i == 0 {
        ("backup", "Back up GPT + ESP")
    } else if i == 1 {
        ("shrink", "Shrink SteamOS home")
    } else if i == 2 {
        ("partition", "Create Windows partitions")
    } else if i == 3 {
        ("stage", "Generate autounattend.xml")
    } else if i == 4 {
        ("install", "Install Windows 11 (VM)")
    } else {
        ("boot", "Register boot picker + heal hook")
    };
    Progress {
        step: owned(step),
        label: owned(label),
        step_index: i,
        step_count: STEP_COUNT,
        pct,
        status: owned(status),
        log,
    }
}

/// The first update: which mode the pipeline runs in.
pub fn start_report(live: bool) -> (p: Progress)
    ensures
        is_report(
            &p,
            0,
            2,
            "running"@,
            "mode = "@ + (if live {
                "LIVE"@
            } else {
                "dry-run"@
            }),
        ),
        labelled(p),
{
    let mut log = owned("mode = ");
    push_str(&mut log, if live { "LIVE" } else { "dry-run" });
    report(0, 2, "running", log)
}

fn pct_of(i: usize) -> (p: u32)
    ensures
        p == step_pct(i as int),
{
    if i == 0 {
        14
    } else if i == 1 {
        30
    } else if i == 2 {
        46
    } else if i == 3 {
        58
    } else if i == 4 {
        85
    } else {
        98
    }
}

/// The log line that ends a successful install.
pub open spec fn done_line() -> Seq<char> {
    "Installation complete. Reboot to finish."@
}

/// An update as plain values: its step index, percentage and status.
pub open spec fn update_view(p: Progress) -> (int, u32, Seq<char>) {
    (p.step_index as int, p.pct, p.status@)
}

/// Updates as plain values.
pub open spec fn update_views(ps: Seq<Progress>) -> Seq<(int, u32, Seq<char>)> {
    ps.map_values(|p: Progress| update_view(p))
}

/// How a step ended, as far as progress goes: the number of its log lines
/// when it succeeded, none when it failed.
pub open spec fn outcome_of(outcome: Result<Vec<String>, EngineError>) -> Option<nat> {
    match outcome {
        Ok(lines) => Some(lines@.len()),
        Err(_) => None,
    }
}

/// The updates that follow step `step` (see [`on_step_done`]), as plain values.
pub open spec fn step_updates(step: int, outcome: Option<nat>) -> Seq<(int, u32, Seq<char>)> {
    match outcome {
        Some(n) => Seq::new(n, |k: int| (step, step_pct(step), "running"@)) + (if step + 1 < STEP_COUNT {
            Seq::<(int, u32, Seq<char>)>::empty()
        } else {
            seq![(STEP_COUNT as int, 100u32, "done"@)]
        }),
        None => seq![(STEP_COUNT as int, 100u32, "error"@)],
    }
}

/// The updates after step `step` finished, and whether to go on: a step that
/// succeeded reports each of its log lines (running, at the step's
/// percentage), and after the last step the install is done; a step that
/// failed ends the pipeline with an error update quoting the error.
pub fn on_step_done(step: usize, outcome: Result<Vec<String>, EngineError>) -> (r: (
    Vec<Progress>,
    bool,
))
    requires
        step < STEP_COUNT,
    ensures
        match outcome {
            Ok(lines) => {
                &&& r.1 == (step + 1 < STEP_COUNT)
                &&& r.0@.len() == lines@.len() + (if step + 1 < STEP_COUNT {
                    0int
                } else {
                    1int
                })
                &&& forall|k: int|
                    0 <= k < lines@.len() ==> is_report(
                        #[trigger] &r.0@[k],
                        step as int,
                        step_pct(step as int),
                        "running"@,
                        lines@[k]@,
                    )
                &&& step + 1 == STEP_COUNT ==> is_report(
                    &r.0@[lines@.len() as int],
                    STEP_COUNT as int,
                    100,
                    "done"@,
                    done_line(),
                )
            },
            Err(e) => {
                &&& !r.1
                &&& r.0@.len() == 1
                &&& is_report(&r.0@[0], STEP_COUNT as int, 100, "error"@, "Failed: "@ + error_message(&e))
            },
        },
        update_views(r.0@) == step_updates(step as int, outcome_of(outcome)),
        forall|k: int| 0 <= k < r.0@.len() ==> labelled(#[trigger] r.0@[k]),
{
    let mut out: Vec<Progress> = Vec::new();
    match outcome {
        Ok(lines) => {
            let pct = pct_of(step);
            let mut i: usize = 0;
            while i < lines.len()
                invariant
                    i <= lines.len(),
                    out@.len() == i,
                    pct == step_pct(step as int),
                    forall|k: int|
                        0 <= k < i ==> is_report(
                            #[trigger] &out@[k],
                            step as int,
                            pct,
                            "running"@,
                            lines@[k]@,
                        ),
                decreases lines.len() - i,
            {
                let line = owned(lines[i].as_str());
                out.push(report(step, pct, "running", line));
                i = i + 1;
            }
            if step + 1 < STEP_COUNT {
                assert(update_views(out@) =~= step_updates(step as int, Some(lines@.len())));
                (out, true)
            } else {
                out.push(report(STEP_COUNT, 100, "done", owned("Installation complete. Reboot to finish.")));
                assert(update_views(out@) =~= step_updates(step as int, Some(lines@.len())));
                (out, false)
            }
        },
        Err(e) => {
            let mut log = owned("Failed: ");
            let m = e.message();
            push_str(&mut log, m.as_str());
            out.push(report(STEP_COUNT, 100, "error", log));
            assert(update_views(out@) =~= step_updates(step as int, None));
            (out, false)
        },
    }
}

// ---------------------------------------------------------------------------
// Planned actions
// ---------------------------------------------------------------------------

/// One thing a step does.
pub enum Action {
    /// Run a destructive command; its output is a log line.
    Run(Command),
    /// Create a directory and its parents; a failure is ignored.
    MakeDir(String),
    /// Write a file; a failure fails the step.
    Write { path: String, contents: String },
    /// A log line.
    Note(String),
}

/// An action with its strings as character sequences.
#[verifier::ext_equal]
pub enum ActionView {
    Run(Seq<char>, Seq<Seq<char>>),
    MakeDir(Seq<char>),
    Write(Seq<char>, Seq<char>),
    Note(Seq<char>),
}

impl View for Action {
    type V = ActionView;

    open spec fn view(&self) -> ActionView {
        match self {
            Action::Run(c) => ActionView::Run(c.program@, views(c.args@)),
            Action::MakeDir(d) => ActionView::MakeDir(d@),
            Action::Write { path, contents } => ActionView::Write(path@, contents@),
            Action::Note(l) => ActionView::Note(l@),
        }
    }
}

/// The views of a list of actions.
pub open spec fn action_views(v: Seq<Action>) -> Seq<ActionView> {
    v.map_values(|a: Action| a@)
}

/// What the pipeline needs to know about the machine it installs on.
pub struct InstallTarget {
    /// The internal disk, such as `/dev/nvme0n1`.
    pub device: String,
    /// The SteamOS home partition's number (the one shrunk).
    pub home_part: u32,
    /// The working directory for backups and staged files.
    pub work_dir: String,
    /// The size the home file system and partition shrink to, as `resize2fs`
    /// and `parted` take it (such as `239G`).
    pub shrink_target: String,
    /// The Windows ISO.
    pub iso_path: String,
    /// The picker's EFI binary to copy onto the ESP.
    pub bootloader_efi: String,
}

/// `Path::join` of a relative file name onto a directory, as displayed: a
/// separator is added unless the directory is empty or already ends in one.
pub open spec fn path_join(dir: Seq<char>, name: Seq<char>) -> Seq<char> {
    if dir.len() == 0 {
        name
    } else if dir.last() == '/' {
        dir + name
    } else {
        dir + seq!['/'] + name
    }
}

/// [`path_join`].
pub fn join_path(dir: &str, name: &str) -> (p: String)
    ensures
        p@ == path_join(dir@, name@),
{
    let d = crate::strings::chars_of(dir);
    let mut p = owned(dir);
    if d.len() > 0 && d[d.len() - 1] != '/' {
        push_char(&mut p, '/');
    }
    push_str(&mut p, name);
    p
}

/// A partition's device node: the disk, `p`, and the partition number.
pub open spec fn partition_node(device: Seq<char>, n: u32) -> Seq<char> {
    device + "p"@ + dec(n as nat)
}

fn partition_node_exec(device: &str, n: u32) -> (s: String)
    ensures
        s@ == partition_node(device@, n),
{
    let mut s = owned(device);
    push_str(&mut s, "p");
    push_decimal(&mut s, n as u64);
    s
}

fn push_arg(v: &mut Vec<String>, s: String)
    ensures
        views(final(v)@) == views(old(v)@).push(s@),
{
    let ghost before = v@;
    v.push(s);
    proof {
        lemma_views_push(before, s);
    }
}

fn run_action(program: &str, args: Vec<String>) -> (a: Action)
    ensures
        a@ == ActionView::Run(program@, views(args@)),
{
    Action::Run(Command { program: owned(program), args })
}

fn push_action(v: &mut Vec<Action>, a: Action)
    ensures
        action_views(final(v)@) == action_views(old(v)@).push(a@),
{
    let ghost before = v@;
    v.push(a);
    assert(action_views(before.push(a)) =~= action_views(before).push(a@));
}

/// Step 1: dump the partition table and copy the ESP into the work directory.
pub open spec fn backup_plan(device: Seq<char>, dir: Seq<char>) -> Seq<ActionView> {
    seq![
        ActionView::MakeDir(dir),
        ActionView::Run(
            "sh"@,
            seq!["-c"@, "sfdisk -d "@ + device + " > "@ + path_join(dir, "gpt-backup.sfdisk"@)],
        ),
        ActionView::Run(
            "dd"@,
            seq![
                "if="@ + partition_node(device, ESP_PART),
                "of="@ + path_join(dir, "esp-backup.img"@),
                "bs=1M"@,
            ],
        ),
        ActionView::Note("backup saved to "@ + dir),
    ]
}

pub fn backup_actions(t: &InstallTarget) -> (v: Vec<Action>)
    ensures
        action_views(v@) == backup_plan(t.device@, t.work_dir@),
{
    let dev = t.device.as_str();
    let dir = t.work_dir.as_str();
    let mut v: Vec<Action> = Vec::new();
    push_action(&mut v, Action::MakeDir(owned(dir)));
    let mut line = owned("sfdisk -d ");
    push_str(&mut line, dev);
    push_str(&mut line, " > ");
    let gpt = join_path(dir, "gpt-backup.sfdisk");
    push_str(&mut line, gpt.as_str());
    let mut a: Vec<String> = Vec::new();
    push_arg(&mut a, owned("-c"));
    push_arg(&mut a, line);
    push_action(&mut v, run_action("sh", a));
    let mut src = owned("if=");
    let node = partition_node_exec(dev, ESP_PART);
    push_str(&mut src, node.as_str());
    let mut dst = owned("of=");
    let img = join_path(dir, "esp-backup.img");
    push_str(&mut dst, img.as_str());
    let mut a: Vec<String> = Vec::new();
    push_arg(&mut a, src);
    push_arg(&mut a, dst);
    push_arg(&mut a, owned("bs=1M"));
    push_action(&mut v, run_action("dd", a));
    let mut note = owned("backup saved to ");
    push_str(&mut note, dir);
    push_action(&mut v, Action::Note(note));
    assert(action_views(v@) =~~= backup_plan(t.device@, t.work_dir@));
    v
}

/// Step 2: check and shrink the home file system, then its partition.
pub open spec fn shrink_plan(device: Seq<char>, home_part: u32, target: Seq<char>) -> Seq<ActionView> {
    let part = partition_node(device, home_part);
    seq![
        ActionView::Run("e2fsck"@, seq!["-f"@, "-y"@, part]),
        ActionView::Run("resize2fs"@, seq![part, target]),
        ActionView::Run(
            "parted"@,
            seq!["-s"@, device, "resizepart"@, dec(home_part as nat), target],
        ),
    ]
}

pub fn shrink_actions(t: &InstallTarget) -> (v: Vec<Action>)
    ensures
        action_views(v@) == shrink_plan(t.device@, t.home_part, t.shrink_target@),
{
    let dev = t.device.as_str();
    let mut v: Vec<Action> = Vec::new();
    let mut a: Vec<String> = Vec::new();
    push_arg(&mut a, owned("-f"));
    push_arg(&mut a, owned("-y"));
    push_arg(&mut a, partition_node_exec(dev, t.home_part));
    push_action(&mut v, run_action("e2fsck", a));
    let mut a: Vec<String> = Vec::new();
    push_arg(&mut a, partition_node_exec(dev, t.home_part));
    push_arg(&mut a, owned(t.shrink_target.as_str()));
    push_action(&mut v, run_action("resize2fs", a));
    let mut a: Vec<String> = Vec::new();
    push_arg(&mut a, owned("-s"));
    push_arg(&mut a, owned(dev));
    push_arg(&mut a, owned("resizepart"));
    let mut n = String::new();
    push_decimal(&mut n, t.home_part as u64);
    assert(n@ =~= dec(t.home_part as nat));
    push_arg(&mut a, n);
    push_arg(&mut a, owned(t.shrink_target.as_str()));
    push_action(&mut v, run_action("parted", a));
    assert(action_views(v@) =~~= shrink_plan(t.device@, t.home_part, t.shrink_target@));
    v
}

/// Step 3: create the MSR and Windows partitions in the freed space, set
/// their GPT types and format the Windows partition.
pub open spec fn partition_plan(device: Seq<char>, home_part: u32) -> Seq<ActionView> {
    let msr = (home_part + 1) as u32;
    let win = (home_part + 2) as u32;
    seq![
        ActionView::Run("parted"@, seq!["-s"@, device, "mkpart"@, "msr"@, "0%"@, "16MiB-aligned"@]),
        ActionView::Run("parted"@, seq!["-s"@, device, "mkpart"@, "windows"@, "ntfs"@, "0%"@, "100%"@]),
        ActionView::Run("sgdisk"@, seq!["-t"@ + dec(msr as nat) + ":0C01"@, device]),
        ActionView::Run("sgdisk"@, seq!["-t"@ + dec(win as nat) + ":0700"@, device]),
        ActionView::Run("mkfs.ntfs"@, seq!["-f"@, "-L"@, "Windows"@, partition_node(device, win)]),
    ]
}

pub fn partition_actions(t: &InstallTarget) -> (v: Vec<Action>)
    requires
        t.home_part + 2 <= u32::MAX,
    ensures
        action_views(v@) == partition_plan(t.device@, t.home_part),
{
    let dev = t.device.as_str();
    let msr = t.home_part + 1;
    let win = t.home_part + 2;
    let mut v: Vec<Action> = Vec::new();
    let mut a: Vec<String> = Vec::new();
    push_arg(&mut a, owned("-s"));
    push_arg(&mut a, owned(dev));
    push_arg(&mut a, owned("mkpart"));
    push_arg(&mut a, owned("msr"));
    push_arg(&mut a, owned("0%"));
    push_arg(&mut a, owned("16MiB-aligned"));
    push_action(&mut v, run_action("parted", a));
    let mut a: Vec<String> = Vec::new();
    push_arg(&mut a, owned("-s"));
    push_arg(&mut a, owned(dev));
    push_arg(&mut a, owned("mkpart"));
    push_arg(&mut a, owned("windows"));
    push_arg(&mut a, owned("ntfs"));
    push_arg(&mut a, owned("0%"));
    push_arg(&mut a, owned("100%"));
    push_action(&mut v, run_action("parted", a));
    let mut ty = owned("-t");
    push_decimal(&mut ty, msr as u64);
    push_str(&mut ty, ":0C01");
    let mut a: Vec<String> = Vec::new();
    push_arg(&mut a, ty);
    push_arg(&mut a, owned(dev));
    push_action(&mut v, run_action("sgdisk", a));
    let mut ty = owned("-t");
    push_decimal(&mut ty, win as u64);
    push_str(&mut ty, ":0700");
    let mut a: Vec<String> = Vec::new();
    push_arg(&mut a, ty);
    push_arg(&mut a, owned(dev));
    push_action(&mut v, run_action("sgdisk", a));
    let mut a: Vec<String> = Vec::new();
    push_arg(&mut a, owned("-f"));
    push_arg(&mut a, owned("-L"));
    push_arg(&mut a, owned("Windows"));
    push_arg(&mut a, partition_node_exec(dev, win));
    push_action(&mut v, run_action("mkfs.ntfs", a));
    assert(action_views(v@) =~~= partition_plan(t.device@, t.home_part));
    v
}

/// The partition step types the partition right after SteamOS's home as
/// Microsoft Reserved (GPT type 0C01) and the one after it as Basic Data
/// (0700), and formats that Basic Data partition as NTFS for Windows.
pub proof fn law_partition_types(device: Seq<char>, home_part: u32)
    requires
        home_part + 2 <= u32::MAX,
    ensures
        partition_plan(device, home_part).contains(
            ActionView::Run("sgdisk"@, seq!["-t"@ + dec((home_part + 1) as nat) + ":0C01"@, device]),
        ),
        partition_plan(device, home_part).contains(
            ActionView::Run("sgdisk"@, seq!["-t"@ + dec((home_part + 2) as nat) + ":0700"@, device]),
        ),
        partition_plan(device, home_part).contains(
            ActionView::Run(
                "mkfs.ntfs"@,
                seq!["-f"@, "-L"@, "Windows"@, device + "p"@ + dec((home_part + 2) as nat)],
            ),
        ),
{
    let plan = partition_plan(device, home_part);
    assert(plan[2] == ActionView::Run("sgdisk"@, seq!["-t"@ + dec((home_part + 1) as nat) + ":0C01"@, device]));
    assert(plan[3] == ActionView::Run("sgdisk"@, seq!["-t"@ + dec((home_part + 2) as nat) + ":0700"@, device]));
    assert(plan[4] == ActionView::Run(
        "mkfs.ntfs"@,
        seq!["-f"@, "-L"@, "Windows"@, device + "p"@ + dec((home_part + 2) as nat)],
    ));
}

/// The answer file staged for a Windows partition: the defaults, on disk 0,
/// with that partition.
pub open spec fn staged_answer_file(win_partition: u32) -> Seq<char> {
    answer_file(0, win_partition, "Deck"@, "STEAMDECK-WIN"@, "en-US"@)
}

/// Step 4: write `autounattend.xml` for the Windows partition and wrap it in
/// a small ISO for the VM's second CD drive.
pub open spec fn stage_plan(dir: Seq<char>, xml: Seq<char>) -> Seq<ActionView> {
    let path = path_join(dir, "autounattend.xml"@);
    seq![
        ActionView::MakeDir(dir),
        ActionView::Write(path, xml),
        ActionView::Note("wrote "@ + path),
        ActionView::Run(
            "genisoimage"@,
            seq!["-o"@, path_join(dir, "unattend.iso"@), "-J"@, "-r"@, "-V"@, "UNATTEND"@, path],
        ),
    ]
}

pub fn stage_actions(t: &InstallTarget, win_partition_index: u32) -> (v: Vec<Action>)
    ensures
        action_views(v@) == stage_plan(t.work_dir@, staged_answer_file(win_partition_index)),
{
    let dir = t.work_dir.as_str();
    let mut v: Vec<Action> = Vec::new();
    push_action(&mut v, Action::MakeDir(owned(dir)));
    let mut opts = UnattendOpts::default();
    opts.disk_id = 0;
    opts.partition_id = win_partition_index;
    let xml = generate(&opts);
    let path = join_path(dir, "autounattend.xml");
    push_action(&mut v, Action::Write { path: owned(path.as_str()), contents: xml });
    let mut note = owned("wrote ");
    push_str(&mut note, path.as_str());
    push_action(&mut v, Action::Note(note));
    let mut a: Vec<String> = Vec::new();
    push_arg(&mut a, owned("-o"));
    push_arg(&mut a, join_path(dir, "unattend.iso"));
    push_arg(&mut a, owned("-J"));
    push_arg(&mut a, owned("-r"));
    push_arg(&mut a, owned("-V"));
    push_arg(&mut a, owned("UNATTEND"));
    push_arg(&mut a, path);
    push_action(&mut v, run_action("genisoimage", a));
    assert(action_views(v@) =~~= stage_plan(t.work_dir@, staged_answer_file(win_partition_index)));
    v
}

/// The firmware image the VM boots from.
pub const PFLASH_CODE: &'static str = "if=pflash,format=raw,readonly=on,file=/usr/share/OVMF/OVMF_CODE_4M.fd";

/// The check that Windows planted its loader on the shared ESP.
pub const VERIFY_LOADER: &'static str = "test -f /run/sdb-esp/EFI/Microsoft/Boot/bootmgfw.efi && echo 'bootmgfw.efi present' || echo 'verify deferred (dry-run)'";

/// Step 5: install Windows in a VM that sees the whole disk (so its boot
/// files land on the shared ESP) with the ISO and the answer file as CDs,
/// then check for the Windows loader.
pub open spec fn vm_install_plan(device: Seq<char>, dir: Seq<char>, iso: Seq<char>) -> Seq<ActionView> {
    seq![
        ActionView::Run(
            "qemu-system-x86_64"@,
            seq![
                "-enable-kvm"@,
                "-m"@,
                "4096"@,
                "-smp"@,
                "4"@,
                "-machine"@,
                "q35"@,
                "-drive"@,
                PFLASH_CODE@,
                "-drive"@,
                "if=pflash,format=raw,file="@ + path_join(dir, "OVMF_VARS.fd"@),
                "-drive"@,
                "file="@ + device + ",format=raw,if=virtio,cache=none"@,
                "-drive"@,
                "file="@ + iso + ",media=cdrom"@,
                "-drive"@,
                "file="@ + dir + "/unattend.iso,media=cdrom"@,
                "-boot"@,
                "d"@,
                "-display"@,
                "none"@,
            ],
        ),
        ActionView::Run("sh"@, seq!["-c"@, VERIFY_LOADER@]),
    ]
}

pub fn vm_install_actions(t: &InstallTarget) -> (v: Vec<Action>)
    ensures
        action_views(v@) == vm_install_plan(t.device@, t.work_dir@, t.iso_path@),
{
    let dir = t.work_dir.as_str();
    let mut pflash_vars = owned("if=pflash,format=raw,file=");
    let vars = join_path(dir, "OVMF_VARS.fd");
    push_str(&mut pflash_vars, vars.as_str());
    let mut drive_disk = owned("file=");
    push_str(&mut drive_disk, t.device.as_str());
    push_str(&mut drive_disk, ",format=raw,if=virtio,cache=none");
    let mut drive_iso = owned("file=");
    push_str(&mut drive_iso, t.iso_path.as_str());
    push_str(&mut drive_iso, ",media=cdrom");
    let mut drive_unattend = owned("file=");
    push_str(&mut drive_unattend, dir);
    push_str(&mut drive_unattend, "/unattend.iso,media=cdrom");
    let mut a: Vec<String> = Vec::new();
    push_arg(&mut a, owned("-enable-kvm"));
    push_arg(&mut a, owned("-m"));
    push_arg(&mut a, owned("4096"));
    push_arg(&mut a, owned("-smp"));
    push_arg(&mut a, owned("4"));
    push_arg(&mut a, owned("-machine"));
    push_arg(&mut a, owned("q35"));
    push_arg(&mut a, owned("-drive"));
    push_arg(&mut a, owned(PFLASH_CODE));
    push_arg(&mut a, owned("-drive"));
    push_arg(&mut a, pflash_vars);
    push_arg(&mut a, owned("-drive"));
    push_arg(&mut a, drive_disk);
    push_arg(&mut a, owned("-drive"));
    push_arg(&mut a, drive_iso);
    push_arg(&mut a, owned("-drive"));
    push_arg(&mut a, drive_unattend);
    push_arg(&mut a, owned("-boot"));
    push_arg(&mut a, owned("d"));
    push_arg(&mut a, owned("-display"));
    push_arg(&mut a, owned("none"));
    let mut v: Vec<Action> = Vec::new();
    push_action(&mut v, run_action("qemu-system-x86_64", a));
    let mut a: Vec<String> = Vec::new();
    push_arg(&mut a, owned("-c"));
    push_arg(&mut a, owned(VERIFY_LOADER));
    push_action(&mut v, run_action("sh", a));
    assert(action_views(v@) =~~= vm_install_plan(t.device@, t.work_dir@, t.iso_path@));
    v
}

/// The systemd unit that re-asserts the boot entry at boot.
pub const HEAL_UNIT: &'static str = "[Unit]
Description=Re-assert the SteamDualBoot EFI boot entry
After=local-fs.target

[Service]
Type=oneshot
ExecStart=/usr/local/bin/steamdualboot-heal

[Install]
WantedBy=multi-user.target
";

/// The pacman hook that re-asserts the boot entry after SteamOS updates.
pub const HEAL_PACMAN_HOOK: &'static str = "[Trigger]
Operation = Install
Operation = Upgrade
Type = Path
Target = usr/lib/steamos/*

[Action]
Description = Restoring SteamDualBoot boot entry...
When = PostTransaction
Exec = /usr/local/bin/steamdualboot-heal
";

/// The script both run: recreate the entry if missing and put it first in `BootOrder`.
pub const HEAL_SCRIPT: &'static str = "#!/bin/sh
# Ensure our boot entry exists and is first in BootOrder.
set -e
DEV=/dev/nvme0n1
if ! efibootmgr | grep -q 'SteamDualBoot'; then
  efibootmgr -c -d \"$DEV\" -p 1 -L 'SteamDualBoot' -l '\\\\EFI\\\\steamdualboot\\\\steamdualboot.efi'
fi
NUM=$(efibootmgr | sed -n 's/^Boot\\([0-9A-F]\\{4\\}\\)\\*\\? SteamDualBoot$/\\1/p' | head -1)
[ -n \"$NUM\" ] && efibootmgr -o \"$NUM,$(efibootmgr | sed -n 's/^BootOrder: //p')\" >/dev/null 2>&1 || true
";


/// Where the picker's binary lives on the ESP, as `efibootmgr` takes it.
pub const PICKER_LOADER: &'static str = r"\EFI\steamdualboot\steamdualboot.efi";

/// The initial picker config written onto the ESP.
pub const INITIAL_PICKER_CONFIG: &'static str = "printf 'default=steamos\\ntimeout=5\\n' > /run/sdb-esp/EFI/steamdualboot/config";

/// Step 6: copy the picker onto the ESP and register it as the first boot
/// entry, write its initial config, then stage and install the heal hook
/// that restores the entry after SteamOS updates.
pub open spec fn register_boot_plan(device: Seq<char>, dir: Seq<char>, efi: Seq<char>) -> Seq<ActionView> {
    let unit = path_join(dir, "steamdualboot-heal.service"@);
    let hook = path_join(dir, "99-steamdualboot.hook"@);
    let script = path_join(dir, "steamdualboot-heal.sh"@);
    seq![
        ActionView::Run(
            "sh"@,
            seq![
                "-c"@,
                "mkdir -p /run/sdb-esp/EFI/steamdualboot && cp "@ + efi
                    + " /run/sdb-esp/EFI/steamdualboot/steamdualboot.efi"@,
            ],
        ),
        ActionView::Run(
            "efibootmgr"@,
            seq![
                "-c"@,
                "-d"@,
                device,
                "-p"@,
                dec(ESP_PART as nat),
                "-L"@,
                "SteamDualBoot"@,
                "-l"@,
                PICKER_LOADER@,
            ],
        ),
        ActionView::Run("sh"@, seq!["-c"@, INITIAL_PICKER_CONFIG@]),
        ActionView::Write(unit, HEAL_UNIT@),
        ActionView::Write(hook, HEAL_PACMAN_HOOK@),
        ActionView::Write(script, HEAL_SCRIPT@),
        ActionView::Note("staged heal unit + pacman hook in "@ + dir),
        ActionView::Run(
            "sh"@,
            seq![
                "-c"@,
                "install -Dm755 "@ + script + " /usr/local/bin/steamdualboot-heal && install -Dm644 "@
                    + unit + " /etc/systemd/system/steamdualboot-heal.service && install -Dm644 "@
                    + hook
                    + " /etc/pacman.d/hooks/99-steamdualboot.hook && systemctl enable steamdualboot-heal.service"@,
            ],
        ),
    ]
}

pub fn register_boot_actions(t: &InstallTarget) -> (v: Vec<Action>)
    ensures
        action_views(v@) == register_boot_plan(t.device@, t.work_dir@, t.bootloader_efi@),
{
    let dir = t.work_dir.as_str();
    let mut v: Vec<Action> = Vec::new();
    let mut copy = owned("mkdir -p /run/sdb-esp/EFI/steamdualboot && cp ");
    push_str(&mut copy, t.bootloader_efi.as_str());
    push_str(&mut copy, " /run/sdb-esp/EFI/steamdualboot/steamdualboot.efi");
    let mut a: Vec<String> = Vec::new();
    push_arg(&mut a, owned("-c"));
    push_arg(&mut a, copy);
    push_action(&mut v, run_action("sh", a));
    let mut a: Vec<String> = Vec::new();
    push_arg(&mut a, owned("-c"));
    push_arg(&mut a, owned("-d"));
    push_arg(&mut a, owned(t.device.as_str()));
    push_arg(&mut a, owned("-p"));
    let mut esp = String::new();
    push_decimal(&mut esp, ESP_PART as u64);
    assert(esp@ =~= dec(ESP_PART as nat));
    push_arg(&mut a, esp);
    push_arg(&mut a, owned("-L"));
    push_arg(&mut a, owned("SteamDualBoot"));
    push_arg(&mut a, owned("-l"));
    push_arg(&mut a, owned(PICKER_LOADER));
    push_action(&mut v, run_action("efibootmgr", a));
    let mut a: Vec<String> = Vec::new();
    push_arg(&mut a, owned("-c"));
    push_arg(&mut a, owned(INITIAL_PICKER_CONFIG));
    push_action(&mut v, run_action("sh", a));
    let unit = join_path(dir, "steamdualboot-heal.service");
    let hook = join_path(dir, "99-steamdualboot.hook");
    let script = join_path(dir, "steamdualboot-heal.sh");
    push_action(&mut v, Action::Write { path: owned(unit.as_str()), contents: owned(HEAL_UNIT) });
    push_action(&mut v, Action::Write { path: owned(hook.as_str()), contents: owned(HEAL_PACMAN_HOOK) });
    push_action(&mut v, Action::Write { path: owned(script.as_str()), contents: owned(HEAL_SCRIPT) });
    let mut note = owned("staged heal unit + pacman hook in ");
    push_str(&mut note, dir);
    push_action(&mut v, Action::Note(note));
    let mut install = owned("install -Dm755 ");
    push_str(&mut install, script.as_str());
    push_str(&mut install, " /usr/local/bin/steamdualboot-heal && install -Dm644 ");
    push_str(&mut install, unit.as_str());
    push_str(&mut install, " /etc/systemd/system/steamdualboot-heal.service && install -Dm644 ");
    push_str(&mut install, hook.as_str());
    push_str(
        &mut install,
        " /etc/pacman.d/hooks/99-steamdualboot.hook && systemctl enable steamdualboot-heal.service",
    );
    let mut a: Vec<String> = Vec::new();
    push_arg(&mut a, owned("-c"));
    push_arg(&mut a, install);
    push_action(&mut v, run_action("sh", a));
    assert(action_views(v@) =~~= register_boot_plan(t.device@, t.work_dir@, t.bootloader_efi@));
    v
}

/// The actions of step `step` of the pipeline.
pub fn step_actions(step: usize, t: &InstallTarget) -> (v: Vec<Action>)
    requires
        step < STEP_COUNT,
        t.home_part + 2 <= u32::MAX,
    ensures
        step == 0 ==> action_views(v@) == backup_plan(t.device@, t.work_dir@),
        step == 1 ==> action_views(v@) == shrink_plan(t.device@, t.home_part, t.shrink_target@),
        step == 2 ==> action_views(v@) == partition_plan(t.device@, t.home_part),
        step == 3 ==> action_views(v@) == stage_plan(
            t.work_dir@,
            staged_answer_file((t.home_part + 2) as u32),
        ),
        step == 4 ==> action_views(v@) == vm_install_plan(t.device@, t.work_dir@, t.iso_path@),
        step == 5 ==> action_views(v@) == register_boot_plan(
            t.device@,
            t.work_dir@,
            t.bootloader_efi@,
        ),
{
    if step == 0 {
        backup_actions(t)
    } else if step == 1 {
        shrink_actions(t)
    } else if step == 2 {
        partition_actions(t)
    } else if step == 3 {
        stage_actions(t, t.home_part + 2)
    } else if step == 4 {
        vm_install_actions(t)
    } else {
        register_boot_actions(t)
    }
}

/// Records what performing `a` gave into the step's log: a command's output
/// and a note are logged in order; a failed command or file write fails the
/// step; a directory that could not be made is ignored (a later write into it
/// fails instead).
pub fn absorb(lines: &mut Vec<String>, a: &Action, performed: Result<String, EngineError>) -> (r: Result<
    (),
    EngineError,
>)
    ensures
        match *a {
            Action::Run(_) => match performed {
                Ok(out) => r is Ok && views(final(lines)@) == views(old(lines)@).push(out@),
                Err(e) => r == Err::<(), EngineError>(e) && final(lines)@ == old(lines)@,
            },
            Action::MakeDir(_) => r is Ok && final(lines)@ == old(lines)@,
            Action::Write { .. } => match performed {
                Ok(_) => r is Ok && final(lines)@ == old(lines)@,
                Err(e) => r == Err::<(), EngineError>(e) && final(lines)@ == old(lines)@,
            },
            Action::Note(n) => r is Ok && views(final(lines)@) == views(old(lines)@).push(n@),
        },
{
    match a {
        Action::Run(_) => match performed {
            Ok(out) => {
                let ghost before = lines@;
                lines.push(out);
                proof {
                    lemma_views_push(before, out);
                }
                Ok(())
            },
            Err(e) => Err(e),
        },
        Action::MakeDir(_) => Ok(()),
        Action::Write { .. } => match performed {
            Ok(_) => Ok(()),
            Err(e) => Err(e),
        },
        Action::Note(n) => {
            let ghost before = lines@;
            let line = owned(n.as_str());
            lines.push(line);
            proof {
                lemma_views_push(before, line);
            }
            Ok(())
        },
    }
}

// ---------------------------------------------------------------------------
// The progress of a whole install
// ---------------------------------------------------------------------------

/// The updates of an install whose steps ended as `outcomes` (in step
/// order, see [`outcome_of`]): the start update, then each step's updates.
pub open spec fn install_updates(outcomes: Seq<Option<nat>>) -> Seq<(int, u32, Seq<char>)>
    decreases outcomes.len(),
{
    if outcomes.len() == 0 {
        seq![(0int, 2u32, "running"@)]
    } else {
        install_updates(outcomes.drop_last()) + step_updates(outcomes.len() - 1, outcomes.last())
    }
}

/// Whether `outcomes` is a whole run: every step succeeded up to the last
/// one run, which is the last step or the first that failed.
pub open spec fn whole_run(outcomes: Seq<Option<nat>>) -> bool {
    &&& 1 <= outcomes.len() <= STEP_COUNT
    &&& forall|k: int| 0 <= k < outcomes.len() - 1 ==> (#[trigger] outcomes[k]) is Some
    &&& (outcomes.len() == STEP_COUNT || outcomes.last() is None)
}

/// Whether step index and percentage never go down along `ps`.
pub open spec fn never_back(ps: Seq<(int, u32, Seq<char>)>) -> bool {
    forall|i: int, j: int| 0 <= i <= j < ps.len() ==> (#[trigger] ps[i]).0 <= (#[trigger] ps[j]).0 && ps[i].1 <= ps[j].1
}

spec fn all_at_most(ps: Seq<(int, u32, Seq<char>)>, a: int, b: int) -> bool {
    forall|i: int| 0 <= i < ps.len() ==> (#[trigger] ps[i]).0 <= a && ps[i].1 <= b
}

spec fn all_at_least(ps: Seq<(int, u32, Seq<char>)>, a: int, b: int) -> bool {
    forall|i: int| 0 <= i < ps.len() ==> (#[trigger] ps[i]).0 >= a && ps[i].1 >= b
}

spec fn all_running(ps: Seq<(int, u32, Seq<char>)>) -> bool {
    forall|i: int| 0 <= i < ps.len() ==> (#[trigger] ps[i]).2 == "running"@ && ps[i].1 < 100 && 0 <= ps[i].0
}

proof fn lemma_never_back_concat(p: Seq<(int, u32, Seq<char>)>, q: Seq<(int, u32, Seq<char>)>, a: int, b: int)
    requires
        never_back(p),
        never_back(q),
        all_at_most(p, a, b),
        all_at_least(q, a, b),
    ensures
        never_back(p + q),
{
    let s = p + q;
    assert forall|i: int, j: int| 0 <= i <= j < s.len() implies (#[trigger] s[i]).0 <= (#[trigger] s[j]).0
        && s[i].1 <= s[j].1 by {
        if j < p.len() {
            assert(s[i] == p[i] && s[j] == p[j]);
        } else if i >= p.len() {
            assert(s[i] == q[i - p.len()] && s[j] == q[j - p.len()]);
        } else {
            assert(s[i] == p[i] && s[j] == q[j - p.len()]);
        }
    }
}

/// The step index and percentage every update of the first `m` steps stays under.
spec fn index_bound(m: int) -> int {
    if m == 0 {
        0
    } else {
        m - 1
    }
}

spec fn pct_bound(m: int) -> int {
    if m == 0 {
        2
    } else {
        step_pct(m - 1) as int
    }
}

proof fn lemma_running_steps(outcomes: Seq<Option<nat>>)
    requires
        outcomes.len() < STEP_COUNT,
        forall|k: int| 0 <= k < outcomes.len() ==> (#[trigger] outcomes[k]) is Some,
    ensures
        install_updates(outcomes).len() >= 1,
        all_running(install_updates(outcomes)),
        never_back(install_updates(outcomes)),
        all_at_most(install_updates(outcomes), index_bound(outcomes.len() as int), pct_bound(outcomes.len() as int)),
    decreases outcomes.len(),
{
    let m = outcomes.len() as int;
    if m > 0 {
        let prev = outcomes.drop_last();
        assert forall|k: int| 0 <= k < prev.len() implies (#[trigger] prev[k]) is Some by {
            assert(prev[k] == outcomes[k]);
        }
        lemma_running_steps(prev);
        let q = step_updates(m - 1, outcomes.last());
        assert(outcomes[m - 1] is Some);
        let n = outcomes.last()->0;
        assert(q =~= Seq::new(n, |k: int| (m - 1, step_pct(m - 1), "running"@)));
        assert(all_at_least(q, index_bound(m - 1), pct_bound(m - 1)));
        lemma_never_back_concat(install_updates(prev), q, index_bound(m - 1), pct_bound(m - 1));
        let s = install_updates(outcomes);
        assert(s == install_updates(prev) + q);
        assert forall|i: int| 0 <= i < s.len() implies (#[trigger] s[i]).2 == "running"@ && s[i].1 < 100 && 0
            <= s[i].0 by {
            if i >= install_updates(prev).len() {
                assert(s[i] == q[i - install_updates(prev).len()]);
            } else {
                assert(s[i] == install_updates(prev)[i]);
            }
        }
        assert forall|i: int| 0 <= i < s.len() implies (#[trigger] s[i]).0 <= index_bound(m) && s[i].1 <= pct_bound(
            m,
        ) by {
            if i >= install_updates(prev).len() {
                assert(s[i] == q[i - install_updates(prev).len()]);
            } else {
                assert(s[i] == install_updates(prev)[i]);
            }
        }
    }
}

/// Whatever happens to the install, its progress updates move forward: the
/// step index and the percentage never go down, every update but the last
/// is "running" below 100%, and the last is "done" (when every step
/// succeeded) or "error" (when one failed), at 100% past the last step.
pub proof fn law_progress_moves_forward(outcomes: Seq<Option<nat>>)
    requires
        whole_run(outcomes),
    ensures
        install_updates(outcomes).len() >= 1,
        never_back(install_updates(outcomes)),
        forall|i: int|
            0 <= i < install_updates(outcomes).len() ==> 0 <= (#[trigger] install_updates(outcomes)[i]).0
                <= STEP_COUNT,
        forall|i: int|
            0 <= i < install_updates(outcomes).len() - 1 ==> (#[trigger] install_updates(outcomes)[i]).2
                == "running"@ && install_updates(outcomes)[i].1 < 100,
        install_updates(outcomes).last().0 == STEP_COUNT,
        install_updates(outcomes).last().1 == 100,
        install_updates(outcomes).last().2 == (if outcomes.last() is Some {
            "done"@
        } else {
            "error"@
        }),
{
    let m = outcomes.len() as int;
    let prev = outcomes.drop_last();
    assert forall|k: int| 0 <= k < prev.len() implies (#[trigger] prev[k]) is Some by {
        assert(prev[k] == outcomes[k]);
    }
    lemma_running_steps(prev);
    let p = install_updates(prev);
    let q = step_updates(m - 1, outcomes.last());
    let s = install_updates(outcomes);
    assert(s == p + q);
    match outcomes.last() {
        Some(n) => {
            let lines = Seq::new(n, |k: int| (m - 1, step_pct(m - 1), "running"@));
            let fin = seq![(STEP_COUNT as int, 100u32, "done"@)];
            assert(q =~= lines + fin);
            lemma_never_back_concat(lines, fin, m - 1, step_pct(m - 1) as int);
            assert(all_at_least(q, index_bound(m - 1), pct_bound(m - 1))) by {
                assert forall|i: int| 0 <= i < q.len() implies (#[trigger] q[i]).0 >= index_bound(m - 1) && q[i].1
                    >= pct_bound(m - 1) by {
                    if i < lines.len() {
                        assert(q[i] == lines[i]);
                    } else {
                        assert(q[i] == fin[i - lines.len()]);
                    }
                }
            }
            assert forall|i: int| 0 <= i < s.len() - 1 implies (#[trigger] s[i]).2 == "running"@ && s[i].1 < 100 by {
                if i >= p.len() {
                    assert(s[i] == q[i - p.len()]);
                    assert(q[i - p.len()] == lines[i - p.len()]);
                } else {
                    assert(s[i] == p[i]);
                }
            }
        },
        None => {
            assert(all_at_least(q, index_bound(m - 1), pct_bound(m - 1)));
            assert forall|i: int| 0 <= i < s.len() - 1 implies (#[trigger] s[i]).2 == "running"@ && s[i].1 < 100 by {
                assert(s[i] == p[i]);
            }
        },
    }
    lemma_never_back_concat(p, q, index_bound(m - 1), pct_bound(m - 1));
    assert forall|i: int| 0 <= i < s.len() implies 0 <= (#[trigger] s[i]).0 <= STEP_COUNT by {
        if i >= p.len() {
            assert(s[i] == q[i - p.len()]);
        } else {
            assert(s[i] == p[i]);
        }
    }
    assert(s.last() == q.last());
}

} // verus!
