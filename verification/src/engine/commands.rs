//! The commands behind the configuration pane's actions: rewriting the
//! picker's config on the ESP, repairing the boot entry, uninstalling and
//! rebooting.

use vstd::prelude::*;

use crate::engine::exec::Command;
use crate::engine::ops::partition_node;
use crate::engine::state::push_string;
use crate::engine::types::owned;
use crate::strings::{dec, push_decimal, push_str, views};

verus! {

/// The shell line that rewrites the picker's config file on the ESP.
pub open spec fn picker_config_line(default_os: Seq<char>, timeout: u32) -> Seq<char> {
    "printf 'default="@ + default_os + "\\ntimeout="@ + dec(timeout as nat)
        + "\\n' > /run/sdb-esp/EFI/steamdualboot/config"@
}

/// The command that writes the picker's `default` and `timeout` onto the ESP.
pub fn picker_config_command(default_os: &str, timeout: u32) -> (c: Command)
    ensures
        c.program@ == "sh"@,
        views(c.args@) == seq!["-c"@, picker_config_line(default_os@, timeout)],
{
    let mut line = owned("printf 'default=");
    push_str(&mut line, default_os);
    push_str(&mut line, "\\ntimeout=");
    push_decimal(&mut line, timeout as u64);
    push_str(&mut line, "\\n' > /run/sdb-esp/EFI/steamdualboot/config");
    let mut args: Vec<String> = Vec::new();
    push_string(&mut args, owned("-c"));
    push_string(&mut args, line);
    assert(views(args@) =~= seq!["-c"@, picker_config_line(default_os@, timeout)]);
    Command { program: owned("sh"), args }
}

/// The heal script installed by the pipeline, run on demand.
pub fn repair_command() -> (c: Command)
    ensures
        c.program@ == "/usr/local/bin/steamdualboot-heal"@,
        c.args@.len() == 0,
{
    Command { program: owned("/usr/local/bin/steamdualboot-heal"), args: Vec::new() }
}

/// Reboots the machine.
pub fn reboot_command() -> (c: Command)
    ensures
        c.program@ == "systemctl"@,
        views(c.args@) == seq!["reboot"@],
{
    let mut args: Vec<String> = Vec::new();
    push_string(&mut args, owned("reboot"));
    assert(views(args@) =~= seq!["reboot"@]);
    Command { program: owned("systemctl"), args }
}

/// Removes every `SteamDualBoot` boot entry.
pub const REMOVE_BOOT_ENTRIES: &'static str = "for n in $(efibootmgr | sed -n 's/^Boot\\([0-9A-F]\\{4\\}\\)\\* SteamDualBoot$/\\1/p'); do efibootmgr -b $n -B; done";

/// The uninstall commands, run in order until one fails: remove the Windows
/// and MSR partitions, grow home back to the end of the disk and its file
/// system with it, and drop the picker's boot entries.
pub fn uninstall_commands(device: &str, home_part: u32) -> (v: Vec<Command>)
    requires
        home_part + 2 <= u32::MAX,
    ensures
        v@.len() == 5,
        v@[0].program@ == "parted"@ && views(v@[0].args@) == seq![
            "-s"@,
            device@,
            "rm"@,
            dec((home_part + 2) as nat),
        ],
        v@[1].program@ == "parted"@ && views(v@[1].args@) == seq![
            "-s"@,
            device@,
            "rm"@,
            dec((home_part + 1) as nat),
        ],
        v@[2].program@ == "parted"@ && views(v@[2].args@) == seq![
            "-s"@,
            device@,
            "resizepart"@,
            dec(home_part as nat),
            "100%"@,
        ],
        v@[3].program@ == "resize2fs"@ && views(v@[3].args@) == seq![
            partition_node(device@, home_part),
        ],
        v@[4].program@ == "sh"@ && views(v@[4].args@) == seq!["-c"@, REMOVE_BOOT_ENTRIES@],
{
    let msr = home_part + 1;
    let win = home_part + 2;
    let mut v: Vec<Command> = Vec::new();
    let mut a: Vec<String> = Vec::new();
    push_string(&mut a, owned("-s"));
    push_string(&mut a, owned(device));
    push_string(&mut a, owned("rm"));
    push_string(&mut a, decimal(win));
    assert(views(a@) =~= seq!["-s"@, device@, "rm"@, dec(win as nat)]);
    v.push(Command { program: owned("parted"), args: a });
    let mut a: Vec<String> = Vec::new();
    push_string(&mut a, owned("-s"));
    push_string(&mut a, owned(device));
    push_string(&mut a, owned("rm"));
    push_string(&mut a, decimal(msr));
    assert(views(a@) =~= seq!["-s"@, device@, "rm"@, dec(msr as nat)]);
    v.push(Command { program: owned("parted"), args: a });
    let mut a: Vec<String> = Vec::new();
    push_string(&mut a, owned("-s"));
    push_string(&mut a, owned(device));
    push_string(&mut a, owned("resizepart"));
    push_string(&mut a, decimal(home_part));
    push_string(&mut a, owned("100%"));
    assert(views(a@) =~= seq!["-s"@, device@, "resizepart"@, dec(home_part as nat), "100%"@]);
    v.push(Command { program: owned("parted"), args: a });
    let mut node = owned(device);
    push_str(&mut node, "p");
    push_decimal(&mut node, home_part as u64);
    let mut a: Vec<String> = Vec::new();
    push_string(&mut a, node);
    assert(views(a@) =~= seq![partition_node(device@, home_part)]);
    v.push(Command { program: owned("resize2fs"), args: a });
    let mut a: Vec<String> = Vec::new();
    push_string(&mut a, owned("-c"));
    push_string(&mut a, owned(REMOVE_BOOT_ENTRIES));
    assert(views(a@) =~= seq!["-c"@, REMOVE_BOOT_ENTRIES@]);
    v.push(Command { program: owned("sh"), args: a });
    v
}

fn decimal(n: u32) -> (s: String)
    ensures
        s@ == dec(n as nat),
{
    let mut s = String::new();
    push_decimal(&mut s, n as u64);
    assert(s@ =~= dec(n as nat));
    s
}

} // verus!
