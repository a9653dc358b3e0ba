//! The preflight checks shown on the wizard's welcome screen, assembled from
//! what the app layer found out about the machine.

use vstd::prelude::*;

use crate::engine::types::{owned, Check, Preflight};
use crate::strings::{chars_eq_str, chars_of, push_str, starts_with, starts_with_exec, string_of, trim, trim_chars};

verus! {

/// What the checks are decided from.
pub struct PreflightFacts {
    /// The DMI product name (empty if unreadable); a Steam Deck reports
    /// `Jupiter` or `Galileo`.
    pub dmi_product: String,
    /// Whether destructive commands run for real.
    pub live: bool,
    /// The probed disk's model and device.
    pub disk_model: String,
    pub disk_device: String,
    /// Whether the internal NVMe device node exists.
    pub nvme_present: bool,
    /// The desktop session name (`XDG_CURRENT_DESKTOP`, or `unknown`).
    pub desktop: String,
    /// Whether `/dev/kvm` exists.
    pub kvm_present: bool,
    /// Whether the mains charger is online, when that could be read.
    pub on_ac_power: Option<bool>,
    /// Whether the shrinkable space reaches the Windows minimum.
    pub enough_space: bool,
    /// The shrinkable space in whole GiB, as displayed.
    pub shrinkable_gib_text: String,
    /// Whether Secure Boot is enabled, when that could be read.
    pub secure_boot: Option<bool>,
}

/// A check with its strings as character sequences.
pub struct CheckView {
    pub id: Seq<char>,
    pub label: Seq<char>,
    pub ok: bool,
    pub detail: Seq<char>,
    pub fatal: bool,
}

pub open spec fn check_view(c: &Check) -> CheckView {
    CheckView { id: c.id@, label: c.label@, ok: c.ok, detail: c.detail@, fatal: c.fatal }
}

/// Whether the DMI product name is a Steam Deck's.
pub open spec fn is_deck(dmi: Seq<char>) -> bool {
    trim(dmi) == "Jupiter"@ || trim(dmi) == "Galileo"@
}

/// The checks, in order of their ids.
pub open spec fn preflight_checks(f: &PreflightFacts) -> Seq<CheckView> {
    let deck = is_deck(f.dmi_product@);
    let ac = match f.on_ac_power {
        Some(b) => b,
        None => true,
    };
    let charger = match f.on_ac_power {
        Some(b) => b,
        None => false,
    };
    let sb = match f.secure_boot {
        Some(b) => b,
        None => false,
    };
    seq![
        CheckView {
            id: "desktop"@,
            label: "Running in Desktop Mode"@,
            ok: true,
            detail: f.desktop@,
            fatal: false,
        },
        CheckView {
            id: "kvm"@,
            label: "Virtualization (KVM) available"@,
            ok: f.kvm_present || !f.live,
            detail: if f.kvm_present {
                "/dev/kvm"@
            } else {
                "no /dev/kvm (dry-run ok)"@
            },
            fatal: true,
        },
        CheckView {
            id: "model"@,
            label: "Steam Deck detected"@,
            ok: deck || !f.live,
            detail: if deck {
                trim(f.dmi_product@)
            } else {
                f.disk_model@ + " (dev: not a Deck)"@
            },
            fatal: false,
        },
        CheckView {
            id: "nvme"@,
            label: "Internal NVMe present"@,
            ok: f.nvme_present || !f.live,
            detail: f.disk_device@,
            fatal: true,
        },
        CheckView {
            id: "power"@,
            label: "On AC power"@,
            ok: ac,
            detail: if charger {
                "Charger connected"@
            } else {
                "Plug in before installing"@
            },
            fatal: false,
        },
        CheckView {
            id: "secureboot"@,
            label: "Secure Boot disabled"@,
            ok: !sb,
            detail: if sb {
                "Enabled — disable it so the unsigned picker can run"@
            } else {
                "OK — unsigned loader can run"@
            },
            fatal: false,
        },
        CheckView {
            id: "space"@,
            label: "Enough free space"@,
            ok: f.enough_space,
            detail: f.shrinkable_gib_text@ + " GiB shrinkable"@,
            fatal: true,
        },
    ]
}

fn check(id: &str, label: &str, ok: bool, detail: String, fatal: bool) -> (c: Check)
    ensures
        check_view(&c) == (CheckView { id: id@, label: label@, ok, detail: detail@, fatal }),
{
    Check { id: owned(id), label: owned(label), ok, detail, fatal }
}

/// The preflight result: every check, in order of id, and whether the wizard
/// may go on, which it may unless a fatal check failed.
pub fn preflight(f: &PreflightFacts) -> (p: Preflight)
    ensures
        p.checks@.len() == 7,
        forall|i: int| 0 <= i < 7 ==> check_view(&p.checks@[i]) == preflight_checks(f)[i],
        p.can_proceed == (forall|i: int|
            0 <= i < 7 ==> !(#[trigger] preflight_checks(f)[i]).fatal || preflight_checks(f)[i].ok),
        p.can_proceed == ((f.kvm_present || !f.live) && (f.nvme_present || !f.live) && f.enough_space),
{
    let dmi = chars_of(f.dmi_product.as_str());
    let dmi_trimmed = trim_chars(&dmi);
    let deck = chars_eq_str(&dmi_trimmed, "Jupiter") || chars_eq_str(&dmi_trimmed, "Galileo");
    let ac = match f.on_ac_power {
        Some(b) => b,
        None => true,
    };
    let charger = match f.on_ac_power {
        Some(b) => b,
        None => false,
    };
    let sb = match f.secure_boot {
        Some(b) => b,
        None => false,
    };
    let mut checks: Vec<Check> = Vec::new();
    checks.push(check("desktop", "Running in Desktop Mode", true, owned(f.desktop.as_str()), false));
    checks.push(
        check(
            "kvm",
            "Virtualization (KVM) available",
            f.kvm_present || !f.live,
            owned(
                if f.kvm_present {
                    "/dev/kvm"
                } else {
                    "no /dev/kvm (dry-run ok)"
                },
            ),
            true,
        ),
    );
    let model_detail = if deck {
        string_of(&dmi_trimmed)
    } else {
        let mut d = owned(f.disk_model.as_str());
        push_str(&mut d, " (dev: not a Deck)");
        d
    };
    checks.push(check("model", "Steam Deck detected", deck || !f.live, model_detail, false));
    checks.push(
        check(
            "nvme",
            "Internal NVMe present",
            f.nvme_present || !f.live,
            owned(f.disk_device.as_str()),
            true,
        ),
    );
    checks.push(
        check(
            "power",
            "On AC power",
            ac,
            owned(
                if charger {
                    "Charger connected"
                } else {
                    "Plug in before installing"
                },
            ),
            false,
        ),
    );
    checks.push(
        check(
            "secureboot",
            "Secure Boot disabled",
            !sb,
            owned(
                if sb {
                    "Enabled — disable it so the unsigned picker can run"
                } else {
                    "OK — unsigned loader can run"
                },
            ),
            false,
        ),
    );
    let mut space = owned(f.shrinkable_gib_text.as_str());
    push_str(&mut space, " GiB shrinkable");
    checks.push(check("space", "Enough free space", f.enough_space, space, true));
    let can_proceed = (f.kvm_present || !f.live) && (f.nvme_present || !f.live) && f.enough_space;
    proof {
        let v = preflight_checks(f);
        assert forall|i: int| 0 <= i < 7 implies check_view(&checks@[i]) == v[i] by {}
        if can_proceed {
            assert forall|i: int| 0 <= i < 7 implies !(#[trigger] v[i]).fatal || v[i].ok by {}
        } else {
            if !(f.kvm_present || !f.live) {
                assert(!(!v[1].fatal || v[1].ok));
            } else if !(f.nvme_present || !f.live) {
                assert(!(!v[3].fatal || v[3].ok));
            } else {
                assert(!(!v[6].fatal || v[6].ok));
            }
        }
    }
    Preflight { can_proceed, checks }
}

/// Whether a power supply's `type` file names the mains charger.
pub fn is_mains(type_text: &str) -> (r: bool)
    ensures
        r == (trim(type_text@) == "Mains"@),
{
    let v = chars_of(type_text);
    chars_eq_str(&trim_chars(&v), "Mains")
}

/// Whether a power supply's `online` file says it is connected.
pub fn is_online(online_text: &str) -> (r: bool)
    ensures
        r == (trim(online_text@) == "1"@),
{
    let v = chars_of(online_text);
    chars_eq_str(&trim_chars(&v), "1")
}

/// Whether an EFI variable file is the `SecureBoot` variable.
pub fn is_secure_boot_var(file_name: &str) -> (r: bool)
    ensures
        r == starts_with(file_name@, "SecureBoot-"@),
{
    let v = chars_of(file_name);
    let p = chars_of("SecureBoot-");
    starts_with_exec(&v, &p)
}

/// The Secure Boot state an EFI variable file's bytes give: its last data
/// byte is 1 when enabled; an empty file tells nothing.
pub fn secure_boot_state(data: &[u8]) -> (r: Option<bool>)
    ensures
        r == (if data@.len() == 0 {
            None
        } else {
            Some(data@.last() == 1)
        }),
{
    if data.len() == 0 {
        None
    } else {
        Some(data[data.len() - 1] == 1)
    }
}

/// Whether the wizard may go on after the checks: no fatal check failed.
pub open spec fn may_proceed(f: &PreflightFacts) -> bool {
    forall|i: int| 0 <= i < 7 ==> !(#[trigger] preflight_checks(f)[i]).fatal || preflight_checks(f)[i].ok
}

/// The wizard may go on exactly when KVM and the internal NVMe are there
/// (or nothing runs for real) and the shrinkable space reaches the Windows
/// minimum: too little space always blocks, and the model, the power supply,
/// Secure Boot and the desktop never do.
pub proof fn law_preflight_blocks_on_fatal_checks(f: &PreflightFacts)
    ensures
        may_proceed(f) == ((f.kvm_present || !f.live) && (f.nvme_present || !f.live) && f.enough_space),
        !f.enough_space ==> !may_proceed(f),
        f.live && !f.kvm_present ==> !may_proceed(f),
        f.live && !f.nvme_present ==> !may_proceed(f),
{
    let v = preflight_checks(f);
    if (f.kvm_present || !f.live) && (f.nvme_present || !f.live) && f.enough_space {
        assert forall|i: int| 0 <= i < 7 implies !(#[trigger] v[i]).fatal || v[i].ok by {}
    } else if !(f.kvm_present || !f.live) {
        assert(!(!v[1].fatal || v[1].ok));
    } else if !(f.nvme_present || !f.live) {
        assert(!(!v[3].fatal || v[3].ok));
    } else {
        assert(!(!v[6].fatal || v[6].ok));
    }
}

/// What each check reports: in a dry run the machine checks (KVM, model,
/// NVMe) pass; live, they pass exactly when KVM, a Steam Deck and the NVMe
/// are there. Power fails only when the charger is known to be unplugged,
/// Secure Boot only when it is known to be on, and the space check exactly
/// when the space is short; only KVM, NVMe and space are fatal.
pub proof fn law_preflight_check_outcomes(f: &PreflightFacts)
    ensures
        preflight_checks(f).len() == 7,
        preflight_checks(f)[0].id == "desktop"@ && preflight_checks(f)[0].ok && !preflight_checks(f)[0].fatal,
        preflight_checks(f)[1].id == "kvm"@ && preflight_checks(f)[1].fatal,
        preflight_checks(f)[2].id == "model"@ && !preflight_checks(f)[2].fatal,
        preflight_checks(f)[3].id == "nvme"@ && preflight_checks(f)[3].fatal,
        preflight_checks(f)[4].id == "power"@ && !preflight_checks(f)[4].fatal,
        preflight_checks(f)[5].id == "secureboot"@ && !preflight_checks(f)[5].fatal,
        preflight_checks(f)[6].id == "space"@ && preflight_checks(f)[6].fatal,
        !f.live ==> preflight_checks(f)[1].ok && preflight_checks(f)[2].ok && preflight_checks(f)[3].ok,
        f.live ==> preflight_checks(f)[1].ok == f.kvm_present,
        f.live ==> preflight_checks(f)[2].ok == is_deck(f.dmi_product@),
        f.live ==> preflight_checks(f)[3].ok == f.nvme_present,
        preflight_checks(f)[4].ok == (f.on_ac_power != Some(false)),
        preflight_checks(f)[5].ok == (f.secure_boot != Some(true)),
        preflight_checks(f)[6].ok == f.enough_space,
{
}

} // verus!
