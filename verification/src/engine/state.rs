//! Validation of the Windows 11 ISO the user picked: it must exist, be named
//! `.iso`, be large enough and, when an ISO reader is available, contain the
//! Windows installer image. Tolerant by design: without a reader the ISO is
//! accepted on the other checks, and the verdict says so.

use vstd::prelude::*;

use crate::engine::exec::Command;
use crate::engine::types::{owned, IsoInfo};
use crate::strings::{
    chars_of, contains, contains_exec, ends_with, ends_with_exec, lemma_views_push, lowercase,
    push_str, to_lowercase, views,
};

verus! {

/// Whether `i` is a rejection with the given reason.
pub open spec fn is_bad(i: &IsoInfo, detail: Seq<char>) -> bool {
    &&& !i.ok
    &&& i.edition@.len() == 0
    &&& i.arch@.len() == 0
    &&& i.build@.len() == 0
    &&& i.detail@ == detail
}

/// A rejection with the given reason.
pub fn bad(detail: &str) -> (i: IsoInfo)
    ensures
        is_bad(&i, detail@),
{
    IsoInfo {
        ok: false,
        edition: String::new(),
        arch: String::new(),
        build: String::new(),
        detail: owned(detail),
    }
}

/// The smallest size, in bytes, of a plausible Windows 11 ISO: 3 GiB.
pub const MIN_ISO_BYTES: u64 = 3221225472;

/// The checks made before the ISO's contents are listed: the file must
/// exist, its name end in `.iso` in any case, and it must be at least 3 GiB.
/// `None` means all passed. `size_gib_text` is the size in GiB with one
/// decimal, as the rejection for a small file quotes it.
pub fn iso_precheck(exists: bool, path: &str, size_bytes: u64, size_gib_text: &str) -> (r: Option<
    IsoInfo,
>)
    ensures
        !exists ==> (r matches Some(i) && is_bad(&i, "File not found"@)),
        exists && !ends_with(lowercase(path@), ".iso"@) ==> (r matches Some(i) && is_bad(
            &i,
            "Not an .iso file"@,
        )),
        exists && ends_with(lowercase(path@), ".iso"@) && size_bytes < MIN_ISO_BYTES ==> (r matches Some(
            i,
        ) && is_bad(&i, "Too small ("@ + size_gib_text@ + " GiB) to be a Windows 11 ISO"@)),
        exists && ends_with(lowercase(path@), ".iso"@) && size_bytes >= MIN_ISO_BYTES ==> r is None,
{
    if !exists {
        return Some(bad("File not found"));
    }
    let lower = to_lowercase(path);
    let lower = chars_of(lower.as_str());
    let suffix = chars_of(".iso");
    if !ends_with_exec(&lower, &suffix) {
        return Some(bad("Not an .iso file"));
    }
    if size_bytes < MIN_ISO_BYTES {
        let mut detail = owned("Too small (");
        push_str(&mut detail, size_gib_text);
        push_str(&mut detail, " GiB) to be a Windows 11 ISO");
        return Some(
            IsoInfo {
                ok: false,
                edition: String::new(),
                arch: String::new(),
                build: String::new(),
                detail,
            },
        );
    }
    None
}

/// Whether a (lowercased) listing of the ISO shows a Windows installer image.
pub open spec fn has_installer(listing: Seq<char>) -> bool {
    contains(listing, "sources/install.wim"@) || contains(listing, "sources/install.esd"@)
}

/// The verdict once the checks passed: from the listing of the ISO's files
/// when a reader produced one, on the other checks alone otherwise.
/// `size_gib_text` is the size in whole GiB, as the unverified verdict quotes it.
pub fn iso_verdict(listing: Option<&str>, size_gib_text: &str) -> (i: IsoInfo)
    ensures
        match listing {
            Some(l) => if has_installer(lowercase(l@)) {
                &&& i.ok
                &&& i.edition@ == "Windows 11"@
                &&& i.arch@ == "x64"@
                &&& i.build@ == "detected"@
                &&& i.detail@ == "sources/install.wim present"@
            } else {
                is_bad(&i, "ISO does not contain sources/install.wim — not a Windows installer"@)
            },
            None => {
                &&& i.ok
                &&& i.edition@ == "Windows 11 (unverified)"@
                &&& i.arch@ == "x64"@
                &&& i.build@ == "unknown"@
                &&& i.detail@ == size_gib_text@ + " GiB ISO — install no reader to verify contents"@
            },
        },
        listing matches Some(l) && contains(lowercase(l@), "sources/install.esd"@) ==> i.ok,
        listing matches Some(l) && contains(lowercase(l@), "sources/install.wim"@) ==> i.ok,
        listing matches Some(l) && !contains(lowercase(l@), "sources/install.wim"@) && !contains(
            lowercase(l@),
            "sources/install.esd"@,
        ) ==> !i.ok,
{
    match listing {
        Some(list) => {
            let lower = to_lowercase(list);
            let l = chars_of(lower.as_str());
            let wim = chars_of("sources/install.wim");
            let esd = chars_of("sources/install.esd");
            let found = contains_exec(&l, &wim) || contains_exec(&l, &esd);
            if !found {
                return bad("ISO does not contain sources/install.wim — not a Windows installer");
            }
            IsoInfo {
                ok: true,
                edition: owned("Windows 11"),
                arch: owned("x64"),
                build: owned("detected"),
                detail: owned("sources/install.wim present"),
            }
        },
        None => {
            let mut detail = owned(size_gib_text);
            push_str(&mut detail, " GiB ISO — install no reader to verify contents");
            IsoInfo {
                ok: true,
                edition: owned("Windows 11 (unverified)"),
                arch: owned("x64"),
                build: owned("unknown"),
                detail,
            }
        },
    }
}

/// The ISO readers tried in turn to list an ISO's files: `bsdtar`, then
/// `7z`, then `isoinfo`; the first that succeeds gives the listing.
pub fn iso_readers(path: &str) -> (v: Vec<Command>)
    ensures
        v@.len() == 3,
        v@[0].program@ == "bsdtar"@ && views(v@[0].args@) == seq!["-tf"@, path@],
        v@[1].program@ == "7z"@ && views(v@[1].args@) == seq!["l"@, "-ba"@, path@],
        v@[2].program@ == "isoinfo"@ && views(v@[2].args@) == seq!["-f"@, "-i"@, path@],
{
    let mut v: Vec<Command> = Vec::new();
    let mut a: Vec<String> = Vec::new();
    push_string(&mut a, owned("-tf"));
    push_string(&mut a, owned(path));
    assert(views(a@) =~= seq!["-tf"@, path@]);
    v.push(Command { program: owned("bsdtar"), args: a });
    let mut a: Vec<String> = Vec::new();
    push_string(&mut a, owned("l"));
    push_string(&mut a, owned("-ba"));
    push_string(&mut a, owned(path));
    assert(views(a@) =~= seq!["l"@, "-ba"@, path@]);
    v.push(Command { program: owned("7z"), args: a });
    let mut a: Vec<String> = Vec::new();
    push_string(&mut a, owned("-f"));
    push_string(&mut a, owned("-i"));
    push_string(&mut a, owned(path));
    assert(views(a@) =~= seq!["-f"@, "-i"@, path@]);
    v.push(Command { program: owned("isoinfo"), args: a });
    v
}

/// Pushes a string, keeping track of the views.
pub fn push_string(v: &mut Vec<String>, s: String)
    ensures
        views(final(v)@) == views(old(v)@).push(s@),
{
    let ghost before = v@;
    v.push(s);
    proof {
        lemma_views_push(before, s);
    }
}

/// A listing shows a Windows installer image when it holds either kind of
/// image, `sources/install.wim` or the Media Creation Tool's compressed
/// `sources/install.esd`, and only then.
pub proof fn law_either_installer_image(listing: Seq<char>)
    ensures
        contains(listing, "sources/install.esd"@) ==> has_installer(listing),
        contains(listing, "sources/install.wim"@) ==> has_installer(listing),
        !contains(listing, "sources/install.wim"@) && !contains(listing, "sources/install.esd"@)
            ==> !has_installer(listing),
{
}

} // verus!
