//! Why the answer file can never ask Windows Setup to repartition the disk:
//! no `<DiskConfiguration>` element can appear in it unless one of the
//! option strings brings a `<` of its own.
//!
//! Every `<` of every template piece is followed, inside that same piece, by
//! a character that departs from `<DiskConfiguration>`, so no text placed
//! around a piece can complete the element at one of its `<`s; the option
//! values without `<` and the decimal indices cannot start one either.

use vstd::prelude::*;

use crate::engine::unattend::{
    answer_file, disk_id_element, partition_id_element, unattend_xml, xml_after_install_to,
    xml_before_install_to, UnattendOpts, ACCOUNT_NAME_OPEN, AFTER_INSTALL_TO, AUTO_LOGON_USER_OPEN,
    BETWEEN_IDS, DISK_ID_CLOSE, DISK_ID_OPEN, DISPLAY_NAME_OPEN, HEAD, INPUT_LOCALE_OPEN,
    PARTITION_ID_CLOSE, PARTITION_ID_OPEN, SETUP, SYSTEM_LOCALE_OPEN, TAIL, UI_LANGUAGE_OPEN,
    USER_LOCALE_OPEN,
};
use crate::strings::{contains, dec, digit_char, occurs_at};

verus! {

/// The element that would let Setup lay the disk out anew.
pub open spec fn disk_configuration() -> Seq<char> {
    "<DiskConfiguration>"@
}

/// Whether the text at position `i` of `s`, read against
/// `<DiskConfiguration>` from its `j`-th character, departs from it before
/// `s` ends.
pub open spec fn departs(s: Seq<char>, i: int, j: int) -> bool
    decreases disk_configuration().len() - j,
{
    if j >= disk_configuration().len() || i + j >= s.len() {
        false
    } else if s[i + j] != disk_configuration()[j] {
        true
    } else {
        departs(s, i, j + 1)
    }
}

/// Whether every `<` of `s` departs from `<DiskConfiguration>` inside `s`.
pub open spec fn sealed(s: Seq<char>) -> bool {
    forall|k: int| 0 <= k < s.len() && #[trigger] s[k] == '<' ==> departs(s, k, 0)
}

/// [`sealed`] from position `i` on, one position at a time.
spec fn sealed_from(s: Seq<char>, i: int) -> bool
    decreases s.len() - i,
{
    if i >= s.len() {
        true
    } else {
        (s[i] != '<' || departs(s, i, 0)) && sealed_from(s, i + 1)
    }
}

proof fn lemma_sealed_from(s: Seq<char>, i: int, k: int)
    requires
        0 <= i <= k < s.len(),
        sealed_from(s, i),
    ensures
        s[k] != '<' || departs(s, k, 0),
    decreases k - i,
{
    if i < k {
        lemma_sealed_from(s, i + 1, k);
    }
}

proof fn lemma_sealed(s: Seq<char>)
    requires
        sealed_from(s, 0),
    ensures
        sealed(s),
{
    assert forall|k: int| 0 <= k < s.len() && #[trigger] s[k] == '<' implies departs(s, k, 0) by {
        lemma_sealed_from(s, 0, k);
    }
}

proof fn lemma_departs_prefix(a: Seq<char>, b: Seq<char>, i: int, j: int)
    requires
        0 <= i < a.len(),
        0 <= j,
        departs(a, i, j),
    ensures
        departs(a + b, i, j),
    decreases disk_configuration().len() - j,
{
    if a[i + j] == disk_configuration()[j] {
        lemma_departs_prefix(a, b, i, j + 1);
    }
}

proof fn lemma_departs_suffix(a: Seq<char>, b: Seq<char>, i: int, j: int)
    requires
        0 <= i < b.len(),
        0 <= j,
        departs(b, i, j),
    ensures
        departs(a + b, a.len() + i, j),
    decreases disk_configuration().len() - j,
{
    if b[i + j] == disk_configuration()[j] {
        lemma_departs_suffix(a, b, i, j + 1);
    }
}

/// Sealed pieces stay sealed side by side.
proof fn lemma_sealed_concat(a: Seq<char>, b: Seq<char>)
    requires
        sealed(a),
        sealed(b),
    ensures
        sealed(a + b),
{
    let s = a + b;
    assert forall|k: int| 0 <= k < s.len() && #[trigger] s[k] == '<' implies departs(s, k, 0) by {
        if k < a.len() {
            assert(a[k] == '<');
            lemma_departs_prefix(a, b, k, 0);
        } else {
            assert(b[k - a.len()] == '<');
            lemma_departs_suffix(a, b, k - a.len(), 0);
        }
    }
}

/// Text without `<` is sealed.
proof fn lemma_no_lt_sealed(s: Seq<char>)
    requires
        !s.contains('<'),
    ensures
        sealed(s),
{
    assert forall|k: int| 0 <= k < s.len() && #[trigger] s[k] == '<' implies departs(s, k, 0) by {
        assert(s.contains(s[k]));
    }
}

/// A decimal number has no `<`.
proof fn lemma_dec_sealed(n: nat)
    ensures
        sealed(dec(n)),
    decreases n,
{
    if n >= 10 {
        lemma_dec_sealed(n / 10);
        lemma_sealed_concat(dec(n / 10), seq![digit_char(n % 10)]);
        assert(dec(n) =~= dec(n / 10) + seq![digit_char(n % 10)]);
    }
}

proof fn lemma_match_stays(s: Seq<char>, i: int, j: int)
    requires
        occurs_at(s, disk_configuration(), i),
        0 <= j,
    ensures
        !departs(s, i, j),
    decreases disk_configuration().len() - j,
{
    reveal_strlit("<DiskConfiguration>");
    if j < disk_configuration().len() {
        assert(s.subrange(i, i + disk_configuration().len())[j] == s[i + j]);
        lemma_match_stays(s, i, j + 1);
    }
}

/// Sealed text holds no `<DiskConfiguration>`.
proof fn lemma_sealed_lacks_tag(s: Seq<char>)
    requires
        sealed(s),
    ensures
        !contains(s, disk_configuration()),
{
    reveal_strlit("<DiskConfiguration>");
    if contains(s, disk_configuration()) {
        let i = choose|i: int| occurs_at(s, disk_configuration(), i);
        assert(s.subrange(i, i + disk_configuration().len())[0] == s[i]);
        assert(s[i] == '<');
        lemma_match_stays(s, i, 0);
    }
}

proof fn lemma_head_sealed()
    ensures
        sealed(HEAD@),
{
    reveal_strlit("<DiskConfiguration>");
    reveal_strlit(r##"<?xml version="1.0" encoding="utf-8"?>
<unattend xmlns="urn:schemas-microsoft-com:unattend">
  <!-- ===== windowsPE: bypass Win11 checks, pick the existing partition ===== -->
  <settings pass="windowsPE">
    <component name="Microsoft-Windows-International-Core-WinPE" processorArchitecture="amd64"
               publicKeyToken="31bf3856ad364e35" language="neutral" versionScope="nonSxS">
      <SetupUILanguage><UILanguage>"##);
    reveal_with_fuel(sealed_from, 41);
    reveal_with_fuel(departs, 6);
    assert(sealed_from(HEAD@, 400));
    assert(sealed_from(HEAD@, 360));
    assert(sealed_from(HEAD@, 320));
    assert(sealed_from(HEAD@, 280));
    assert(sealed_from(HEAD@, 240));
    assert(sealed_from(HEAD@, 200));
    assert(sealed_from(HEAD@, 160));
    assert(sealed_from(HEAD@, 120));
    assert(sealed_from(HEAD@, 80));
    assert(sealed_from(HEAD@, 40));
    lemma_sealed(HEAD@);
}

proof fn lemma_input_locale_open_sealed()
    ensures
        sealed(INPUT_LOCALE_OPEN@),
{
    reveal_strlit("<DiskConfiguration>");
    reveal_strlit(r##"</UILanguage></SetupUILanguage>
      <InputLocale>"##);
    reveal_with_fuel(sealed_from, 41);
    reveal_with_fuel(departs, 6);
    assert(sealed_from(INPUT_LOCALE_OPEN@, 40));
    lemma_sealed(INPUT_LOCALE_OPEN@);
}

proof fn lemma_system_locale_open_sealed()
    ensures
        sealed(SYSTEM_LOCALE_OPEN@),
{
    reveal_strlit("<DiskConfiguration>");
    reveal_strlit(r##"</InputLocale>
      <SystemLocale>"##);
    reveal_with_fuel(sealed_from, 41);
    reveal_with_fuel(departs, 6);
    lemma_sealed(SYSTEM_LOCALE_OPEN@);
}

proof fn lemma_ui_language_open_sealed()
    ensures
        sealed(UI_LANGUAGE_OPEN@),
{
    reveal_strlit("<DiskConfiguration>");
    reveal_strlit(r##"</SystemLocale>
      <UILanguage>"##);
    reveal_with_fuel(sealed_from, 41);
    reveal_with_fuel(departs, 6);
    lemma_sealed(UI_LANGUAGE_OPEN@);
}

proof fn lemma_user_locale_open_sealed()
    ensures
        sealed(USER_LOCALE_OPEN@),
{
    reveal_strlit("<DiskConfiguration>");
    reveal_strlit(r##"</UILanguage>
      <UserLocale>"##);
    reveal_with_fuel(sealed_from, 41);
    reveal_with_fuel(departs, 6);
    lemma_sealed(USER_LOCALE_OPEN@);
}

proof fn lemma_setup_sealed()
    ensures
        sealed(SETUP@),
{
    reveal_strlit("<DiskConfiguration>");
    reveal_strlit(r##"</UserLocale>
    </component>
    <component name="Microsoft-Windows-Setup" processorArchitecture="amd64"
               publicKeyToken="31bf3856ad364e35" language="neutral" versionScope="nonSxS">
      <!-- LabConfig: skip TPM 2.0, Secure Boot and RAM requirement checks. -->
      <RunSynchronous>
        <RunSynchronousCommand wcm:action="add" xmlns:wcm="http://schemas.microsoft.com/WMIConfig/2002/State">
          <Order>1</Order><Path>reg add HKLM\SYSTEM\Setup\LabConfig /v BypassTPMCheck /t REG_DWORD /d 1 /f</Path>
        </RunSynchronousCommand>
        <RunSynchronousCommand wcm:action="add" xmlns:wcm="http://schemas.microsoft.com/WMIConfig/2002/State">
          <Order>2</Order><Path>reg add HKLM\SYSTEM\Setup\LabConfig /v BypassSecureBootCheck /t REG_DWORD /d 1 /f</Path>
        </RunSynchronousCommand>
        <RunSynchronousCommand wcm:action="add" xmlns:wcm="http://schemas.microsoft.com/WMIConfig/2002/State">
          <Order>3</Order><Path>reg add HKLM\SYSTEM\Setup\LabConfig /v BypassRAMCheck /t REG_DWORD /d 1 /f</Path>
        </RunSynchronousCommand>
      </RunSynchronous>
      <UserData>
        <AcceptEula>true</AcceptEula>
        <ProductKey><Key></Key></ProductKey>
      </UserData>
      <ImageInstall>
        <OSImage>
          <!-- Install into the EXISTING partition we created; do not reformat the disk. -->
          <InstallTo>
            "##);
    reveal_with_fuel(sealed_from, 41);
    reveal_with_fuel(departs, 6);
    assert(sealed_from(SETUP@, 1360));
    assert(sealed_from(SETUP@, 1320));
    assert(sealed_from(SETUP@, 1280));
    assert(sealed_from(SETUP@, 1240));
    assert(sealed_from(SETUP@, 1200));
    assert(sealed_from(SETUP@, 1160));
    assert(sealed_from(SETUP@, 1120));
    assert(sealed_from(SETUP@, 1080));
    assert(sealed_from(SETUP@, 1040));
    assert(sealed_from(SETUP@, 1000));
    assert(sealed_from(SETUP@, 960));
    assert(sealed_from(SETUP@, 920));
    assert(sealed_from(SETUP@, 880));
    assert(sealed_from(SETUP@, 840));
    assert(sealed_from(SETUP@, 800));
    assert(sealed_from(SETUP@, 760));
    assert(sealed_from(SETUP@, 720));
    assert(sealed_from(SETUP@, 680));
    assert(sealed_from(SETUP@, 640));
    assert(sealed_from(SETUP@, 600));
    assert(sealed_from(SETUP@, 560));
    assert(sealed_from(SETUP@, 520));
    assert(sealed_from(SETUP@, 480));
    assert(sealed_from(SETUP@, 440));
    assert(sealed_from(SETUP@, 400));
    assert(sealed_from(SETUP@, 360));
    assert(sealed_from(SETUP@, 320));
    assert(sealed_from(SETUP@, 280));
    assert(sealed_from(SETUP@, 240));
    assert(sealed_from(SETUP@, 200));
    assert(sealed_from(SETUP@, 160));
    assert(sealed_from(SETUP@, 120));
    assert(sealed_from(SETUP@, 80));
    assert(sealed_from(SETUP@, 40));
    lemma_sealed(SETUP@);
}

proof fn lemma_between_ids_sealed()
    ensures
        sealed(BETWEEN_IDS@),
{
    reveal_strlit("<DiskConfiguration>");
    reveal_strlit(r##"
            "##);
    reveal_with_fuel(sealed_from, 41);
    reveal_with_fuel(departs, 6);
    lemma_sealed(BETWEEN_IDS@);
}

proof fn lemma_after_install_to_sealed()
    ensures
        sealed(AFTER_INSTALL_TO@),
{
    reveal_strlit("<DiskConfiguration>");
    reveal_strlit(r##"
          </InstallTo>
          <InstallToAvailablePartition>false</InstallToAvailablePartition>
        </OSImage>
      </ImageInstall>
    </component>
  </settings>

  <!-- ===== specialize: computer name ===== -->
  <settings pass="specialize">
    <component name="Microsoft-Windows-Shell-Setup" processorArchitecture="amd64"
               publicKeyToken="31bf3856ad364e35" language="neutral" versionScope="nonSxS">
      <ComputerName>"##);
    reveal_with_fuel(sealed_from, 41);
    reveal_with_fuel(departs, 6);
    assert(sealed_from(AFTER_INSTALL_TO@, 440));
    assert(sealed_from(AFTER_INSTALL_TO@, 400));
    assert(sealed_from(AFTER_INSTALL_TO@, 360));
    assert(sealed_from(AFTER_INSTALL_TO@, 320));
    assert(sealed_from(AFTER_INSTALL_TO@, 280));
    assert(sealed_from(AFTER_INSTALL_TO@, 240));
    assert(sealed_from(AFTER_INSTALL_TO@, 200));
    assert(sealed_from(AFTER_INSTALL_TO@, 160));
    assert(sealed_from(AFTER_INSTALL_TO@, 120));
    assert(sealed_from(AFTER_INSTALL_TO@, 80));
    assert(sealed_from(AFTER_INSTALL_TO@, 40));
    lemma_sealed(AFTER_INSTALL_TO@);
}

proof fn lemma_account_name_open_sealed()
    ensures
        sealed(ACCOUNT_NAME_OPEN@),
{
    reveal_strlit("<DiskConfiguration>");
    reveal_strlit(r##"</ComputerName>
    </component>
  </settings>

  <!-- ===== oobeSystem: skip OOBE, create a local account ===== -->
  <settings pass="oobeSystem">
    <component name="Microsoft-Windows-Shell-Setup" processorArchitecture="amd64"
               publicKeyToken="31bf3856ad364e35" language="neutral" versionScope="nonSxS">
      <OOBE>
        <HideEULAPage>true</HideEULAPage>
        <HideOEMRegistrationScreen>true</HideOEMRegistrationScreen>
        <HideOnlineAccountScreens>true</HideOnlineAccountScreens>
        <HideWirelessSetupInOOBE>true</HideWirelessSetupInOOBE>
        <ProtectYourPC>3</ProtectYourPC>
        <SkipMachineOOBE>true</SkipMachineOOBE>
        <SkipUserOOBE>true</SkipUserOOBE>
      </OOBE>
      <UserAccounts>
        <LocalAccounts>
          <LocalAccount wcm:action="add" xmlns:wcm="http://schemas.microsoft.com/WMIConfig/2002/State">
            <Name>"##);
    reveal_with_fuel(sealed_from, 41);
    reveal_with_fuel(departs, 6);
    assert(sealed_from(ACCOUNT_NAME_OPEN@, 880));
    assert(sealed_from(ACCOUNT_NAME_OPEN@, 840));
    assert(sealed_from(ACCOUNT_NAME_OPEN@, 800));
    assert(sealed_from(ACCOUNT_NAME_OPEN@, 760));
    assert(sealed_from(ACCOUNT_NAME_OPEN@, 720));
    assert(sealed_from(ACCOUNT_NAME_OPEN@, 680));
    assert(sealed_from(ACCOUNT_NAME_OPEN@, 640));
    assert(sealed_from(ACCOUNT_NAME_OPEN@, 600));
    assert(sealed_from(ACCOUNT_NAME_OPEN@, 560));
    assert(sealed_from(ACCOUNT_NAME_OPEN@, 520));
    assert(sealed_from(ACCOUNT_NAME_OPEN@, 480));
    assert(sealed_from(ACCOUNT_NAME_OPEN@, 440));
    assert(sealed_from(ACCOUNT_NAME_OPEN@, 400));
    assert(sealed_from(ACCOUNT_NAME_OPEN@, 360));
    assert(sealed_from(ACCOUNT_NAME_OPEN@, 320));
    assert(sealed_from(ACCOUNT_NAME_OPEN@, 280));
    assert(sealed_from(ACCOUNT_NAME_OPEN@, 240));
    assert(sealed_from(ACCOUNT_NAME_OPEN@, 200));
    assert(sealed_from(ACCOUNT_NAME_OPEN@, 160));
    assert(sealed_from(ACCOUNT_NAME_OPEN@, 120));
    assert(sealed_from(ACCOUNT_NAME_OPEN@, 80));
    assert(sealed_from(ACCOUNT_NAME_OPEN@, 40));
    lemma_sealed(ACCOUNT_NAME_OPEN@);
}

proof fn lemma_display_name_open_sealed()
    ensures
        sealed(DISPLAY_NAME_OPEN@),
{
    reveal_strlit("<DiskConfiguration>");
    reveal_strlit(r##"</Name>
            <Group>Administrators</Group>
            <DisplayName>"##);
    reveal_with_fuel(sealed_from, 41);
    reveal_with_fuel(departs, 6);
    assert(sealed_from(DISPLAY_NAME_OPEN@, 40));
    lemma_sealed(DISPLAY_NAME_OPEN@);
}

proof fn lemma_auto_logon_user_open_sealed()
    ensures
        sealed(AUTO_LOGON_USER_OPEN@),
{
    reveal_strlit("<DiskConfiguration>");
    reveal_strlit(r##"</DisplayName>
          </LocalAccount>
        </LocalAccounts>
      </UserAccounts>
      <AutoLogon>
        <Enabled>true</Enabled>
        <Username>"##);
    reveal_with_fuel(sealed_from, 41);
    reveal_with_fuel(departs, 6);
    assert(sealed_from(AUTO_LOGON_USER_OPEN@, 120));
    assert(sealed_from(AUTO_LOGON_USER_OPEN@, 80));
    assert(sealed_from(AUTO_LOGON_USER_OPEN@, 40));
    lemma_sealed(AUTO_LOGON_USER_OPEN@);
}

proof fn lemma_tail_sealed()
    ensures
        sealed(TAIL@),
{
    reveal_strlit("<DiskConfiguration>");
    reveal_strlit(r##"</Username>
        <LogonCount>1</LogonCount>
      </AutoLogon>
    </component>
  </settings>
</unattend>
"##);
    reveal_with_fuel(sealed_from, 41);
    reveal_with_fuel(departs, 6);
    assert(sealed_from(TAIL@, 80));
    assert(sealed_from(TAIL@, 40));
    lemma_sealed(TAIL@);
}

proof fn lemma_disk_id_open_sealed()
    ensures
        sealed(DISK_ID_OPEN@),
{
    reveal_strlit("<DiskConfiguration>");
    reveal_strlit("<DiskID>");
    reveal_with_fuel(sealed_from, 41);
    reveal_with_fuel(departs, 6);
    lemma_sealed(DISK_ID_OPEN@);
}

proof fn lemma_disk_id_close_sealed()
    ensures
        sealed(DISK_ID_CLOSE@),
{
    reveal_strlit("<DiskConfiguration>");
    reveal_strlit("</DiskID>");
    reveal_with_fuel(sealed_from, 41);
    reveal_with_fuel(departs, 6);
    lemma_sealed(DISK_ID_CLOSE@);
}

proof fn lemma_partition_id_open_sealed()
    ensures
        sealed(PARTITION_ID_OPEN@),
{
    reveal_strlit("<DiskConfiguration>");
    reveal_strlit("<PartitionID>");
    reveal_with_fuel(sealed_from, 41);
    reveal_with_fuel(departs, 6);
    lemma_sealed(PARTITION_ID_OPEN@);
}

proof fn lemma_partition_id_close_sealed()
    ensures
        sealed(PARTITION_ID_CLOSE@),
{
    reveal_strlit("<DiskConfiguration>");
    reveal_strlit("</PartitionID>");
    reveal_with_fuel(sealed_from, 41);
    reveal_with_fuel(departs, 6);
    lemma_sealed(PARTITION_ID_CLOSE@);
}

/// Whatever the options, as long as the locale, computer name and user name
/// carry no `<` of their own, the answer file holds no `<DiskConfiguration>`
/// element, so Setup installs into the partition chosen and leaves the rest
/// of the disk as it is.
pub proof fn law_answer_file_keeps_partition_table(o: &UnattendOpts)
    requires
        !o.locale@.contains('<'),
        !o.computer_name@.contains('<'),
        !o.username@.contains('<'),
    ensures
        !contains(unattend_xml(o), disk_configuration()),
{

    lemma_head_sealed();
    lemma_input_locale_open_sealed();
    lemma_system_locale_open_sealed();
    lemma_ui_language_open_sealed();
    lemma_user_locale_open_sealed();
    lemma_setup_sealed();
    lemma_between_ids_sealed();
    lemma_after_install_to_sealed();
    lemma_account_name_open_sealed();
    lemma_display_name_open_sealed();
    lemma_auto_logon_user_open_sealed();
    lemma_tail_sealed();
    lemma_disk_id_open_sealed();
    lemma_disk_id_close_sealed();
    lemma_partition_id_open_sealed();
    lemma_partition_id_close_sealed();
    lemma_no_lt_sealed(o.locale@);
    lemma_no_lt_sealed(o.computer_name@);
    lemma_no_lt_sealed(o.username@);
    lemma_dec_sealed(o.disk_id as nat);
    lemma_dec_sealed(o.partition_id as nat);
    let l = o.locale@;
    let c = o.computer_name@;
    let u = o.username@;
    let mut acc = HEAD@;
    lemma_sealed_concat(acc, l);
    acc = acc + l;
    lemma_sealed_concat(acc, INPUT_LOCALE_OPEN@);
    acc = acc + INPUT_LOCALE_OPEN@;
    lemma_sealed_concat(acc, l);
    acc = acc + l;
    lemma_sealed_concat(acc, SYSTEM_LOCALE_OPEN@);
    acc = acc + SYSTEM_LOCALE_OPEN@;
    lemma_sealed_concat(acc, l);
    acc = acc + l;
    lemma_sealed_concat(acc, UI_LANGUAGE_OPEN@);
    acc = acc + UI_LANGUAGE_OPEN@;
    lemma_sealed_concat(acc, l);
    acc = acc + l;
    lemma_sealed_concat(acc, USER_LOCALE_OPEN@);
    acc = acc + USER_LOCALE_OPEN@;
    lemma_sealed_concat(acc, l);
    acc = acc + l;
    lemma_sealed_concat(acc, SETUP@);
    acc = acc + SETUP@;
    assert(acc == xml_before_install_to(l));
    let d = dec(o.disk_id as nat);
    lemma_sealed_concat(DISK_ID_OPEN@, d);
    lemma_sealed_concat(DISK_ID_OPEN@ + d, DISK_ID_CLOSE@);
    assert(DISK_ID_OPEN@ + d + DISK_ID_CLOSE@ == disk_id_element(o.disk_id));
    let p = dec(o.partition_id as nat);
    lemma_sealed_concat(PARTITION_ID_OPEN@, p);
    lemma_sealed_concat(PARTITION_ID_OPEN@ + p, PARTITION_ID_CLOSE@);
    assert(PARTITION_ID_OPEN@ + p + PARTITION_ID_CLOSE@ == partition_id_element(o.partition_id));
    let mut tail = AFTER_INSTALL_TO@;
    lemma_sealed_concat(tail, c);
    tail = tail + c;
    lemma_sealed_concat(tail, ACCOUNT_NAME_OPEN@);
    tail = tail + ACCOUNT_NAME_OPEN@;
    lemma_sealed_concat(tail, u);
    tail = tail + u;
    lemma_sealed_concat(tail, DISPLAY_NAME_OPEN@);
    tail = tail + DISPLAY_NAME_OPEN@;
    lemma_sealed_concat(tail, u);
    tail = tail + u;
    lemma_sealed_concat(tail, AUTO_LOGON_USER_OPEN@);
    tail = tail + AUTO_LOGON_USER_OPEN@;
    lemma_sealed_concat(tail, u);
    tail = tail + u;
    lemma_sealed_concat(tail, TAIL@);
    tail = tail + TAIL@;
    assert(tail == xml_after_install_to(u, c));
    lemma_sealed_concat(acc, disk_id_element(o.disk_id));
    lemma_sealed_concat(acc + disk_id_element(o.disk_id), BETWEEN_IDS@);
    lemma_sealed_concat(acc + disk_id_element(o.disk_id) + BETWEEN_IDS@, partition_id_element(o.partition_id));
    lemma_sealed_concat(
        acc + disk_id_element(o.disk_id) + BETWEEN_IDS@ + partition_id_element(o.partition_id),
        tail,
    );
    assert(unattend_xml(o) == answer_file(o.disk_id, o.partition_id, u, c, l));
    lemma_sealed_lacks_tag(unattend_xml(o));
}

} // verus!
