//! The Windows 11 `autounattend.xml` answer file, emitted locally so the
//! installer works offline.
//!
//! Windows is installed **into the partition the installer already created**:
//! `<InstallTo>` selects the existing NTFS partition by disk and partition
//! index, and the file has no `<DiskConfiguration>`, so Setup leaves the GPT
//! (and the shared ESP and SteamOS partitions) untouched. The Win11 TPM,
//! Secure Boot and RAM checks are bypassed through `LabConfig`.

pub mod tags;

use vstd::prelude::*;

use crate::strings::{dec, occurs_at, push_decimal, push_str};

verus! {

/// What the answer file is generated from.
pub struct UnattendOpts {
    /// 0-based disk index as Windows Setup sees it (the only disk handed to the VM is 0).
    pub disk_id: u32,
    /// 1-based index of the target NTFS partition as Setup sees it.
    pub partition_id: u32,
    pub username: String,
    pub computer_name: String,
    /// For example `en-US`.
    pub locale: String,
}

impl Default for UnattendOpts {
    fn default() -> (o: UnattendOpts)
        ensures
            o.disk_id == 0,
            o.partition_id == 3,
            o.username@ == "Deck"@,
            o.computer_name@ == "STEAMDECK-WIN"@,
            o.locale@ == "en-US"@,
    {
        UnattendOpts {
            disk_id: 0,
            partition_id: 3,
            username: String::from_str("Deck"),
            computer_name: String::from_str("STEAMDECK-WIN"),
            locale: String::from_str("en-US"),
        }
    }
}

/// From the XML prolog to the opening `<UILanguage>` of the WinPE language settings.
pub const HEAD: &'static str = r##"<?xml version="1.0" encoding="utf-8"?>
<unattend xmlns="urn:schemas-microsoft-com:unattend">
  <!-- ===== windowsPE: bypass Win11 checks, pick the existing partition ===== -->
  <settings pass="windowsPE">
    <component name="Microsoft-Windows-International-Core-WinPE" processorArchitecture="amd64"
               publicKeyToken="31bf3856ad364e35" language="neutral" versionScope="nonSxS">
      <SetupUILanguage><UILanguage>"##;

/// Closes the setup UI language, opens `<InputLocale>`.
pub const INPUT_LOCALE_OPEN: &'static str = r##"</UILanguage></SetupUILanguage>
      <InputLocale>"##;

/// Closes `<InputLocale>`, opens `<SystemLocale>`.
pub const SYSTEM_LOCALE_OPEN: &'static str = r##"</InputLocale>
      <SystemLocale>"##;

/// Closes `<SystemLocale>`, opens `<UILanguage>`.
pub const UI_LANGUAGE_OPEN: &'static str = r##"</SystemLocale>
      <UILanguage>"##;

/// Closes `<UILanguage>`, opens `<UserLocale>`.
pub const USER_LOCALE_OPEN: &'static str = r##"</UILanguage>
      <UserLocale>"##;

/// The Win11 check bypasses, EULA and image settings, up to `<InstallTo>`.
pub const SETUP: &'static str = r##"</UserLocale>
    </component>
    <component name="Microsoft-Windows-Setup" processorArchitecture="amd64"
               publicKeyToken="31bf3856ad364e35" language="neutral" versionScope="nonSxS">
      <!-- LabConfig: skip TPM 2.0, Secure Boot and RAM requirement checks. -->
      <RunSynchronous>
        <RunSynchronousCommand wcm:action="add" xmlns:wcm="http://schemas.microsoft.com/WMIConfig/2002/State">
          <Order>1</Order><Path>reg add HKLM\SYSTEM\Setup\LabConfig /v BypassTPMCheck /t REG_DWORD /d 1 /f</Path>
        </RunSynchronousCommand>
        <RunSynchronousCommand wcm:action="add" xmlns:wcm="http://schemas.microsoft.com/WMIConfig/2002/State">
          <Order>2</Order><Path>reg add HKLM\SYSTEM\Setup\LabConfig /v BypassSecureBootCheck /t REG_DWORD /d 1 /f</Path>
        </RunSynchronousCommand>
        <RunSynchronousCommand wcm:action="add" xmlns:wcm="http://schemas.microsoft.com/WMIConfig/2002/State">
          <Order>3</Order><Path>reg add HKLM\SYSTEM\Setup\LabConfig /v BypassRAMCheck /t REG_DWORD /d 1 /f</Path>
        </RunSynchronousCommand>
      </RunSynchronous>
      <UserData>
        <AcceptEula>true</AcceptEula>
        <ProductKey><Key></Key></ProductKey>
      </UserData>
      <ImageInstall>
        <OSImage>
          <!-- Install into the EXISTING partition we created; do not reformat the disk. -->
          <InstallTo>
            "##;

/// Between the disk and the partition of `<InstallTo>`.
pub const BETWEEN_IDS: &'static str = r##"
            "##;

/// From the end of `<InstallTo>` to the opening `<ComputerName>`.
pub const AFTER_INSTALL_TO: &'static str = r##"
          </InstallTo>
          <InstallToAvailablePartition>false</InstallToAvailablePartition>
        </OSImage>
      </ImageInstall>
    </component>
  </settings>

  <!-- ===== specialize: computer name ===== -->
  <settings pass="specialize">
    <component name="Microsoft-Windows-Shell-Setup" processorArchitecture="amd64"
               publicKeyToken="31bf3856ad364e35" language="neutral" versionScope="nonSxS">
      <ComputerName>"##;

/// From the computer name to the local account's `<Name>`.
pub const ACCOUNT_NAME_OPEN: &'static str = r##"</ComputerName>
    </component>
  </settings>

  <!-- ===== oobeSystem: skip OOBE, create a local account ===== -->
  <settings pass="oobeSystem">
    <component name="Microsoft-Windows-Shell-Setup" processorArchitecture="amd64"
               publicKeyToken="31bf3856ad364e35" language="neutral" versionScope="nonSxS">
      <OOBE>
        <HideEULAPage>true</HideEULAPage>
        <HideOEMRegistrationScreen>true</HideOEMRegistrationScreen>
        <HideOnlineAccountScreens>true</HideOnlineAccountScreens>
        <HideWirelessSetupInOOBE>true</HideWirelessSetupInOOBE>
        <ProtectYourPC>3</ProtectYourPC>
        <SkipMachineOOBE>true</SkipMachineOOBE>
        <SkipUserOOBE>true</SkipUserOOBE>
      </OOBE>
      <UserAccounts>
        <LocalAccounts>
          <LocalAccount wcm:action="add" xmlns:wcm="http://schemas.microsoft.com/WMIConfig/2002/State">
            <Name>"##;

/// Group membership, then the opening `<DisplayName>`.
pub const DISPLAY_NAME_OPEN: &'static str = r##"</Name>
            <Group>Administrators</Group>
            <DisplayName>"##;

/// From the display name to the auto-logon `<Username>`.
pub const AUTO_LOGON_USER_OPEN: &'static str = r##"</DisplayName>
          </LocalAccount>
        </LocalAccounts>
      </UserAccounts>
      <AutoLogon>
        <Enabled>true</Enabled>
        <Username>"##;

/// The rest of the file.
pub const TAIL: &'static str = r##"</Username>
        <LogonCount>1</LogonCount>
      </AutoLogon>
    </component>
  </settings>
</unattend>
"##;

/// Opens the disk index of `<InstallTo>`.
pub const DISK_ID_OPEN: &'static str = "<DiskID>";

/// Closes the disk index of `<InstallTo>`.
pub const DISK_ID_CLOSE: &'static str = "</DiskID>";

/// Opens the partition index of `<InstallTo>`.
pub const PARTITION_ID_OPEN: &'static str = "<PartitionID>";

/// Closes the partition index of `<InstallTo>`.
pub const PARTITION_ID_CLOSE: &'static str = "</PartitionID>";

/// The `<InstallTo>` element's disk selection.
pub open spec fn disk_id_element(disk_id: u32) -> Seq<char> {
    DISK_ID_OPEN@ + dec(disk_id as nat) + DISK_ID_CLOSE@
}

/// The `<InstallTo>` element's partition selection.
pub open spec fn partition_id_element(partition_id: u32) -> Seq<char> {
    PARTITION_ID_OPEN@ + dec(partition_id as nat) + PARTITION_ID_CLOSE@
}

/// Everything up to the disk selection.
pub open spec fn xml_before_install_to(locale: Seq<char>) -> Seq<char> {
    HEAD@ + locale + INPUT_LOCALE_OPEN@ + locale + SYSTEM_LOCALE_OPEN@ + locale
        + UI_LANGUAGE_OPEN@ + locale + USER_LOCALE_OPEN@ + locale + SETUP@
}

/// Everything after the partition selection.
pub open spec fn xml_after_install_to(username: Seq<char>, computer_name: Seq<char>) -> Seq<char> {
    AFTER_INSTALL_TO@ + computer_name + ACCOUNT_NAME_OPEN@ + username + DISPLAY_NAME_OPEN@
        + username + AUTO_LOGON_USER_OPEN@ + username + TAIL@
}

/// The answer file: the locale in every WinPE language setting, the disk and
/// partition in `<InstallTo>`, the computer name, and the user name as the
/// local administrator's name, display name and auto-logon user.
pub open spec fn answer_file(
    disk_id: u32,
    partition_id: u32,
    username: Seq<char>,
    computer_name: Seq<char>,
    locale: Seq<char>,
) -> Seq<char> {
    xml_before_install_to(locale) + disk_id_element(disk_id) + BETWEEN_IDS@ + partition_id_element(
        partition_id,
    ) + xml_after_install_to(username, computer_name)
}

/// The answer file for a set of options.
pub open spec fn unattend_xml(o: &UnattendOpts) -> Seq<char> {
    answer_file(o.disk_id, o.partition_id, o.username@, o.computer_name@, o.locale@)
}

/// Renders the full `autounattend.xml`.
pub fn generate(o: &UnattendOpts) -> (xml: String)
    ensures
        xml@ == unattend_xml(o),
{
    let mut s = String::new();
    push_str(&mut s, HEAD);
    push_str(&mut s, o.locale.as_str());
    push_str(&mut s, INPUT_LOCALE_OPEN);
    push_str(&mut s, o.locale.as_str());
    push_str(&mut s, SYSTEM_LOCALE_OPEN);
    push_str(&mut s, o.locale.as_str());
    push_str(&mut s, UI_LANGUAGE_OPEN);
    push_str(&mut s, o.locale.as_str());
    push_str(&mut s, USER_LOCALE_OPEN);
    push_str(&mut s, o.locale.as_str());
    push_str(&mut s, SETUP);
    push_str(&mut s, DISK_ID_OPEN);
    push_decimal(&mut s, o.disk_id as u64);
    push_str(&mut s, DISK_ID_CLOSE);
    push_str(&mut s, BETWEEN_IDS);
    push_str(&mut s, PARTITION_ID_OPEN);
    push_decimal(&mut s, o.partition_id as u64);
    push_str(&mut s, PARTITION_ID_CLOSE);
    push_str(&mut s, AFTER_INSTALL_TO);
    push_str(&mut s, o.computer_name.as_str());
    push_str(&mut s, ACCOUNT_NAME_OPEN);
    push_str(&mut s, o.username.as_str());
    push_str(&mut s, DISPLAY_NAME_OPEN);
    push_str(&mut s, o.username.as_str());
    push_str(&mut s, AUTO_LOGON_USER_OPEN);
    push_str(&mut s, o.username.as_str());
    push_str(&mut s, TAIL);
    assert(s@ =~= unattend_xml(o));
    s
}

/// Whatever the options, the answer file installs into the chosen partition
/// of the chosen disk: it holds `<DiskID>d</DiskID>` and
/// `<PartitionID>p</PartitionID>` with the options' indices.
pub proof fn law_answer_file_targets_partition(o: &UnattendOpts)
    ensures
        occurs_at(unattend_xml(o), disk_id_element(o.disk_id), xml_before_install_to(o.locale@).len() as int),
        occurs_at(
            unattend_xml(o),
            partition_id_element(o.partition_id),
            (xml_before_install_to(o.locale@) + disk_id_element(o.disk_id) + BETWEEN_IDS@).len() as int,
        ),
{
    let x = unattend_xml(o);
    let a = xml_before_install_to(o.locale@);
    let d = disk_id_element(o.disk_id);
    let b = BETWEEN_IDS@;
    let p = partition_id_element(o.partition_id);
    let z = xml_after_install_to(o.username@, o.computer_name@);
    assert(x =~= a + d + b + p + z);
    assert(x.subrange(a.len() as int, a.len() + d.len() as int) =~= d);
    assert(x.subrange((a + d + b).len() as int, (a + d + b).len() + p.len() as int) =~= p);
}

} // verus!
