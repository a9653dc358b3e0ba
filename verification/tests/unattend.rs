use steamdualboot::engine::unattend::{generate, UnattendOpts};

#[test]
fn renders_target_partition_and_bypasses() {
    let xml = generate(&UnattendOpts { disk_id: 0, partition_id: 3, ..Default::default() });
    assert!(xml.contains("<DiskID>0</DiskID>"));
    assert!(xml.contains("<PartitionID>3</PartitionID>"));
    // No DiskConfiguration => Setup won't wipe the disk.
    assert!(!xml.contains("<DiskConfiguration>"));
    // Win11 check bypasses present.
    assert!(xml.contains("BypassTPMCheck"));
    assert!(xml.contains("BypassSecureBootCheck"));
    // OOBE skipped + local admin created.
    assert!(xml.contains("<SkipMachineOOBE>true</SkipMachineOOBE>"));
    assert!(xml.contains("<Group>Administrators</Group>"));
}

#[test]
fn is_well_formed_enough() {
    let xml = generate(&UnattendOpts::default());
    // Balanced root + the three passes we rely on.
    assert!(xml.contains("<unattend") && xml.contains("</unattend>"));
    assert_eq!(xml.matches("<settings pass=").count(), 3);
}

#[test]
fn answer_file_carries_every_option() {
    let o = UnattendOpts {
        disk_id: 2,
        partition_id: 11,
        username: "Gabe".to_string(),
        computer_name: "DECK-42".to_string(),
        locale: "de-DE".to_string(),
    };
    let xml = generate(&o);
    assert!(xml.contains("<DiskID>2</DiskID>"));
    assert!(xml.contains("<PartitionID>11</PartitionID>"));
    assert!(xml.contains("<ComputerName>DECK-42</ComputerName>"));
    assert!(xml.contains("<Name>Gabe</Name>"));
    assert!(xml.contains("<DisplayName>Gabe</DisplayName>"));
    assert!(xml.contains("<Username>Gabe</Username>"));
    assert_eq!(xml.matches("de-DE").count(), 5);
    assert!(xml.starts_with("<?xml version=\"1.0\" encoding=\"utf-8\"?>"));
    assert!(xml.ends_with("</unattend>\n"));
}

#[test]
fn default_options_target_partition_three_of_disk_zero() {
    let o = UnattendOpts::default();
    assert_eq!(o.disk_id, 0);
    assert_eq!(o.partition_id, 3);
    assert_eq!(o.username, "Deck");
    assert_eq!(o.computer_name, "STEAMDECK-WIN");
    assert_eq!(o.locale, "en-US");
    let xml = generate(&o);
    assert!(xml.contains("<UserLocale>en-US</UserLocale>"));
}

#[test]
fn option_text_cannot_complete_a_disk_configuration() {
    let o = UnattendOpts {
        disk_id: 0,
        partition_id: 10,
        username: "DiskConfiguration>".to_string(),
        computer_name: "Configuration>".to_string(),
        locale: "DiskConfiguration".to_string(),
    };
    let xml = generate(&o);
    assert!(!xml.contains("<DiskConfiguration>"));
    assert!(xml.contains("<PartitionID>10</PartitionID>"));
}
