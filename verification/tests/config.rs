use steamdualboot::config::{Config, Os};

fn load_text(t: &str) -> Config {
    Config::load(Some(t.as_bytes()))
}

#[test]
fn missing_file_gives_defaults() {
    let c = Config::load(None);
    assert_eq!(c, Config { default: Os::SteamOs, timeout: 5, last: None });
    assert_eq!(Config::default(), c);
}

#[test]
fn reads_all_three_keys() {
    let c = load_text("default=windows\ntimeout=9\nlast=steamos\n");
    assert_eq!(c, Config { default: Os::Windows, timeout: 9, last: Some(Os::SteamOs) });
}

#[test]
fn tolerates_spaces_crlf_and_unknown_lines() {
    let c = load_text("  default = windows \r\n# comment\nfoo=bar\ntimeout= +7\r\n");
    assert_eq!(c.default, Os::Windows);
    assert_eq!(c.timeout, 7);
    assert_eq!(c.last, None);
}

#[test]
fn timeout_is_capped_at_sixty() {
    assert_eq!(load_text("timeout=200").timeout, 60);
    assert_eq!(load_text("timeout=60").timeout, 60);
    assert_eq!(load_text("timeout=0").timeout, 0);
    // Not a u8: ignored.
    assert_eq!(load_text("timeout=300").timeout, 5);
    assert_eq!(load_text("timeout=-1").timeout, 5);
    assert_eq!(load_text("timeout=").timeout, 5);
}

#[test]
fn bad_default_is_ignored_but_bad_last_clears() {
    let c = load_text("last=windows\ndefault=linux\nlast=nonsense\n");
    assert_eq!(c.default, Os::SteamOs);
    assert_eq!(c.last, None);
}

#[test]
fn invalid_utf8_reads_as_empty() {
    let c = Config::load(Some(&[0xff, 0xfe, b'd']));
    assert_eq!(c, Config { default: Os::SteamOs, timeout: 5, last: None });
}

#[test]
fn text_round_trips() {
    let c = Config { default: Os::Windows, timeout: 12, last: Some(Os::Windows) };
    let t = c.to_text();
    assert_eq!(t, "default=windows\ntimeout=12\nlast=windows\n");
    assert_eq!(load_text(&t), c);
    let d = Config { default: Os::SteamOs, timeout: 0, last: None };
    assert_eq!(d.to_text(), "default=steamos\ntimeout=0\n");
    assert_eq!(load_text(&d.to_text()), d);
}

#[test]
fn round_trip_caps_a_long_timeout() {
    let c = Config { default: Os::SteamOs, timeout: 250, last: None };
    assert_eq!(c.to_text(), "default=steamos\ntimeout=250\n");
    assert_eq!(load_text(&c.to_text()).timeout, 60);
}

#[test]
fn os_keys_and_parsing() {
    assert_eq!(Os::SteamOs.key(), "steamos");
    assert_eq!(Os::Windows.key(), "windows");
    assert_eq!(Os::parse(" windows "), Some(Os::Windows));
    assert_eq!(Os::parse("steamos"), Some(Os::SteamOs));
    assert_eq!(Os::parse("Windows"), None);
}
