use layered_config::config::{Config, ConfigBase, NoExtension};
use layered_config::error::ConfigError;
use layered_config::repodata_config::{RepodataChannelConfig, RepodataConfig};
use layered_config::toml_doc::TomlItem;
use layered_config::urls::parse_url;

fn entry(key: &str, value: TomlItem) -> (String, TomlItem) {
    (String::from(key), value)
}

#[test]
fn channel_override_round_trips_through_items() {
    let c = RepodataChannelConfig {
        disable_jlap: Some(true),
        disable_bzip2: None,
        disable_zstd: Some(false),
        disable_sharded: Some(true),
    };
    let items = c.to_items();
    assert_eq!(items.len(), 3);
    let back = RepodataChannelConfig::from_items(&items).unwrap();
    assert_eq!(back, c);
}

#[test]
fn channel_override_parse_accepts_snake_case_aliases() {
    let items = vec![
        entry("disable_jlap", TomlItem::Bool(true)),
        entry("disable_bzip2", TomlItem::Bool(false)),
        entry("disable_zstd", TomlItem::Bool(true)),
        entry("disable-sharded", TomlItem::Bool(false)),
    ];
    let c = RepodataChannelConfig::from_items(&items).unwrap();
    assert_eq!(c.disable_jlap, Some(true));
    assert_eq!(c.disable_bzip2, Some(false));
    assert_eq!(c.disable_zstd, Some(true));
    assert_eq!(c.disable_sharded, Some(false));
}

#[test]
fn channel_override_parse_rejects_unknown_key() {
    let items = vec![entry("disable-everything", TomlItem::Bool(true))];
    let err = RepodataChannelConfig::from_items(&items).unwrap_err();
    assert!(matches!(err, ConfigError::Parse(_)));
}

#[test]
fn channel_override_parse_rejects_alias_and_canonical_together() {
    let items = vec![
        entry("disable-jlap", TomlItem::Bool(true)),
        entry("disable_jlap", TomlItem::Bool(false)),
    ];
    let err = RepodataChannelConfig::from_items(&items).unwrap_err();
    assert!(matches!(err, ConfigError::Parse(_)));
}

#[test]
fn channel_override_parse_rejects_non_boolean_values() {
    for bad in [
        TomlItem::Int(1),
        TomlItem::Text(String::from("yes")),
        TomlItem::TextList(vec![String::from("yes")]),
        TomlItem::Table(Vec::new()),
    ] {
        let items = vec![entry("disable-jlap", bad)];
        let err = RepodataChannelConfig::from_items(&items).unwrap_err();
        assert!(matches!(err, ConfigError::Parse(_)));
    }
}

#[test]
fn channel_override_parse_of_empty_table_is_empty() {
    let items: Vec<(String, TomlItem)> = Vec::new();
    let c = RepodataChannelConfig::from_items(&items).unwrap();
    assert!(c.is_empty());
    assert_eq!(RepodataChannelConfig::empty().to_items().len(), 0);
}

#[test]
fn parse_url_canonicalizes() {
    // not handed back unchanged: scheme and host are lowered, the empty
    // path becomes "/"
    assert_eq!(parse_url("HTTPS://EXAMPLE.COM").unwrap(), "https://example.com/");
    assert_eq!(parse_url("not a url"), None);
    assert_eq!(
        parse_url("https://conda.example/main/").unwrap(),
        "https://conda.example/main/"
    );
}

#[test]
fn insert_channel_canonicalizes_and_rejects() {
    let mut rc = RepodataConfig::empty();
    rc.insert_channel("HTTPS://CONDA.EXAMPLE", RepodataChannelConfig::empty())
        .unwrap();
    assert_eq!(rc.per_channel[0].0, "https://conda.example/");
    let dup = rc
        .insert_channel("https://conda.example/", RepodataChannelConfig::empty())
        .unwrap_err();
    assert!(matches!(dup, ConfigError::Parse(_)));
    let bad = rc
        .insert_channel("::not a url::", RepodataChannelConfig::empty())
        .unwrap_err();
    assert!(matches!(bad, ConfigError::Parse(_)));
    assert_eq!(rc.per_channel.len(), 1);
}

#[test]
fn insert_mirror_rejects_invalid_url() {
    let mut cfg = ConfigBase::<NoExtension>::default_value();
    let err = cfg.insert_mirror("no scheme", Vec::new()).unwrap_err();
    assert!(matches!(err, ConfigError::Parse(_)));
    assert_eq!(cfg.mirrors.len(), 0);
}

#[test]
fn repodata_from_items_splits_defaults_and_channels() {
    let items = vec![
        entry("disable-jlap", TomlItem::Bool(true)),
        entry(
            "https://conda.example/main",
            TomlItem::Table(vec![entry("disable_zstd", TomlItem::Bool(true))]),
        ),
    ];
    let rc = RepodataConfig::from_items(&items).unwrap();
    assert_eq!(rc.default.disable_jlap, Some(true));
    assert_eq!(rc.per_channel.len(), 1);
    assert_eq!(rc.per_channel[0].0, "https://conda.example/main");
    assert_eq!(rc.per_channel[0].1.disable_zstd, Some(true));
}

#[test]
fn repodata_from_items_rejects_bad_entries() {
    // a key that is neither a field nor carries a table
    let not_a_table = vec![entry("https://conda.example/", TomlItem::Bool(true))];
    assert!(matches!(
        RepodataConfig::from_items(&not_a_table).unwrap_err(),
        ConfigError::Parse(_)
    ));
    // a channel table with an unknown field (strict)
    let bad_channel = vec![entry(
        "https://conda.example/",
        TomlItem::Table(vec![entry("disable-everything", TomlItem::Bool(true))]),
    )];
    assert!(matches!(
        RepodataConfig::from_items(&bad_channel).unwrap_err(),
        ConfigError::Parse(_)
    ));
    // two raw keys with the same canonical URL
    let dup = vec![
        entry("https://conda.example", TomlItem::Table(Vec::new())),
        entry("HTTPS://CONDA.EXAMPLE/", TomlItem::Table(Vec::new())),
    ];
    assert!(matches!(RepodataConfig::from_items(&dup).unwrap_err(), ConfigError::Parse(_)));
}

#[test]
fn repodata_resolver_round_trips_through_items() {
    let mut rc = RepodataConfig::empty();
    rc.default.disable_jlap = Some(true);
    rc.insert_channel(
        "https://conda.example/main/",
        RepodataChannelConfig {
            disable_jlap: None,
            disable_bzip2: Some(false),
            disable_zstd: Some(true),
            disable_sharded: None,
        },
    )
    .unwrap();
    let items = rc.to_items();
    let back = RepodataConfig::from_items(&items).unwrap();
    assert_eq!(back, rc);
}

#[test]
fn error_kinds_carry_their_messages() {
    assert_eq!(ConfigError::Io(String::from("unreadable")).message(), "unreadable");
    assert_eq!(ConfigError::Parse(String::from("bad toml")).message(), "bad toml");
    assert_eq!(ConfigError::Validation(String::from("no proxy")).message(), "no proxy");
    assert_eq!(
        ConfigError::ExtensionMerge(String::from("extension failed")).message(),
        "extension failed"
    );
}
