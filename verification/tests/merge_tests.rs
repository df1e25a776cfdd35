use layered_config::build_config::BuildConfig;
use layered_config::config::{Config, ConfigBase, NoExtension};
use layered_config::concurrency::ConcurrencyConfig;
use layered_config::proxy::ProxyConfig;
use layered_config::repodata_config::{RepodataChannelConfig, RepodataConfig};

fn base() -> ConfigBase<NoExtension> {
    ConfigBase::<NoExtension>::default_value()
}

fn override_of(
    jlap: Option<bool>,
    bzip2: Option<bool>,
    zstd: Option<bool>,
    sharded: Option<bool>,
) -> RepodataChannelConfig {
    RepodataChannelConfig {
        disable_jlap: jlap,
        disable_bzip2: bzip2,
        disable_zstd: zstd,
        disable_sharded: sharded,
    }
}

#[test]
fn channel_merge_identity_left() {
    let b = override_of(Some(true), None, Some(false), None);
    let empty = RepodataChannelConfig::empty();
    assert_eq!(empty.merge(b), b);
}

#[test]
fn channel_merge_identity_right() {
    let a = override_of(None, Some(false), None, Some(true));
    let empty = RepodataChannelConfig::empty();
    assert_eq!(a.merge(empty), a);
}

#[test]
fn channel_merge_self_wins_if_set() {
    // layer 1 sets disable-jlap; layer 2 (higher priority) sets it too, plus
    // disable-bzip2: jlap is NOT overridden, the documented asymmetry.
    let layer1 = override_of(Some(true), None, None, None);
    let layer2 = override_of(Some(false), Some(true), None, None);
    let merged = layer1.merge(layer2);
    assert_eq!(merged.disable_jlap, Some(true));
    assert_eq!(merged.disable_bzip2, Some(true));
    assert_eq!(merged.disable_zstd, None);
    assert_eq!(merged.disable_sharded, None);
}

#[test]
fn channel_is_empty() {
    assert!(RepodataChannelConfig::empty().is_empty());
    assert!(!override_of(Some(false), None, None, None).is_empty());
}

#[test]
fn repodata_merge_key_in_one_side_survives() {
    let mut a = RepodataConfig::empty();
    a.insert_channel("https://left.example/", override_of(Some(true), None, None, None))
        .unwrap();
    let mut b = RepodataConfig::empty();
    b.insert_channel("https://right.example/", override_of(None, Some(true), None, None))
        .unwrap();
    let merged = a.merge(b);
    assert_eq!(merged.per_channel.len(), 2);
    let left = merged
        .per_channel
        .iter()
        .find(|p| p.0 == "https://left.example/")
        .unwrap();
    assert_eq!(left.1, override_of(Some(true), None, None, None));
    let right = merged
        .per_channel
        .iter()
        .find(|p| p.0 == "https://right.example/")
        .unwrap();
    assert_eq!(right.1, override_of(None, Some(true), None, None));
}

#[test]
fn repodata_merge_key_in_both_merges_fields() {
    let mut a = RepodataConfig::empty();
    a.insert_channel("https://both.example/", override_of(Some(true), None, None, None))
        .unwrap();
    let mut b = RepodataConfig::empty();
    b.insert_channel(
        "https://both.example/",
        override_of(Some(false), Some(true), None, None),
    )
    .unwrap();
    let merged = a.merge(b);
    assert_eq!(merged.per_channel.len(), 1);
    assert_eq!(merged.per_channel[0].0, "https://both.example/");
    assert_eq!(merged.per_channel[0].1, override_of(Some(true), Some(true), None, None));
}

#[test]
fn repodata_merge_defaults() {
    let mut a = RepodataConfig::empty();
    a.default = override_of(Some(true), None, None, None);
    let mut b = RepodataConfig::empty();
    b.default = override_of(Some(false), Some(false), None, None);
    let merged = a.merge(b);
    assert_eq!(merged.default, override_of(Some(true), Some(false), None, None));
}

#[test]
fn proxy_merge_hosts_kept_when_other_default() {
    let a = ProxyConfig {
        https: Some(String::from("http://proxy.example/")),
        http: None,
        non_proxy_hosts: vec![String::from("internal.example")],
    };
    let b = ProxyConfig::empty();
    let merged = a.clone().merge_config(&b).unwrap();
    assert_eq!(merged.non_proxy_hosts, vec![String::from("internal.example")]);
    assert_eq!(merged.https, Some(String::from("http://proxy.example/")));
}

#[test]
fn proxy_merge_hosts_replaced_wholesale() {
    let a = ProxyConfig {
        https: None,
        http: None,
        non_proxy_hosts: vec![String::from("one.example"), String::from("two.example")],
    };
    let b = ProxyConfig {
        https: None,
        http: Some(String::from("http://other.example/")),
        non_proxy_hosts: vec![String::from("three.example")],
    };
    let merged = a.merge_config(&b).unwrap();
    // replacement, not a union
    assert_eq!(merged.non_proxy_hosts, vec![String::from("three.example")]);
    assert_eq!(merged.http, Some(String::from("http://other.example/")));
}

#[test]
fn proxy_merge_url_other_wins_if_specified() {
    let a = ProxyConfig {
        https: Some(String::from("http://low.example/")),
        http: Some(String::from("http://low.example/")),
        non_proxy_hosts: Vec::new(),
    };
    let b = ProxyConfig {
        https: Some(String::from("http://high.example/")),
        http: None,
        non_proxy_hosts: Vec::new(),
    };
    let merged = a.merge_config(&b).unwrap();
    assert_eq!(merged.https, Some(String::from("http://high.example/")));
    assert_eq!(merged.http, Some(String::from("http://low.example/")));
}

#[test]
fn proxy_validate_requires_a_proxy_url() {
    let empty = ProxyConfig::empty();
    let err = empty.validate().unwrap_err();
    assert_eq!(err.message(), "At least one of https or http proxy must be set");
    let ok = ProxyConfig {
        https: Some(String::from("http://proxy.example/")),
        http: None,
        non_proxy_hosts: Vec::new(),
    };
    assert!(ok.validate().is_ok());
}

#[test]
fn proxy_is_default_checks_all_fields() {
    assert!(ProxyConfig::empty().is_default());
    let only_http = ProxyConfig {
        https: None,
        http: Some(String::from("http://proxy.example/")),
        non_proxy_hosts: Vec::new(),
    };
    assert!(!only_http.is_default());
    let only_hosts = ProxyConfig {
        https: None,
        http: None,
        non_proxy_hosts: vec![String::from("a.example")],
    };
    assert!(!only_hosts.is_default());
}

#[test]
fn loader_later_file_wins_for_tls() {
    let mut layer_a = base();
    layer_a.tls_no_verify = Some(true);
    let mut layer_b = base();
    layer_b.tls_no_verify = Some(false);
    let ab = base()
        .apply_layer(layer_a.clone(), String::from("a.toml"))
        .unwrap()
        .apply_layer(layer_b.clone(), String::from("b.toml"))
        .unwrap();
    assert_eq!(ab.tls_no_verify, Some(false));
    let ba = base()
        .apply_layer(layer_b, String::from("b.toml"))
        .unwrap()
        .apply_layer(layer_a, String::from("a.toml"))
        .unwrap();
    assert_eq!(ba.tls_no_verify, Some(true));
}

#[test]
fn loader_records_sources_in_order() {
    let loaded = base()
        .apply_layer(base(), String::from("global.toml"))
        .unwrap()
        .apply_layer(base(), String::from("user.toml"))
        .unwrap();
    assert_eq!(loaded.loaded_from, vec![String::from("global.toml"), String::from("user.toml")]);
}

#[test]
fn scenario_tls_no_verify_from_toml() {
    // Two TOML files; the second is loaded last and wins.
    let first: toml::Table = "tls-no-verify = true".parse().unwrap();
    let second: toml::Table = "tls-no-verify = false".parse().unwrap();
    let mut layer1 = base();
    layer1.tls_no_verify = first.get("tls-no-verify").unwrap().as_bool();
    let mut layer2 = base();
    layer2.tls_no_verify = second.get("tls-no-verify").unwrap().as_bool();
    let effective = base()
        .apply_layer(layer1, String::from("first.toml"))
        .unwrap()
        .apply_layer(layer2, String::from("second.toml"))
        .unwrap();
    assert_eq!(effective.tls_no_verify, Some(false));
}

#[test]
fn mirrors_replace_wholesale_per_key() {
    let mut a = base();
    a.insert_mirror("https://conda.example/main/", vec![String::from("https://m1.example/")])
        .unwrap();
    let mut b = base();
    b.insert_mirror(
        "https://conda.example/main/",
        vec![String::from("https://m2.example/"), String::from("https://m3.example/")],
    )
    .unwrap();
    let merged = a.merge_config(&b).unwrap();
    assert_eq!(merged.mirrors.len(), 1);
    assert_eq!(merged.mirrors[0].0, "https://conda.example/main/");
    assert_eq!(
        merged.mirrors[0].1,
        vec![String::from("https://m2.example/"), String::from("https://m3.example/")]
    );
}

#[test]
fn mirrors_union_of_distinct_keys() {
    let mut a = base();
    a.insert_mirror("https://one.example/", vec![String::from("https://m1.example/")])
        .unwrap();
    let mut b = base();
    b.insert_mirror("https://two.example/", vec![String::from("https://m2.example/")])
        .unwrap();
    let merged = a.merge_config(&b).unwrap();
    assert_eq!(merged.mirrors.len(), 2);
    let one = merged.mirrors.iter().find(|p| p.0 == "https://one.example/").unwrap();
    assert_eq!(one.1, vec![String::from("https://m1.example/")]);
    let two = merged.mirrors.iter().find(|p| p.0 == "https://two.example/").unwrap();
    assert_eq!(two.1, vec![String::from("https://m2.example/")]);
}

#[test]
fn build_is_first_loaded_wins() {
    let mut a = base();
    a.build = Some(BuildConfig {
        version: Some(String::from("1")),
        author: None,
        description: None,
    });
    let mut b = base();
    b.build = Some(BuildConfig {
        version: Some(String::from("2")),
        author: None,
        description: None,
    });
    let merged = a.clone().merge_config(&b).unwrap();
    assert_eq!(merged.build.unwrap().version, Some(String::from("1")));
    let from_other = base().merge_config(&b).unwrap();
    assert_eq!(from_other.build.unwrap().version, Some(String::from("2")));
}

#[test]
fn concurrency_other_wins_if_non_default() {
    let mut a = base();
    a.concurrency = ConcurrencyConfig { solves: Some(4), downloads: Some(8) };
    let b = base();
    let kept = a.clone().merge_config(&b).unwrap();
    assert_eq!(kept.concurrency, ConcurrencyConfig { solves: Some(4), downloads: Some(8) });
    let mut c = base();
    c.concurrency = ConcurrencyConfig { solves: Some(1), downloads: None };
    let replaced = a.merge_config(&c).unwrap();
    assert_eq!(replaced.concurrency, ConcurrencyConfig { solves: Some(1), downloads: None });
}

#[test]
fn auth_file_other_wins_if_specified() {
    let mut a = base();
    a.authentication_override_file = Some(String::from("/low/tokens.json"));
    let mut b = base();
    b.authentication_override_file = Some(String::from("/high/tokens.json"));
    let merged = a.clone().merge_config(&b).unwrap();
    assert_eq!(merged.authentication_override_file, Some(String::from("/high/tokens.json")));
    let kept = a.merge_config(&base()).unwrap();
    assert_eq!(kept.authentication_override_file, Some(String::from("/low/tokens.json")));
}

#[test]
fn default_channels_left_untouched_by_merge() {
    let mut a = base();
    a.default_channels = vec![String::from("conda-forge")];
    let mut b = base();
    b.default_channels = vec![String::from("bioconda")];
    let merged = a.merge_config(&b).unwrap();
    assert_eq!(merged.default_channels, vec![String::from("conda-forge")]);
}

#[test]
fn extension_names_and_keys() {
    let cfg = base();
    assert_eq!(cfg.get_extension_name(), "base");
    assert_eq!(
        cfg.keys(),
        vec![
            String::from("build.version"),
            String::from("build.author"),
            String::from("build.description")
        ]
    );
    let proxy = ProxyConfig::empty();
    assert_eq!(proxy.get_extension_name(), "proxy");
    assert_eq!(
        proxy.keys(),
        vec![String::from("https"), String::from("http"), String::from("non-proxy-hosts")]
    );
    assert!(cfg.is_default());
    assert!(cfg.validate().is_ok());
}
