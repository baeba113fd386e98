use paperticker::config::Config;
use paperticker::provider::{catalog, lookup};
use paperticker::secret::SecretString;
use paperticker::sources::{build, provider_status, PriceSource, Providers};

const KEY: &str = "sk-live-do-not-log-me";

#[test]
fn debug_does_not_leak() {
    let s = SecretString::new(KEY);
    assert_eq!(format!("{s:?}"), "SecretString([redacted])");
    assert!(!format!("{s:?}").contains(KEY));
}

#[test]
fn display_does_not_leak() {
    let s = SecretString::new(KEY);
    assert_eq!(s.to_string(), "[redacted]");
    assert!(!s.to_string().contains(KEY));
}

#[test]
fn debug_of_a_containing_struct_does_not_leak() {
    #[derive(Debug)]
    #[allow(dead_code)]
    struct Wrapper {
        provider: &'static str,
        api_key: Option<SecretString>,
    }
    let w = Wrapper {
        provider: "alphavantage",
        api_key: Some(SecretString::new(KEY)),
    };
    assert!(!format!("{w:?}").contains(KEY), "leaked: {w:?}");
}

#[test]
fn round_trips_over_the_wire() {
    let s = SecretString::new(KEY);
    let json = serde_json::to_string(s.expose_secret()).unwrap();
    assert_eq!(json, format!("\"{KEY}\""));
    let back = SecretString::from(serde_json::from_str::<String>(&json).unwrap());
    assert_eq!(back.expose_secret(), KEY);
}

#[test]
fn a_secret_is_empty_only_without_text() {
    assert!(SecretString::new("").is_empty());
    assert!(!SecretString::new(" ").is_empty());
    assert_eq!(SecretString::new(KEY).duplicate().expose_secret(), KEY);
    assert_eq!(SecretString::new(KEY).display_text(), "[redacted]");
    assert_eq!(SecretString::new(KEY).debug_text(), "SecretString([redacted])");
}

#[test]
fn a_wiped_secret_leaves_others_alone() {
    let first = SecretString::new(KEY);
    let second = first.duplicate();
    drop(first);
    assert_eq!(second.expose_secret(), KEY);
}

#[test]
fn catalog_ids_are_unique() {
    let mut ids: Vec<_> = catalog().into_iter().map(|p| p.id).collect();
    ids.sort();
    let before = ids.len();
    ids.dedup();
    assert_eq!(before, ids.len(), "duplicate provider id in the catalog");
}

#[test]
fn key_requiring_providers_say_where_to_get_one() {
    for p in catalog() {
        if p.requires_key {
            assert!(p.signup_url.is_some(), "{} needs a key but no signup_url", p.id);
        }
    }
}

#[test]
fn lookup_matches_the_catalog() {
    assert_eq!(lookup("alphavantage").unwrap().id, "alphavantage");
    assert!(lookup("nope").is_none());
}

#[test]
fn the_catalog_describes_its_one_provider() {
    let all = catalog();
    assert_eq!(all.len(), 1);
    assert_eq!(all[0].label, "Alpha Vantage");
    assert!(all[0].requires_key);
    assert_eq!(
        all[0].signup_url.as_deref(),
        Some("https://www.alphavantage.co/support/#api-key")
    );
    assert_eq!(
        all[0].description,
        "Documented daily time-series API. Free tier is rate-limited but ample for a cached daily refresh, and permits the cache. Non-commercial use only."
    );
}

#[test]
fn every_catalog_entry_has_an_implementation() {
    for info in catalog() {
        let key = info.requires_key.then(|| SecretString::new("test-key"));
        let built = build(&info.id, key.as_ref());
        assert!(built.is_ok(), "no implementation for {}: {:?}", info.id, built.err());
        assert_eq!(built.unwrap().id(), info.id);
    }
}

#[test]
fn key_requiring_providers_refuse_to_build_without_one() {
    for info in catalog() {
        if info.requires_key {
            assert!(build(&info.id, None).is_err(), "{} built with no key", info.id);
            let empty = SecretString::new("");
            assert!(
                build(&info.id, Some(&empty)).is_err(),
                "{} built with an empty key",
                info.id
            );
        }
    }
    assert_eq!(
        build("alphavantage", None).unwrap_err(),
        "provider alphavantage requires an API key"
    );
}

#[test]
fn unknown_provider_is_rejected() {
    assert!(build("definitely-not-a-provider", None).is_err());
    assert_eq!(
        build("a \"b\"\n", None).unwrap_err(),
        "unknown provider \"a \\\"b\\\"\\n\""
    );
}

#[test]
fn a_built_source_asks_with_the_given_key() {
    let key = SecretString::new(KEY);
    let PriceSource::AlphaVantage(a) = build("alphavantage", Some(&key)).unwrap();
    assert_eq!(a.key.expose_secret(), KEY);
}

#[test]
fn without_a_provider_nothing_can_be_fetched() {
    let none = Providers::new(Config::default());
    assert_eq!(
        none.current().unwrap_err(),
        "no price data provider is configured — run `tickerctl provider set` to choose one"
    );
    let set = Providers::new(Config {
        provider: Some("alphavantage".to_string()),
        api_key: Some(SecretString::new("k")),
    });
    assert_eq!(set.current().unwrap().id(), "alphavantage");
    assert_eq!(set.config().provider.as_deref(), Some("alphavantage"));
}

#[test]
fn status_reports_whether_a_key_is_on_file_and_nothing_of_it() {
    let status = |provider: Option<&str>, key: Option<&str>| {
        provider_status(&Config {
            provider: provider.map(str::to_string),
            api_key: key.map(SecretString::new),
        })
    };
    let none = status(None, None);
    assert!(none.selected.is_none() && none.unavailable.is_none());
    assert!(!none.key_configured && !none.ready);
    assert_eq!(none.available.len(), 1);

    let typo = status(Some("alphavantag"), Some("k"));
    assert!(typo.selected.is_none());
    assert_eq!(typo.unavailable.as_deref(), Some("unknown provider \"alphavantag\""));
    assert!(typo.key_configured && !typo.ready);

    let keyless = status(Some("alphavantage"), Some(""));
    assert_eq!(keyless.selected.as_ref().unwrap().id, "alphavantage");
    assert!(!keyless.key_configured && !keyless.ready);

    let ready = status(Some("alphavantage"), Some(KEY));
    assert!(ready.key_configured && ready.ready);
    assert!(!format!("{ready:?}").contains(KEY));
    assert_eq!(format!("{ready:?}"), format!("{:?}", status(Some("alphavantage"), Some("x"))));
}
