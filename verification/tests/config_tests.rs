use beam_connect::config::{
    AllowListEntry, AuthorityReplacement, CentralMapping, ConfigError, LocalMapping,
    LocalMappingEntry, Site,
};
use beam_connect::example_targets::example_local_checked;
use beam_connect::ids::{AppId, AppOrProxyId, IdKind};
use beam_connect::uri::{Authority, UriParts};

/// The broker's id rules, for the ids these tests use: below the broker's
/// id, one dot-separated label names a proxy, two an application.
fn beam_id_kind(id: &str, broker: &str) -> Option<IdKind> {
    let suffix = format!(".{broker}");
    let head = id.strip_suffix(suffix.as_str())?;
    let labels: Vec<&str> = head.split('.').collect();
    let valid = labels
        .iter()
        .all(|l| !l.is_empty() && l.chars().all(|c| c.is_ascii_alphanumeric() || c == '-'));
    if !valid {
        return None;
    }
    match labels.len() {
        1 => Some(IdKind::Proxy),
        2 => Some(IdKind::App),
        _ => None,
    }
}

fn allow_entry(s: &str, broker: &str) -> AllowListEntry {
    AllowListEntry::parse(s, beam_id_kind(s, broker)).unwrap()
}

fn uri(s: &str) -> UriParts {
    let u: hyper::Uri = s.parse().unwrap();
    UriParts {
        scheme: u.scheme_str().map(|x| x.to_string()),
        authority: u.authority().map(|a| Authority::parse(a.as_str()).unwrap()),
        path: u.path().to_string(),
        path_and_query: u.clone().into_parts().path_and_query.map(|p| p.as_str().to_string()),
    }
}

fn local_mapping_from_json(text: &str, broker: &str) -> LocalMapping {
    let value: serde_json::Value = serde_json::from_str(text).unwrap();
    let mut entries = Vec::new();
    for e in value.as_array().unwrap() {
        let allowed: Vec<(String, Option<IdKind>)> = e["allowed"]
            .as_array()
            .unwrap()
            .iter()
            .map(|a| {
                let s = a.as_str().unwrap();
                (s.to_string(), beam_id_kind(s, broker))
            })
            .collect();
        entries.push(
            LocalMappingEntry::from_parts(
                e["external"].as_str().unwrap(),
                e["internal"].as_str().unwrap(),
                &allowed,
                e.get("forceHttps").and_then(|v| v.as_bool()).unwrap_or(false),
                e.get("resetHost").and_then(|v| v.as_bool()).unwrap_or(false),
                e.get("externalPathRegex").and_then(|v| v.as_str()),
            )
            .unwrap(),
        );
    }
    LocalMapping { entries }
}

#[test]
fn allow_list_entry_glob() {
    let broker = "broker.ccp-it.dktk.dkfz.de";
    let a = allow_entry("*.broker.ccp-it.dktk.dkfz.de", broker);
    let b = allow_entry("a.broker.ccp-it.dktk.dkfz.de", broker);
    let c = allow_entry("a.a.broker.ccp-it.dktk.dkfz.de", broker);
    let AllowListEntry::Glob(glob) = a else {
        panic!("a is not a glob pattern")
    };
    assert!(glob.matches("asdf.broker.ccp-it.dktk.dkfz.de"));
    assert!(!glob.matches("asdf.broker"));
    assert!(matches!(b, AllowListEntry::AppOrProxyId(AppOrProxyId::Proxy(..))));
    assert!(matches!(c, AllowListEntry::AppOrProxyId(AppOrProxyId::App(..))));
}

#[test]
fn serde_authority() {
    let serialized = r#"{
        "sites": [
          {
            "id": "UKT",
            "name": "Tübingen",
            "virtualhost": "ukt.virtual",
            "beamconnect": "connect.ukt-proxy.broker.ccp-it.dktk.dkfz.de"
          },
          {
            "id": "UKFR",
            "name": "Freiburg",
            "virtualhost": "ukfr.virtual",
            "beamconnect": "connect.ukfr-proxy.broker.ccp-it.dktk.dkfz.de"
          },
          {
            "id": "UKHD",
            "name": "Heidelberg",
            "virtualhost": "ukhd.virtual",
            "beamconnect": "connect.ukhd-proxy.broker.ccp-it.dktk.dkfz.de"
          },
          {
            "id": "UKU",
            "name": "Ulm",
            "virtualhost": "uku.virtual",
            "beamconnect": "connect.uku-proxy.broker.ccp-it.dktk.dkfz.de"
          }
        ]
      }"#;
    let value: serde_json::Value = serde_json::from_str(serialized).unwrap();
    let sites: Vec<Site> = value["sites"]
        .as_array()
        .unwrap()
        .iter()
        .map(|s| {
            Site::new(
                s["id"].as_str().unwrap().to_string(),
                s["name"].as_str().unwrap().to_string(),
                s["virtualhost"].as_str().unwrap(),
                s.get("remapVhost").and_then(|v| v.as_str()),
                AppId::new_unchecked(s["beamconnect"].as_str().unwrap().to_string()),
            )
            .unwrap()
        })
        .collect();
    let obj = CentralMapping { sites };
    assert_eq!(obj.sites.len(), 4);
    let mut routes = obj.sites.iter();

    let site = routes.next().unwrap();
    assert_eq!(site.virtualhost.as_str(), "ukt.virtual");
    assert_eq!(site.beamconnect.as_str(), "connect.ukt-proxy.broker.ccp-it.dktk.dkfz.de");

    let site = routes.next().unwrap();
    assert!(site.virtualhost.matches_str("ukfr.virtual"));
    assert_eq!(site.beamconnect.as_str(), "connect.ukfr-proxy.broker.ccp-it.dktk.dkfz.de");
}

#[test]
fn local_target_configuration() {
    let broker_id = "broker.ccp-it.dktk.dkfz.de";
    let serialized = r#"[
        {"external": "ifconfig.me","internal":"ifconfig.me/asdf","allowed":["connect1.proxy23.broker.ccp-it.dktk.dkfz.de","connect2.proxy23.broker.ccp-it.dktk.dkfz.de"]},
        {"external": "ip-api.com","internal":"ip-api.com","allowed":["connect1.proxy23.broker.ccp-it.dktk.dkfz.de","connect2.proxy23.broker.ccp-it.dktk.dkfz.de"]},
        {"external": "wttr.in","internal":"wttr.in","allowed":["connect1.proxy23.broker.ccp-it.dktk.dkfz.de","connect2.proxy23.broker.ccp-it.dktk.dkfz.de"]},
        {"external": "node23.uk12.network","internal":"host23.internal.network","allowed":["proxy23.broker.ccp-it.dktk.dkfz.de"]}
    ]"#;
    let obj = local_mapping_from_json(serialized, broker_id);
    let expect = example_local_checked(broker_id).unwrap();
    assert_eq!(obj.entries.len(), expect.entries.len());
    assert!(obj
        .get(&uri("http://node23.uk12.network"))
        .unwrap()
        .can_be_accessed_by(&AppId::new_unchecked(
            "foobar.proxy23.broker.ccp-it.dktk.dkfz.de".to_string()
        )));

    for (entry, ref_entry) in obj.entries.iter().zip(expect.entries.iter()) {
        assert!(entry.needle.same_as(&ref_entry.needle));
        assert!(entry.replace.same_as(&ref_entry.replace));
        assert_eq!(entry.allowed.len(), ref_entry.allowed.len());
        for (a, b) in entry.allowed.iter().zip(ref_entry.allowed.iter()) {
            match (a, b) {
                (
                    AllowListEntry::AppOrProxyId(AppOrProxyId::App(x)),
                    AllowListEntry::AppOrProxyId(AppOrProxyId::App(y)),
                ) => assert_eq!(x.as_str(), y.as_str()),
                (
                    AllowListEntry::AppOrProxyId(AppOrProxyId::Proxy(x)),
                    AllowListEntry::AppOrProxyId(AppOrProxyId::Proxy(y)),
                ) => assert_eq!(x.as_str(), y.as_str()),
                _ => panic!("allow lists differ"),
            }
        }
    }
}

#[test]
fn replacement_splits_at_first_slash() {
    let r = AuthorityReplacement::parse("ifconfig.me/asdf/x").unwrap();
    assert_eq!(r.authority.as_str(), "ifconfig.me");
    assert_eq!(r.path.as_deref(), Some("asdf/x"));
    let r = AuthorityReplacement::parse("host:8080").unwrap();
    assert_eq!(r.authority.as_str(), "host:8080");
    assert_eq!(r.path, None);
    assert_eq!(
        AuthorityReplacement::parse("/only-path").unwrap_err(),
        ConfigError::InvalidAuthority(String::new())
    );
    assert_eq!(
        AuthorityReplacement::parse("bad host").unwrap_err(),
        ConfigError::InvalidAuthority("bad host".to_string())
    );
}

#[test]
fn allow_list_rules() {
    let broker = "broker.example";
    let entry = local_mapping_from_json(
        r#"[{"external":"svc.local","internal":"svc.internal","allowed":["app1.proxy1.broker.example","proxy2.broker.example","app?.proxy3.*"]}]"#,
        broker,
    );
    let e = &entry.entries[0];
    let app = |s: &str| AppId::new_unchecked(s.to_string());
    // an application id admits exactly itself
    assert!(e.can_be_accessed_by(&app("app1.proxy1.broker.example")));
    assert!(!e.can_be_accessed_by(&app("app2.proxy1.broker.example")));
    // a proxy id admits every application of that proxy
    assert!(e.can_be_accessed_by(&app("anything.proxy2.broker.example")));
    // a glob admits what it matches
    assert!(e.can_be_accessed_by(&app("app7.proxy3.broker.example")));
    assert!(!e.can_be_accessed_by(&app("app77.proxy3.broker.example")));
    // invalid entries are refused
    assert_eq!(
        AllowListEntry::parse("[", None).unwrap_err(),
        ConfigError::InvalidAllowListEntry("[".to_string())
    );
}

#[test]
fn local_lookup_uses_authority_and_path_regex() {
    let m = local_mapping_from_json(
        r#"[
            {"external":"API.local","internal":"a.internal","allowed":["x.y.b"],"externalPathRegex":"^/v1/"},
            {"external":"api.local","internal":"b.internal/base","allowed":["x.y.b"],"forceHttps":true,"resetHost":true}
        ]"#,
        "b",
    );
    let first = m.get(&uri("http://api.local/v1/items")).unwrap();
    assert_eq!(first.replace.authority.as_str(), "a.internal");
    let second = m.get(&uri("http://api.local/v2/items")).unwrap();
    assert_eq!(second.replace.authority.as_str(), "b.internal");
    assert!(second.force_https && second.reset_host);
    assert!(m.get(&uri("http://other.local/v1/")).is_none());
    assert!(m.get(&uri("/v1/no-authority")).is_none());
}

#[test]
fn central_lookup_ignores_case_and_takes_first() {
    let site = |id: &str, vh: &str, bc: &str| {
        Site::new(id.to_string(), id.to_string(), vh, None, AppId::new_unchecked(bc.to_string()))
            .unwrap()
    };
    let m = CentralMapping {
        sites: vec![
            site("A", "one.virtual", "c.a.b"),
            site("B", "ONE.virtual", "c.b.b"),
            site("C", "two.virtual:8080", "c.c.b"),
        ],
    };
    let q = Authority::parse("One.Virtual").unwrap();
    assert_eq!(m.get(&q).unwrap().id, "A");
    let q = Authority::parse("two.virtual:8080").unwrap();
    assert_eq!(m.get(&q).unwrap().beamconnect.as_str(), "c.c.b");
    let q = Authority::parse("three.virtual").unwrap();
    assert!(m.get(&q).is_none());
    let cloned = m.clone();
    assert_eq!(cloned.sites.len(), 3);
    assert_eq!(cloned.sites[2].virtualhost.as_str(), "two.virtual:8080");
    assert!(Site::new("x".into(), "x".into(), "bad host", None, AppId::new_unchecked("a".into()))
        .is_err());
}

#[test]
fn local_entry_errors_come_in_order() {
    let ok = vec![("a.b.c".to_string(), Some(IdKind::App))];
    assert_eq!(
        LocalMappingEntry::from_parts("bad host", "x", &ok, false, false, None).unwrap_err(),
        ConfigError::InvalidAuthority("bad host".to_string())
    );
    let bad_allow = vec![("[".to_string(), None)];
    assert_eq!(
        LocalMappingEntry::from_parts("h", "x", &bad_allow, false, false, Some("(")).unwrap_err(),
        ConfigError::InvalidAllowListEntry("[".to_string())
    );
    assert_eq!(
        LocalMappingEntry::from_parts("h", "x", &ok, false, false, Some("(")).unwrap_err(),
        ConfigError::InvalidRegex("(".to_string())
    );
}

#[test]
fn example_targets_for_broker() {
    let m = example_local_checked("broker.test").unwrap();
    assert_eq!(m.entries.len(), 4);
    assert_eq!(m.entries[0].needle.as_str(), "ifconfig.me");
    assert_eq!(m.entries[0].replace.path.as_deref(), Some("asdf"));
    assert_eq!(m.entries[3].replace.authority.as_str(), "host23.internal.network");
    match &m.entries[0].allowed[1] {
        AllowListEntry::AppOrProxyId(AppOrProxyId::App(a)) => {
            assert_eq!(a.as_str(), "connect2.proxy23.broker.test")
        }
        _ => panic!("expected an application id"),
    }
    match &m.entries[3].allowed[0] {
        AllowListEntry::AppOrProxyId(AppOrProxyId::Proxy(p)) => {
            assert_eq!(p.as_str(), "proxy23.broker.test")
        }
        _ => panic!("expected a proxy id"),
    }
    assert!(!m.entries[1].can_be_accessed_by(&AppId::new_unchecked("connect3.proxy23.broker.test".into())));
    assert!(m.entries[3].can_be_accessed_by(&AppId::new_unchecked("connect3.proxy23.broker.test".into())));
}
