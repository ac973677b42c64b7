//! The local targets used when no targets file is given.
use vstd::prelude::*;
use crate::config::{
    AllowListEntry, AllowView, AuthorityReplacement, LocalEntryView, LocalMapping,
    LocalMappingEntry, ReplacementView,
};
use crate::ids::{AppId, AppOrProxyId, IdView, ProxyId};
use crate::text::concat;
use crate::uri::{authority_parses, Authority};

verus! {

/// The built-in hosts are all authorities `http` accepts.
pub open spec fn example_hosts_parse() -> bool {
    &&& authority_parses("ifconfig.me"@)
    &&& authority_parses("ip-api.com"@)
    &&& authority_parses("wttr.in"@)
    &&& authority_parses("node23.uk12.network"@)
    &&& authority_parses("host23.internal.network"@)
}

/// The example proxy, `proxy23.<broker>`.
pub open spec fn example_proxy(broker_id: Seq<char>) -> Seq<char> {
    "proxy23."@ + broker_id
}

/// An example application of the example proxy: `prefix` (`<name>.`)
/// followed by the proxy id.
pub open spec fn example_app(prefix: Seq<char>, broker_id: Seq<char>) -> Seq<char> {
    prefix + example_proxy(broker_id)
}

pub open spec fn example_entry(
    needle: Seq<char>,
    authority: Seq<char>,
    path: Option<Seq<char>>,
    allowed: Seq<AllowView>,
) -> LocalEntryView {
    LocalEntryView {
        needle,
        replace: ReplacementView { authority, path },
        allowed,
        force_https: false,
        reset_host: false,
        external_path: None,
    }
}

/// The example targets: three public services for two applications of the
/// example proxy, and one internal host for every application of it.
pub open spec fn example_local_spec(broker_id: Seq<char>) -> Seq<LocalEntryView> {
    let apps = seq![
        AllowView::Id(IdView::App(example_app("connect1."@, broker_id))),
        AllowView::Id(IdView::App(example_app("connect2."@, broker_id))),
    ];
    seq![
        example_entry("ifconfig.me"@, "ifconfig.me"@, Some("asdf"@), apps),
        example_entry("ip-api.com"@, "ip-api.com"@, None, apps),
        example_entry("wttr.in"@, "wttr.in"@, None, apps),
        example_entry(
            "node23.uk12.network"@,
            "host23.internal.network"@,
            None,
            seq![AllowView::Id(IdView::Proxy(example_proxy(broker_id)))],
        ),
    ]
}

fn host(s: &str) -> (r: Authority)
    requires
        authority_parses(s@),
    ensures
        r@ == s@,
{
    Authority::parse(s).unwrap()
}

fn app_entries(a: &AppId, b: &AppId) -> (r: Vec<AllowListEntry>)
    ensures
        r@.map_values(|e: AllowListEntry| e@) == seq![
            AllowView::Id(IdView::App(a@)),
            AllowView::Id(IdView::App(b@)),
        ],
{
    let mut v: Vec<AllowListEntry> = Vec::new();
    v.push(AllowListEntry::AppOrProxyId(AppOrProxyId::App(a.clone())));
    v.push(AllowListEntry::AppOrProxyId(AppOrProxyId::App(b.clone())));
    assert(v@.map_values(|e: AllowListEntry| e@) =~= seq![
        AllowView::Id(IdView::App(a@)),
        AllowView::Id(IdView::App(b@)),
    ]);
    v
}

fn entry(needle: Authority, replace: AuthorityReplacement, allowed: Vec<AllowListEntry>) -> (r:
    LocalMappingEntry)
    ensures
        r@ == example_entry(
            needle@,
            replace@.authority,
            replace@.path,
            allowed@.map_values(|e: AllowListEntry| e@),
        ),
{
    LocalMappingEntry {
        needle,
        replace,
        allowed,
        force_https: false,
        reset_host: false,
        external_path: None,
    }
}

/// The example targets for the broker `broker_id` (see
/// [`example_local_spec`]); `requires` asks that `http` accepts the
/// built-in hosts, which [`example_local_checked`] tests.
pub fn example_local(broker_id: &str) -> (r: LocalMapping)
    requires
        example_hosts_parse(),
    ensures
        r@ == example_local_spec(broker_id@),
{
    let proxy23 = ProxyId::new_unchecked(concat("proxy23.", broker_id));
    let app1 = AppId::new_unchecked(concat("connect1.", proxy23.as_str()));
    let app2 = AppId::new_unchecked(concat("connect2.", proxy23.as_str()));
    assert(app1@ =~= example_app("connect1."@, broker_id@));
    assert(app2@ =~= example_app("connect2."@, broker_id@));
    let mut entries: Vec<LocalMappingEntry> = Vec::new();
    entries.push(
        entry(
            host("ifconfig.me"),
            AuthorityReplacement { authority: host("ifconfig.me"), path: Some("asdf".to_owned()) },
            app_entries(&app1, &app2),
        ),
    );
    entries.push(
        entry(
            host("ip-api.com"),
            AuthorityReplacement::from_authority(host("ip-api.com")),
            app_entries(&app1, &app2),
        ),
    );
    entries.push(
        entry(
            host("wttr.in"),
            AuthorityReplacement::from_authority(host("wttr.in")),
            app_entries(&app1, &app2),
        ),
    );
    let mut proxy_only: Vec<AllowListEntry> = Vec::new();
    proxy_only.push(AllowListEntry::AppOrProxyId(AppOrProxyId::Proxy(proxy23)));
    assert(proxy_only@.map_values(|e: AllowListEntry| e@) =~= seq![
        AllowView::Id(IdView::Proxy(example_proxy(broker_id@))),
    ]);
    entries.push(
        entry(
            host("node23.uk12.network"),
            AuthorityReplacement::from_authority(host("host23.internal.network")),
            proxy_only,
        ),
    );
    let m = LocalMapping { entries };
    assert(m@ =~= example_local_spec(broker_id@));
    m
}

/// The example targets, where `http` accepts the built-in hosts (it does;
/// `None` would report otherwise).
pub fn example_local_checked(broker_id: &str) -> (r: Option<LocalMapping>)
    ensures
        r is Some <==> example_hosts_parse(),
        r matches Some(m) ==> m@ == example_local_spec(broker_id@),
{
    if Authority::parse("ifconfig.me").is_some() && Authority::parse("ip-api.com").is_some()
        && Authority::parse("wttr.in").is_some() && Authority::parse("node23.uk12.network").is_some()
        && Authority::parse("host23.internal.network").is_some() {
        Some(example_local(broker_id))
    } else {
        None
    }
}

} // verus!
