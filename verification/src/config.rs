//! Routing tables: the central site discovery (virtual host to remote
//! connector) and the local targets (virtual host to internal host, with who
//! may reach it).
use vstd::prelude::*;
use crate::ids::{AppId, AppOrProxyId, IdKind, IdView, ProxyId};
use crate::patterns::{
    glob_compiles, glob_matches, regex_compiles, regex_matches, GlobPattern, RegexPattern,
};
use crate::errors::BeamConnectError;
use crate::text::{
    concat, eq_ignore_ascii_case, first_index_of, has_suffix,
    lemma_eq_ignore_ascii_case_equivalence, opt_str, opt_string, split_once_spec,
};
use crate::uri::{authority_parses, Authority, UriParts, UriView};

verus! {

/// Why a routing table entry was refused.
#[derive(Debug, PartialEq, Eq)]
pub enum ConfigError {
    /// The text is no valid URI authority.
    InvalidAuthority(String),
    /// The text is neither an application or proxy id nor a glob pattern.
    InvalidAllowListEntry(String),
    /// Only one of the TLS certificate and key was given.
    IncompleteTlsIdentity,
    /// The text is no regular expression.
    InvalidRegex(String),
}

// ---------------------------------------------------------------------------
// Central site discovery
/// A remote site: requests for `virtualhost` go to the connector `beamconnect`.
#[derive(Debug)]
pub struct Site {
    pub id: String,
    pub name: String,
    pub virtualhost: Authority,
    pub remap_vhost: Option<Authority>,
    pub beamconnect: AppId,
}

pub struct SiteView {
    pub id: Seq<char>,
    pub name: Seq<char>,
    pub virtualhost: Seq<char>,
    pub remap_vhost: Option<Seq<char>>,
    pub beamconnect: Seq<char>,
}

impl View for Site {
    type V = SiteView;

    open spec fn view(&self) -> SiteView {
        SiteView {
            id: self.id@,
            name: self.name@,
            virtualhost: self.virtualhost@,
            remap_vhost: match self.remap_vhost {
                Some(a) => Some(a@),
                None => None,
            },
            beamconnect: self.beamconnect@,
        }
    }
}

impl Clone for Site {
    fn clone(&self) -> (r: Self)
        ensures
            r@ == self@,
    {
        Site {
            id: self.id.clone(),
            name: self.name.clone(),
            virtualhost: self.virtualhost.clone(),
            remap_vhost: match &self.remap_vhost {
                Some(a) => Some(a.clone()),
                None => None,
            },
            beamconnect: self.beamconnect.clone(),
        }
    }
}

impl Site {
    /// Reads a site: the virtual host (and the optional host to present
    /// instead) must be authorities.
    pub fn new(
        id: String,
        name: String,
        virtualhost: &str,
        remap_vhost: Option<&str>,
        beamconnect: AppId,
    ) -> (r: Result<Site, ConfigError>)
        ensures
            r matches Ok(site) ==> site@ == (SiteView {
                id: id@,
                name: name@,
                virtualhost: virtualhost@,
                remap_vhost: opt_str(remap_vhost),
                beamconnect: beamconnect@,
            }),
            r is Ok <==> (authority_parses(virtualhost@) && (remap_vhost matches Some(h)
                ==> authority_parses(h@))),
            !authority_parses(virtualhost@) ==> (r matches Err(ConfigError::InvalidAuthority(t))
                && t@ == virtualhost@),
            authority_parses(virtualhost@) ==> (remap_vhost matches Some(h) ==> (!authority_parses(
                h@,
            ) ==> (r matches Err(ConfigError::InvalidAuthority(t)) && t@ == h@))),
    {
        let vh = match Authority::parse(virtualhost) {
            Some(a) => a,
            None => {
                return Err(ConfigError::InvalidAuthority(virtualhost.to_owned()));
            },
        };
        let remap = match remap_vhost {
            Some(h) => match Authority::parse(h) {
                Some(a) => Some(a),
                None => {
                    return Err(ConfigError::InvalidAuthority(h.to_owned()));
                },
            },
            None => None,
        };
        Ok(Site { id, name, virtualhost: vh, remap_vhost: remap, beamconnect })
    }
}

/// The central site discovery: every known site.
#[derive(Debug)]
pub struct CentralMapping {
    pub sites: Vec<Site>,
}

impl View for CentralMapping {
    type V = Seq<SiteView>;

    open spec fn view(&self) -> Seq<SiteView> {
        self.sites@.map_values(|s: Site| s@)
    }
}

impl Clone for CentralMapping {
    fn clone(&self) -> (r: Self)
        ensures
            r@ == self@,
    {
        let mut sites: Vec<Site> = Vec::new();
        let mut i: usize = 0;
        while i < self.sites.len()
            invariant
                i <= self.sites@.len(),
                sites@.map_values(|s: Site| s@) == self.sites@.take(i as int).map_values(
                    |s: Site| s@,
                ),
            decreases self.sites@.len() - i,
        {
            sites.push(self.sites[i].clone());
            assert(self.sites@.take(i + 1).map_values(|s: Site| s@) =~= self.sites@.take(
                i as int,
            ).map_values(|s: Site| s@).push(self.sites@[i as int]@));
            assert(sites@.map_values(|s: Site| s@) =~= self.sites@.take(i + 1).map_values(
                |s: Site| s@,
            ));
            i = i + 1;
        }
        assert(self.sites@.take(self.sites@.len() as int) =~= self.sites@);
        CentralMapping { sites }
    }
}

/// Whether `i` is the first site whose virtual host equals `auth`.
pub open spec fn is_first_site_for(sites: Seq<SiteView>, auth: Seq<char>, i: int) -> bool {
    &&& 0 <= i < sites.len()
    &&& eq_ignore_ascii_case(sites[i].virtualhost, auth)
    &&& forall|j: int| 0 <= j < i ==> !eq_ignore_ascii_case(#[trigger] sites[j].virtualhost, auth)
}

/// The site that serves `auth`: the first whose virtual host is `auth`.
pub open spec fn site_for(sites: Seq<SiteView>, auth: Seq<char>) -> Option<SiteView> {
    if exists|i: int| is_first_site_for(sites, auth, i) {
        Some(sites[choose|i: int| is_first_site_for(sites, auth, i)])
    } else {
        None
    }
}

/// There is at most one first site for an authority.
pub proof fn lemma_first_site_unique(sites: Seq<SiteView>, auth: Seq<char>, i: int, j: int)
    requires
        is_first_site_for(sites, auth, i),
        is_first_site_for(sites, auth, j),
    ensures
        i == j,
{
    if i < j {
        assert(!eq_ignore_ascii_case(sites[i].virtualhost, auth));
    } else if j < i {
        assert(!eq_ignore_ascii_case(sites[j].virtualhost, auth));
    }
}

/// Looking a site up ignores ASCII case: two authorities that differ only
/// in case find the same site.
pub proof fn law_site_lookup_ignores_case(sites: Seq<SiteView>, a: Seq<char>, b: Seq<char>)
    requires
        eq_ignore_ascii_case(a, b),
    ensures
        site_for(sites, a) == site_for(sites, b),
{
    assert forall|i: int| 0 <= i < sites.len() implies (eq_ignore_ascii_case(
        #[trigger] sites[i].virtualhost,
        a,
    ) <==> eq_ignore_ascii_case(sites[i].virtualhost, b)) by {
        lemma_eq_ignore_ascii_case_equivalence(sites[i].virtualhost, a, b);
        lemma_eq_ignore_ascii_case_equivalence(a, b, sites[i].virtualhost);
        lemma_eq_ignore_ascii_case_equivalence(sites[i].virtualhost, b, a);
        lemma_eq_ignore_ascii_case_equivalence(b, a, sites[i].virtualhost);
    }
    assert forall|i: int| is_first_site_for(sites, a, i) <==> is_first_site_for(sites, b, i) by {
        if 0 <= i < sites.len() {
            assert(eq_ignore_ascii_case(sites[i].virtualhost, a) <==> eq_ignore_ascii_case(
                sites[i].virtualhost,
                b,
            ));
        }
    }
    if exists|i: int| is_first_site_for(sites, a, i) {
        let ia = choose|i: int| is_first_site_for(sites, a, i);
        let ib = choose|i: int| is_first_site_for(sites, b, i);
        assert(is_first_site_for(sites, b, ia));
        lemma_first_site_unique(sites, b, ia, ib);
    }
}

impl CentralMapping {
    /// The first site whose virtual host is `auth` (ignoring ASCII case).
    pub fn get(&self, auth: &Authority) -> (r: Option<&Site>)
        ensures
            r matches Some(site) ==> exists|i: int|
                is_first_site_for(self@, auth@, i) && site@ == #[trigger] self@[i],
            r is None ==> forall|i: int|
                0 <= i < self@.len() ==> !eq_ignore_ascii_case(#[trigger] self@[i].virtualhost, auth@),
            r matches Some(site) ==> site_for(self@, auth@) == Some(site@),
            r is None ==> site_for(self@, auth@) is None,
    {
        let mut i: usize = 0;
        while i < self.sites.len()
            invariant
                i <= self.sites@.len(),
                forall|j: int|
                    0 <= j < i ==> !eq_ignore_ascii_case(
                        #[trigger] self@[j].virtualhost,
                        auth@,
                    ),
            decreases self.sites@.len() - i,
        {
            if self.sites[i].virtualhost.same_as(auth) {
                assert(is_first_site_for(self@, auth@, i as int));
                proof {
                    let k = choose|k: int| is_first_site_for(self@, auth@, k);
                    lemma_first_site_unique(self@, auth@, i as int, k);
                }
                return Some(&self.sites[i]);
            }
            i = i + 1;
        }
        None
    }
}

// ---------------------------------------------------------------------------
// Local targets
/// Where a local target's requests go: an authority and an optional path prefix.
#[derive(Debug)]
pub struct AuthorityReplacement {
    pub authority: Authority,
    pub path: Option<String>,
}

pub struct ReplacementView {
    pub authority: Seq<char>,
    pub path: Option<Seq<char>>,
}

impl View for AuthorityReplacement {
    type V = ReplacementView;

    open spec fn view(&self) -> ReplacementView {
        ReplacementView { authority: self.authority@, path: opt_string(self.path) }
    }
}

impl Clone for AuthorityReplacement {
    fn clone(&self) -> (r: Self)
        ensures
            r@ == self@,
    {
        AuthorityReplacement {
            authority: self.authority.clone(),
            path: match &self.path {
                Some(p) => Some(p.clone()),
                None => None,
            },
        }
    }
}

/// What `"host[:port][/path]"` means as a replacement: the text before the
/// first `/` is the authority, the text after it the path; `None` where the
/// authority is refused.
pub open spec fn replacement_spec(s: Seq<char>) -> Option<ReplacementView> {
    match split_once_spec(s, '/') {
        Some((auth, path)) => if authority_parses(auth) {
            Some(ReplacementView { authority: auth, path: Some(path) })
        } else {
            None
        },
        None => if authority_parses(s) {
            Some(ReplacementView { authority: s, path: None })
        } else {
            None
        },
    }
}

impl AuthorityReplacement {
    /// A replacement without a path.
    pub fn from_authority(authority: Authority) -> (r: AuthorityReplacement)
        ensures
            r@ == (ReplacementView { authority: authority@, path: None }),
    {
        AuthorityReplacement { authority, path: None }
    }

    /// Reads `"host[:port][/path]"`.
    pub fn parse(s: &str) -> (r: Result<AuthorityReplacement, ConfigError>)
        ensures
            r matches Ok(rep) ==> replacement_spec(s@) == Some(rep@),
            r is Err ==> replacement_spec(s@) is None,
            r is Err ==> (r matches Err(ConfigError::InvalidAuthority(t)) && t@ == (match split_once_spec(
                s@,
                '/',
            ) {
                Some((a, _)) => a,
                None => s@,
            })),
    {
        match crate::text::split_once(s, '/') {
            Some((auth, path)) => match Authority::parse(auth.as_str()) {
                Some(a) => Ok(AuthorityReplacement { authority: a, path: Some(path) }),
                None => Err(ConfigError::InvalidAuthority(auth)),
            },
            None => match Authority::parse(s) {
                Some(a) => Ok(AuthorityReplacement { authority: a, path: None }),
                None => Err(ConfigError::InvalidAuthority(s.to_owned())),
            },
        }
    }

    /// Whether both replacements name the same authority (ignoring ASCII
    /// case) and the same path.
    pub fn same_as(&self, other: &AuthorityReplacement) -> (r: bool)
        ensures
            r == (eq_ignore_ascii_case(self@.authority, other@.authority) && self@.path
                == other@.path),
    {
        if !self.authority.same_as(&other.authority) {
            return false;
        }
        match (&self.path, &other.path) {
            (Some(a), Some(b)) => *a == *b,
            (None, None) => true,
            _ => false,
        }
    }
}

/// One entry of a target's allow list.
#[derive(Debug)]
pub enum AllowListEntry {
    Glob(GlobPattern),
    AppOrProxyId(AppOrProxyId),
}

pub enum AllowView {
    Glob(Seq<char>),
    Id(IdView),
}

impl View for AllowListEntry {
    type V = AllowView;

    open spec fn view(&self) -> AllowView {
        match self {
            AllowListEntry::Glob(g) => AllowView::Glob(g@),
            AllowListEntry::AppOrProxyId(id) => AllowView::Id(id@),
        }
    }
}

/// What an allow list text means, given what the broker's id rules made of
/// it: an id where they accept it, else a glob pattern where `glob` accepts
/// it, else nothing.
pub open spec fn allow_entry_spec(s: Seq<char>, kind: Option<IdKind>) -> Option<AllowView> {
    match kind {
        Some(IdKind::App) => Some(AllowView::Id(IdView::App(s))),
        Some(IdKind::Proxy) => Some(AllowView::Id(IdView::Proxy(s))),
        None => if glob_compiles(s) {
            Some(AllowView::Glob(s))
        } else {
            None
        },
    }
}

/// Whether one allow list entry admits the application `who`: an application
/// id admits itself, a proxy id every application whose id ends with it, a
/// glob pattern every id it matches.
pub open spec fn entry_admits(e: AllowView, who: Seq<char>) -> bool {
    match e {
        AllowView::Id(IdView::App(app)) => app == who,
        AllowView::Id(IdView::Proxy(proxy)) => has_suffix(who, proxy),
        AllowView::Glob(g) => glob_matches(g, who),
    }
}

/// Whether some entry of the allow list admits `who`.
pub open spec fn allow_list_admits(allowed: Seq<AllowView>, who: Seq<char>) -> bool {
    exists|i: int| 0 <= i < allowed.len() && entry_admits(#[trigger] allowed[i], who)
}

/// A proxy id in an allow list admits every application of that proxy (every
/// id that ends with the proxy's id), and an application id admits that
/// application.
pub proof fn law_allow_list_ids(allowed: Seq<AllowView>, i: int, who: Seq<char>)
    requires
        0 <= i < allowed.len(),
        (allowed[i] matches AllowView::Id(IdView::Proxy(p)) && has_suffix(who, p))
            || allowed[i] == AllowView::Id(IdView::App(who)),
    ensures
        allow_list_admits(allowed, who),
{
    assert(entry_admits(allowed[i], who));
}

impl AllowListEntry {
    /// Reads an allow list entry. `kind` is what the broker's id rules made of
    /// `s` (`None` where they refused it as an application or proxy id).
    pub fn parse(s: &str, kind: Option<IdKind>) -> (r: Result<AllowListEntry, ConfigError>)
        ensures
            r matches Ok(e) ==> allow_entry_spec(s@, kind) == Some(e@),
            r is Err ==> allow_entry_spec(s@, kind) is None,
            r is Err ==> (r matches Err(ConfigError::InvalidAllowListEntry(t)) && t@ == s@),
    {
        match kind {
            Some(k) => Ok(AllowListEntry::AppOrProxyId(AppOrProxyId::of_kind(k, s))),
            None => match GlobPattern::new(s) {
                Some(g) => Ok(AllowListEntry::Glob(g)),
                None => Err(ConfigError::InvalidAllowListEntry(s.to_owned())),
            },
        }
    }

    /// Whether this entry admits the application `who`.
    pub fn admits(&self, who: &AppId) -> (r: bool)
        ensures
            r == entry_admits(self@, who@),
    {
        match self {
            AllowListEntry::AppOrProxyId(AppOrProxyId::App(app)) => app.same_as(who),
            AllowListEntry::AppOrProxyId(AppOrProxyId::Proxy(proxy)) => crate::text::ends_with(
                who.as_str(),
                proxy.as_str(),
            ),
            AllowListEntry::Glob(glob) => glob.matches(who.as_str()),
        }
    }
}

/// A local target: requests for `needle` (whose path matches
/// `external_path`, where given) go to `replace`, for the applications that
/// `allowed` admits.
#[derive(Debug)]
pub struct LocalMappingEntry {
    pub needle: Authority,
    pub replace: AuthorityReplacement,
    pub allowed: Vec<AllowListEntry>,
    pub force_https: bool,
    pub reset_host: bool,
    pub external_path: Option<RegexPattern>,
}

pub struct LocalEntryView {
    pub needle: Seq<char>,
    pub replace: ReplacementView,
    pub allowed: Seq<AllowView>,
    pub force_https: bool,
    pub reset_host: bool,
    pub external_path: Option<Seq<char>>,
}

impl View for LocalMappingEntry {
    type V = LocalEntryView;

    open spec fn view(&self) -> LocalEntryView {
        LocalEntryView {
            needle: self.needle@,
            replace: self.replace@,
            allowed: self.allowed@.map_values(|e: AllowListEntry| e@),
            force_https: self.force_https,
            reset_host: self.reset_host,
            external_path: match self.external_path {
                Some(p) => Some(p@),
                None => None,
            },
        }
    }
}

/// Whether every allow list text is readable, given what the broker's id
/// rules made of it.
pub open spec fn allow_texts_ok(allowed: Seq<(String, Option<IdKind>)>) -> bool {
    forall|i: int| 0 <= i < allowed.len() ==> (#[trigger] allow_entry_spec(allowed[i].0@, allowed[i].1)) is Some
}

/// The allow list read from its texts.
pub open spec fn allow_texts_view(allowed: Seq<(String, Option<IdKind>)>) -> Seq<AllowView> {
    allowed.map_values(|a: (String, Option<IdKind>)| allow_entry_spec(a.0@, a.1)->Some_0)
}

impl LocalMappingEntry {
    /// Reads a local target: `external` must be an authority, `internal` a
    /// replacement, every allow list text an id or a glob pattern, and the
    /// path expression (where given) a regular expression; failures are
    /// reported in that order.
    pub fn from_parts(
        external: &str,
        internal: &str,
        allowed: &Vec<(String, Option<IdKind>)>,
        force_https: bool,
        reset_host: bool,
        external_path: Option<&str>,
    ) -> (r: Result<LocalMappingEntry, ConfigError>)
        ensures
            r is Ok <==> (authority_parses(external@) && replacement_spec(internal@) is Some
                && allow_texts_ok(allowed@) && (external_path matches Some(p) ==> regex_compiles(
                p@,
            ))),
            r matches Ok(e) ==> e@ == (LocalEntryView {
                needle: external@,
                replace: replacement_spec(internal@)->Some_0,
                allowed: allow_texts_view(allowed@),
                force_https,
                reset_host,
                external_path: opt_str(external_path),
            }),
            !authority_parses(external@) ==> (r matches Err(ConfigError::InvalidAuthority(t))
                && t@ == external@),
            (authority_parses(external@) && replacement_spec(internal@) is None) ==> (r matches Err(
                ConfigError::InvalidAuthority(t),
            ) && t@ == (match split_once_spec(internal@, '/') {
                Some((a, _)) => a,
                None => internal@,
            })),
            (authority_parses(external@) && replacement_spec(internal@) is Some && !allow_texts_ok(
                allowed@,
            )) ==> (r matches Err(ConfigError::InvalidAllowListEntry(t)) && exists|i: int|
                0 <= i < allowed@.len() && t@ == allowed@[i].0@ && allow_entry_spec(
                    allowed@[i].0@,
                    allowed@[i].1,
                ) is None && forall|k: int|
                    0 <= k < i ==> (#[trigger] allow_entry_spec(allowed@[k].0@, allowed@[k].1)) is Some),
            (authority_parses(external@) && replacement_spec(internal@) is Some && allow_texts_ok(
                allowed@,
            )) ==> (external_path matches Some(p) ==> (!regex_compiles(p@) ==> (r matches Err(
                ConfigError::InvalidRegex(t),
            ) && t@ == p@))),
    {
        let needle = match Authority::parse(external) {
            Some(a) => a,
            None => {
                return Err(ConfigError::InvalidAuthority(external.to_owned()));
            },
        };
        let replace = match AuthorityReplacement::parse(internal) {
            Ok(rep) => rep,
            Err(e) => {
                return Err(e);
            },
        };
        let mut entries: Vec<AllowListEntry> = Vec::new();
        let mut i: usize = 0;
        while i < allowed.len()
            invariant
                i <= allowed@.len(),
                authority_parses(external@),
                replacement_spec(internal@) is Some,
                entries@.map_values(|e: AllowListEntry| e@) == allow_texts_view(allowed@.take(
                    i as int,
                )),
                forall|k: int|
                    0 <= k < i ==> (#[trigger] allow_entry_spec(allowed@[k].0@, allowed@[k].1)) is Some,
            decreases allowed@.len() - i,
        {
            let (text, kind) = &allowed[i];
            match AllowListEntry::parse(text.as_str(), *kind) {
                Ok(e) => {
                    entries.push(e);
                    assert(allowed@.take(i + 1) =~= allowed@.take(i as int).push(allowed@[i as int]));
                    assert(allow_texts_view(allowed@.take(i + 1)) =~= allow_texts_view(
                        allowed@.take(i as int),
                    ).push(allow_entry_spec(allowed@[i as int].0@, allowed@[i as int].1)->Some_0));
                },
                Err(err) => {
                    assert(!allow_texts_ok(allowed@));
                    assert(allowed@[i as int].0@ == text@);
                    return Err(err);
                },
            }
            assert(entries@.map_values(|e: AllowListEntry| e@) =~= allow_texts_view(allowed@.take(
                i + 1,
            )));
            i = i + 1;
        }
        assert(allowed@.take(allowed@.len() as int) =~= allowed@);
        let regex = match external_path {
            Some(p) => match RegexPattern::new(p) {
                Some(re) => Some(re),
                None => {
                    return Err(ConfigError::InvalidRegex(p.to_owned()));
                },
            },
            None => None,
        };
        Ok(
            LocalMappingEntry {
                needle,
                replace,
                allowed: entries,
                force_https,
                reset_host,
                external_path: regex,
            },
        )
    }

    /// Whether the application `who` may reach this target: some entry of
    /// the allow list admits it.
    pub fn can_be_accessed_by(&self, who: &AppId) -> (r: bool)
        ensures
            r == allow_list_admits(self@.allowed, who@),
    {
        let mut i: usize = 0;
        while i < self.allowed.len()
            invariant
                i <= self.allowed@.len(),
                forall|j: int| 0 <= j < i ==> !entry_admits(#[trigger] self@.allowed[j], who@),
            decreases self.allowed@.len() - i,
        {
            if self.allowed[i].admits(who) {
                assert(entry_admits(self@.allowed[i as int], who@));
                return true;
            }
            i = i + 1;
        }
        false
    }
}

/// Whether the local target `e` serves the request URI `uri`: the URI has
/// the target's authority, and its path matches the target's path
/// expression where there is one.
pub open spec fn local_entry_serves(e: LocalEntryView, uri: UriView) -> bool {
    &&& uri.authority matches Some(a) && eq_ignore_ascii_case(e.needle, a)
    &&& match e.external_path {
        Some(re) => regex_matches(re, uri.path),
        None => true,
    }
}

/// Whether `i` is the first entry that serves `uri`.
pub open spec fn is_first_entry_for(entries: Seq<LocalEntryView>, uri: UriView, i: int) -> bool {
    &&& 0 <= i < entries.len()
    &&& local_entry_serves(entries[i], uri)
    &&& forall|j: int| 0 <= j < i ==> !local_entry_serves(#[trigger] entries[j], uri)
}

/// The local target that serves `uri`: the first entry that does.
pub open spec fn local_entry_for(entries: Seq<LocalEntryView>, uri: UriView) -> Option<LocalEntryView> {
    if exists|i: int| is_first_entry_for(entries, uri, i) {
        Some(entries[choose|i: int| is_first_entry_for(entries, uri, i)])
    } else {
        None
    }
}

/// Which local target serves a URI depends on its authority and its path
/// alone, never on its scheme or its query: two URIs with the same authority
/// and path find the same target.
pub proof fn law_local_entry_ignores_query(entries: Seq<LocalEntryView>, u1: UriView, u2: UriView)
    requires
        u1.authority == u2.authority,
        u1.path == u2.path,
    ensures
        local_entry_for(entries, u1) == local_entry_for(entries, u2),
{
    assert forall|i: int| #[trigger] is_first_entry_for(entries, u1, i) == is_first_entry_for(
        entries,
        u2,
        i,
    ) by {
        assert forall|j: int| 0 <= j < entries.len() implies local_entry_serves(entries[j], u1)
            == local_entry_serves(entries[j], u2) by {}
    }
    if exists|i: int| is_first_entry_for(entries, u1, i) {
        let i1 = choose|i: int| is_first_entry_for(entries, u1, i);
        assert(is_first_entry_for(entries, u2, i1));
        let i2 = choose|i: int| is_first_entry_for(entries, u2, i);
        lemma_first_entry_unique(entries, u2, i1, i2);
        assert(local_entry_for(entries, u1) == Some(entries[i1]));
        assert(local_entry_for(entries, u2) == Some(entries[i2]));
    } else {
        assert forall|i: int| !is_first_entry_for(entries, u2, i) by {
            if is_first_entry_for(entries, u2, i) {
                assert(is_first_entry_for(entries, u1, i));
            }
        }
    }
}

/// The local target found for a URI serves it, and no earlier entry does;
/// where none is found, no entry serves it.
pub proof fn law_local_entry_is_first_serving(entries: Seq<LocalEntryView>, uri: UriView)
    ensures
        local_entry_for(entries, uri) matches Some(e) ==> exists|i: int|
            0 <= i < entries.len() && entries[i] == e && local_entry_serves(e, uri) && forall|j: int|
                0 <= j < i ==> !local_entry_serves(#[trigger] entries[j], uri),
        local_entry_for(entries, uri) is None ==> forall|i: int|
            0 <= i < entries.len() ==> !local_entry_serves(#[trigger] entries[i], uri),
{
    if local_entry_for(entries, uri) is None {
        assert forall|i: int| 0 <= i < entries.len() implies !local_entry_serves(
            #[trigger] entries[i],
            uri,
        ) by {
            if local_entry_serves(entries[i], uri) {
                let k = first_serving(entries, uri, i);
                assert(is_first_entry_for(entries, uri, k));
            }
        }
    } else {
        let i = choose|i: int| is_first_entry_for(entries, uri, i);
        assert(entries[i] == local_entry_for(entries, uri)->0);
    }
}

/// Some first serving entry at or before `i`, which serves `uri`.
proof fn first_serving(entries: Seq<LocalEntryView>, uri: UriView, i: int) -> (k: int)
    requires
        0 <= i < entries.len(),
        local_entry_serves(entries[i], uri),
    ensures
        is_first_entry_for(entries, uri, k),
    decreases i,
{
    if exists|j: int| 0 <= j < i && local_entry_serves(#[trigger] entries[j], uri) {
        let j = choose|j: int| 0 <= j < i && local_entry_serves(#[trigger] entries[j], uri);
        first_serving(entries, uri, j)
    } else {
        i
    }
}

/// There is at most one first entry for a URI.
pub proof fn lemma_first_entry_unique(entries: Seq<LocalEntryView>, uri: UriView, i: int, j: int)
    requires
        is_first_entry_for(entries, uri, i),
        is_first_entry_for(entries, uri, j),
    ensures
        i == j,
{
    if i < j {
        assert(!local_entry_serves(entries[i], uri));
    } else if j < i {
        assert(!local_entry_serves(entries[j], uri));
    }
}

/// The local targets.
#[derive(Debug)]
pub struct LocalMapping {
    pub entries: Vec<LocalMappingEntry>,
}

impl View for LocalMapping {
    type V = Seq<LocalEntryView>;

    open spec fn view(&self) -> Seq<LocalEntryView> {
        self.entries@.map_values(|e: LocalMappingEntry| e@)
    }
}

impl LocalMapping {
    /// The first local target that serves `uri`.
    pub fn get(&self, uri: &UriParts) -> (r: Option<&LocalMappingEntry>)
        ensures
            r matches Some(e) ==> exists|i: int|
                is_first_entry_for(self@, uri@, i) && e@ == #[trigger] self@[i],
            r is None ==> forall|i: int|
                0 <= i < self@.len() ==> !local_entry_serves(#[trigger] self@[i], uri@),
            r matches Some(e) ==> local_entry_for(self@, uri@) == Some(e@),
            r is None ==> local_entry_for(self@, uri@) is None,
    {
        let mut i: usize = 0;
        while i < self.entries.len()
            invariant
                i <= self.entries@.len(),
                forall|j: int| 0 <= j < i ==> !local_entry_serves(#[trigger] self@[j], uri@),
            decreases self.entries@.len() - i,
        {
            let e = &self.entries[i];
            let host_ok = match &uri.authority {
                Some(a) => e.needle.same_as(a),
                None => false,
            };
            let path_ok = match &e.external_path {
                Some(re) => re.is_match(uri.path.as_str()),
                None => true,
            };
            if host_ok && path_ok {
                assert(local_entry_serves(self@[i as int], uri@));
                assert(is_first_entry_for(self@, uri@, i as int));
                proof {
                    let k = choose|k: int| is_first_entry_for(self@, uri@, k);
                    lemma_first_entry_unique(self@, uri@, i as int, k);
                }
                return Some(e);
            }
            assert(!local_entry_serves(self@[i as int], uri@));
            i = i + 1;
        }
        None
    }
}

// ---------------------------------------------------------------------------
// Start-up settings
/// The broker's id as the relay derives it from its own application id:
/// what follows the second `.` (or the first, where there is only one; the
/// whole id where there is none), as `splitn(3, '.').last()`.
pub open spec fn broker_id_spec(app_id: Seq<char>) -> Seq<char> {
    match first_index_of(app_id, '.') {
        None => app_id,
        Some(i) => {
            let rest = app_id.subrange(i + 1, app_id.len() as int);
            match first_index_of(rest, '.') {
                None => rest,
                Some(j) => rest.subrange(j + 1, rest.len() as int),
            }
        },
    }
}

proof fn lemma_first_index_at(s: Seq<char>, c: char, i: int)
    requires
        0 <= i < s.len(),
        s[i] == c,
        forall|k: int| 0 <= k < i ==> s[k] != c,
    ensures
        first_index_of(s, c) == Some(i),
{
    crate::text::lemma_first_index_of(s, c);
    match first_index_of(s, c) {
        Some(j) => {
            if j < i {
                assert(s[j] != c);
            }
        },
        None => {
            assert(s[i] != c);
        },
    }
}

/// The broker's id is what follows the second `.` of an application id
/// `<app>.<proxy>.<broker>`, whatever the broker's id holds; an id with one
/// `.` gives what follows it, and one without any gives itself.
pub proof fn law_broker_id_after_second_dot(app: Seq<char>, proxy: Seq<char>, broker: Seq<char>)
    requires
        !app.contains('.'),
        !proxy.contains('.'),
    ensures
        broker_id_spec(app + seq!['.'] + proxy + seq!['.'] + broker) == broker,
        broker_id_spec(app + seq!['.'] + proxy) == proxy,
        broker_id_spec(app) == app,
{
    let short = app + seq!['.'] + proxy;
    assert forall|k: int| 0 <= k < app.len() implies short[k] != '.' by {
        assert(short[k] == app[k]);
    }
    lemma_first_index_at(short, '.', app.len() as int);
    let tail = short.subrange(app.len() as int + 1, short.len() as int);
    assert(tail =~= proxy);
    crate::text::lemma_first_index_of(proxy, '.');
    crate::text::lemma_first_index_of(app, '.');
    if first_index_of(proxy, '.') is Some {
        let j = first_index_of(proxy, '.')->0;
        assert(proxy.contains(proxy[j]));
    }
    if first_index_of(app, '.') is Some {
        let j = first_index_of(app, '.')->0;
        assert(app.contains(app[j]));
    }
    let id = app + seq!['.'] + proxy + seq!['.'] + broker;
    assert forall|k: int| 0 <= k < app.len() implies id[k] != '.' by {
        assert(id[k] == app[k]);
    }
    lemma_first_index_at(id, '.', app.len() as int);
    let rest = id.subrange(app.len() as int + 1, id.len() as int);
    assert(rest =~= proxy + seq!['.'] + broker);
    assert forall|k: int| 0 <= k < proxy.len() implies rest[k] != '.' by {
        assert(rest[k] == proxy[k]);
    }
    lemma_first_index_at(rest, '.', proxy.len() as int);
    assert(rest.subrange(proxy.len() as int + 1, rest.len() as int) =~= broker);
}

/// Derives the broker's id from the relay's application id.
pub fn broker_id_of(app_id: &str) -> (r: String)
    ensures
        r@ == broker_id_spec(app_id@),
{
    match crate::text::split_once(app_id, '.') {
        None => app_id.to_owned(),
        Some((_, rest)) => match crate::text::split_once(rest.as_str(), '.') {
            None => rest,
            Some((_, tail)) => tail,
        },
    }
}

/// The `Authorization` value with which the relay speaks to its proxy:
/// `ApiKey <app id> <api key>`.
pub open spec fn proxy_auth_spec(app_id: Seq<char>, api_key: Seq<char>) -> Seq<char> {
    seq!['A', 'p', 'i', 'K', 'e', 'y', ' '] + app_id + seq![' '] + api_key
}

/// Builds the `Authorization` value for the proxy.
pub fn proxy_auth(app_id: &AppId, api_key: &str) -> (r: String)
    ensures
        r@ == proxy_auth_spec(app_id@, api_key@),
{
    let prefix = "ApiKey ";
    proof {
        reveal_strlit("ApiKey ");
    }
    let mut s = crate::text::concat(prefix, app_id.as_str());
    s.append(" ");
    proof {
        reveal_strlit(" ");
    }
    s.append(api_key);
    assert(s@ =~= proxy_auth_spec(app_id@, api_key@));
    s
}

/// Drops an empty path, as `Option::filter(|p| !p.is_empty())`.
pub open spec fn non_empty(p: Option<Seq<char>>) -> Option<Seq<char>> {
    match p {
        Some(s) => if s.len() > 0 {
            Some(s)
        } else {
            None
        },
        None => None,
    }
}

/// The certificate and key files for TLS termination: both or neither must
/// be given, an empty path counting as none.
pub fn tls_identity_paths(cert_pem: Option<&str>, cert_key: Option<&str>) -> (r: Result<
    Option<(String, String)>,
    ConfigError,
>)
    ensures
        r matches Ok(Some(p)) ==> non_empty(opt_str(cert_pem)) == Some(p.0@) && non_empty(
            opt_str(cert_key),
        ) == Some(p.1@),
        r matches Ok(None) ==> non_empty(opt_str(cert_pem)) is None && non_empty(
            opt_str(cert_key),
        ) is None,
        r is Err ==> (non_empty(opt_str(cert_pem)) is Some) != (non_empty(opt_str(cert_key)) is Some),
        r matches Err(e) ==> e == ConfigError::IncompleteTlsIdentity,
{
    let pem = match cert_pem {
        Some(p) => if p.is_empty() {
            None
        } else {
            Some(p)
        },
        None => None,
    };
    let key = match cert_key {
        Some(k) => if k.is_empty() {
            None
        } else {
            Some(k)
        },
        None => None,
    };
    match (pem, key) {
        (Some(p), Some(k)) => Ok(Some((p.to_owned(), k.to_owned()))),
        (None, None) => Ok(None),
        _ => Err(ConfigError::IncompleteTlsIdentity),
    }
}

/// What `hyper::Uri::from_str` followed by `Uri::to_string` gives for `s`;
/// `None` where it is no URI.
pub uninterp spec fn uri_text(s: Seq<char>) -> Option<Seq<char>>;

/// Calls `hyper::Uri::from_str` and, on success, `Uri::to_string`. Claims
/// the outcome is `uri_text(s@)`, a function of `s` alone.
#[verifier::external_body]
fn uri_from_str(s: &str) -> (r: Option<String>)
    ensures
        opt_string(r) == uri_text(s@),
{
    s.parse::<hyper::Uri>().ok().map(|u| u.to_string())
}

/// A character that `http` accepts in a URI scheme: ASCII letters and
/// digits, `+`, `-`, `.` and `~`.
pub open spec fn is_scheme_char(c: char) -> bool {
    ('a' <= c && c <= 'z') || ('A' <= c && c <= 'Z') || ('0' <= c && c <= '9') || c == '+' || c
        == '-' || c == '.' || c == '~'
}

/// `s` begins with a scheme as `http` finds one when it parses a URI: the
/// text is longer than three characters, holds only scheme characters before
/// its first `:`, and that `:` is followed by `//`.
pub open spec fn has_scheme(s: Seq<char>) -> bool {
    match first_index_of(s, ':') {
        Some(i) => {
            &&& s.len() > 3
            &&& i + 2 < s.len()
            &&& s[i + 1] == '/'
            &&& s[i + 2] == '/'
            &&& forall|k: int| 0 <= k < i ==> is_scheme_char(#[trigger] s[k])
        },
        None => false,
    }
}

fn scheme_char(c: char) -> (r: bool)
    ensures
        r == is_scheme_char(c),
{
    ('a' <= c && c <= 'z') || ('A' <= c && c <= 'Z') || ('0' <= c && c <= '9') || c == '+' || c
        == '-' || c == '.' || c == '~'
}

/// Whether `s` begins with a scheme and `://`.
pub fn starts_with_scheme(s: &str) -> (r: bool)
    ensures
        r == has_scheme(s@),
{
    let cs = crate::text::chars_of(s);
    match crate::text::find_char(cs.as_slice(), ':') {
        None => false,
        Some(i) => {
            let n = cs.len();
            proof {
                crate::text::lemma_first_index_of(s@, ':');
            }
            if n <= 3 || n - i <= 2 {
                return false;
            }
            if cs[i + 1] != '/' || cs[i + 2] != '/' {
                return false;
            }
            let mut k: usize = 0;
            while k < i
                invariant
                    cs@ == s@,
                    i < cs@.len(),
                    first_index_of(s@, ':') == Some(i as int),
                    k <= i,
                    forall|j: int| 0 <= j < k ==> is_scheme_char(#[trigger] cs@[j]),
                decreases i - k,
            {
                if !scheme_char(cs[k]) {
                    assert(!is_scheme_char(s@[k as int]));
                    return false;
                }
                k = k + 1;
            }
            true
        },
    }
}

/// Where the central site discovery comes from: a file, or a URL to fetch.
#[derive(Debug, PartialEq, Eq)]
pub enum PathOrUri {
    Path(String),
    Uri(String),
}

/// The message for a discovery source that is neither a file nor a URI.
pub open spec fn unusable_source_text(s: Seq<char>) -> Seq<char> {
    "Failed to convert "@ + s + " to Filepath or Uri"@
}

impl PathOrUri {
    /// Reads the discovery source, where `is_file` says that `s` names an
    /// existing file: a file path where `s` names a file and has no scheme;
    /// else a URI where `s` is one (kept as the URI writes itself); else a
    /// file path where it names a file; else a configuration error.
    pub fn from_str(s: &str, is_file: bool) -> (r: Result<PathOrUri, BeamConnectError>)
        ensures
            (is_file && !has_scheme(s@)) ==> (r matches Ok(PathOrUri::Path(t)) && t@ == s@),
            (!(is_file && !has_scheme(s@)) && uri_text(s@) is Some) ==> (r matches Ok(
                PathOrUri::Uri(t),
            ) && Some(t@) == uri_text(s@)),
            (has_scheme(s@) && uri_text(s@) is None && is_file) ==> (r matches Ok(
                PathOrUri::Path(t),
            ) && t@ == s@),
            (uri_text(s@) is None && !is_file) ==> (r matches Err(
                BeamConnectError::ConfigurationError(t),
            ) && t@ == unusable_source_text(s@)),
    {
        if is_file && !starts_with_scheme(s) {
            return Ok(PathOrUri::Path(s.to_owned()));
        }
        match uri_from_str(s) {
            Some(u) => Ok(PathOrUri::Uri(u)),
            None => if is_file {
                Ok(PathOrUri::Path(s.to_owned()))
            } else {
                let mut m = concat("Failed to convert ", s);
                m.append(" to Filepath or Uri");
                proof {
                    reveal_strlit("Failed to convert ");
                    reveal_strlit(" to Filepath or Uri");
                }
                Err(BeamConnectError::ConfigurationError(m))
            },
        }
    }
}

// ---------------------------------------------------------------------------
// The central site discovery as the relay holds it
/// The central site discovery, read once at start-up from a file or fetched
/// once from a URL, and kept unchanged for the relay's lifetime.
#[derive(Debug)]
pub enum CentralTargetsKind {
    Static(CentralMapping),
    Dynamic { fetch_url: String, sites: CentralMapping },
}

pub enum CentralView {
    Static(Seq<SiteView>),
    Dynamic { fetch_url: Seq<char>, sites: Seq<SiteView> },
}

impl View for CentralTargetsKind {
    type V = CentralView;

    open spec fn view(&self) -> CentralView {
        match self {
            CentralTargetsKind::Static(m) => CentralView::Static(m@),
            CentralTargetsKind::Dynamic { fetch_url, sites } => CentralView::Dynamic {
                fetch_url: fetch_url@,
                sites: sites@,
            },
        }
    }
}

/// The sites that the table hands out.
pub open spec fn central_lookup(v: CentralView) -> Seq<SiteView> {
    match v {
        CentralView::Static(m) => m,
        CentralView::Dynamic { sites, .. } => sites,
    }
}

impl CentralTargetsKind {
    /// A table read once from a file.
    pub fn new_static(mapping: CentralMapping) -> (r: CentralTargetsKind)
        ensures
            r@ == CentralView::Static(mapping@),
    {
        CentralTargetsKind::Static(mapping)
    }

    /// A table fetched once from `fetch_url`.
    pub fn new_dynamic(fetch_url: String, mapping: CentralMapping) -> (r: CentralTargetsKind)
        ensures
            r@ == (CentralView::Dynamic { fetch_url: fetch_url@, sites: mapping@ }),
    {
        CentralTargetsKind::Dynamic { fetch_url, sites: mapping }
    }

    /// The sites to use: those the table was built with.
    pub fn get(&self) -> (r: &CentralMapping)
        ensures
            r@ == central_lookup(self@),
    {
        match self {
            CentralTargetsKind::Static(m) => m,
            CentralTargetsKind::Dynamic { sites, .. } => sites,
        }
    }

    /// Where a fetched table came from.
    pub fn fetch_url(&self) -> (r: Option<&str>)
        ensures
            self@ matches CentralView::Dynamic { fetch_url, .. } ==> r matches Some(u) && u@
                == fetch_url,
            self@ is Static ==> r is None,
    {
        match self {
            CentralTargetsKind::Static(_) => None,
            CentralTargetsKind::Dynamic { fetch_url, .. } => Some(fetch_url.as_str()),
        }
    }
}

/// The site discovery is taken in at start-up and stays as it was: a table
/// built from the sites `m`, read from a file or fetched from `url`, hands
/// out `m` on every lookup.
pub proof fn law_central_static(url: Seq<char>, m: Seq<SiteView>)
    ensures
        central_lookup(CentralView::Static(m)) == m,
        central_lookup(CentralView::Dynamic { fetch_url: url, sites: m }) == m,
{
}

} // verus!
