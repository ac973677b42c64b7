//! Identities of applications and proxies on the broker.
use vstd::prelude::*;


verus! {

/// The identity of an application, `app.proxy.broker`.
#[derive(Debug)]
pub struct AppId {
    id: String,
}

/// The identity of a proxy, `proxy.broker`.
#[derive(Debug)]
pub struct ProxyId {
    id: String,
}

impl View for AppId {
    type V = Seq<char>;

    closed spec fn view(&self) -> Seq<char> {
        self.id@
    }
}

impl View for ProxyId {
    type V = Seq<char>;

    closed spec fn view(&self) -> Seq<char> {
        self.id@
    }
}

impl AppId {
    /// An application id with the given text; the text is not checked here,
    /// the broker's own id rules decide what is an application id.
    pub fn new_unchecked(id: String) -> (r: AppId)
        ensures
            r@ == id@,
    {
        AppId { id }
    }

    pub fn as_str(&self) -> (r: &str)
        ensures
            r@ == self@,
    {
        self.id.as_str()
    }

    /// Whether both ids have the same text.
    pub fn same_as(&self, other: &AppId) -> (r: bool)
        ensures
            r == (self@ == other@),
    {
        self.id == other.id
    }
}

impl Clone for AppId {
    fn clone(&self) -> (r: Self)
        ensures
            r@ == self@,
    {
        AppId { id: self.id.clone() }
    }
}

impl ProxyId {
    /// A proxy id with the given text; the text is not checked here.
    pub fn new_unchecked(id: String) -> (r: ProxyId)
        ensures
            r@ == id@,
    {
        ProxyId { id }
    }

    pub fn as_str(&self) -> (r: &str)
        ensures
            r@ == self@,
    {
        self.id.as_str()
    }
}

impl Clone for ProxyId {
    fn clone(&self) -> (r: Self)
        ensures
            r@ == self@,
    {
        ProxyId { id: self.id.clone() }
    }
}

/// What the broker's id rules make of an id string.
#[derive(Debug, Clone, Copy, PartialEq, Eq, Structural)]
pub enum IdKind {
    App,
    Proxy,
}

/// Either an application or a proxy.
#[derive(Debug)]
pub enum AppOrProxyId {
    App(AppId),
    Proxy(ProxyId),
}

/// The abstract form of an [`AppOrProxyId`].
pub enum IdView {
    App(Seq<char>),
    Proxy(Seq<char>),
}

impl View for AppOrProxyId {
    type V = IdView;

    open spec fn view(&self) -> IdView {
        match self {
            AppOrProxyId::App(a) => IdView::App(a@),
            AppOrProxyId::Proxy(p) => IdView::Proxy(p@),
        }
    }
}

impl Clone for AppOrProxyId {
    fn clone(&self) -> (r: Self)
        ensures
            r@ == self@,
    {
        match self {
            AppOrProxyId::App(a) => AppOrProxyId::App(a.clone()),
            AppOrProxyId::Proxy(p) => AppOrProxyId::Proxy(p.clone()),
        }
    }
}

impl AppOrProxyId {
    /// The id of the kind that the broker's rules gave to `text`.
    pub fn of_kind(kind: IdKind, text: &str) -> (r: AppOrProxyId)
        ensures
            r@ == (match kind {
                IdKind::App => IdView::App(text@),
                IdKind::Proxy => IdView::Proxy(text@),
            }),
    {
        match kind {
            IdKind::App => AppOrProxyId::App(AppId::new_unchecked(text.to_owned())),
            IdKind::Proxy => AppOrProxyId::Proxy(ProxyId::new_unchecked(text.to_owned())),
        }
    }

    /// The text of the id.
    pub fn as_str(&self) -> (r: &str)
        ensures
            r@ == id_text(self@),
    {
        match self {
            AppOrProxyId::App(a) => a.as_str(),
            AppOrProxyId::Proxy(p) => p.as_str(),
        }
    }
}

/// The text of an id, whatever its kind.
pub open spec fn id_text(v: IdView) -> Seq<char> {
    match v {
        IdView::App(t) => t,
        IdView::Proxy(t) => t,
    }
}

} // verus!
