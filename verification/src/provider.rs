//! The catalog of price data providers.
//!
//! Which providers exist and what they need. A provider belongs here only if
//! its terms permit automated fetches on a schedule and keeping the closes in a
//! local cache.

use vstd::prelude::*;

use crate::text::same;

verus! {

/// What a provider needs and what using it commits you to.
#[derive(Debug, Clone, PartialEq, Eq)]
pub struct ProviderInfo {
    /// Stable identifier used on the wire and in the configuration.
    pub id: String,
    /// Name to show a human.
    pub label: String,
    /// Whether an API key must be configured before it can fetch.
    pub requires_key: bool,
    /// Where to get a key, for the providers that need one.
    pub signup_url: Option<String>,
    /// One line on coverage and free-tier shape.
    pub description: String,
}

/// A [`ProviderInfo`] with its texts as sequences.
#[verifier::ext_equal]
pub struct ProviderInfoView {
    pub id: Seq<char>,
    pub label: Seq<char>,
    pub requires_key: bool,
    pub signup_url: Option<Seq<char>>,
    pub description: Seq<char>,
}

/// The view of an optional text.
pub open spec fn optional_text(text: Option<String>) -> Option<Seq<char>> {
    match text {
        Some(s) => Some(s@),
        None => None,
    }
}

impl View for ProviderInfo {
    type V = ProviderInfoView;

    open spec fn view(&self) -> ProviderInfoView {
        ProviderInfoView {
            id: self.id@,
            label: self.label@,
            requires_key: self.requires_key,
            signup_url: optional_text(self.signup_url),
            description: self.description@,
        }
    }
}

/// The catalog's entry for Alpha Vantage.
pub open spec fn alpha_vantage_entry() -> ProviderInfoView {
    ProviderInfoView {
        id: "alphavantage"@,
        label: "Alpha Vantage"@,
        requires_key: true,
        signup_url: Some("https://www.alphavantage.co/support/#api-key"@),
        description: "Documented daily time-series API. Free tier is rate-limited but ample for a cached daily refresh, and permits the cache. Non-commercial use only."@,
    }
}

/// Every provider that can be configured, in the order it is offered.
pub open spec fn entries() -> Seq<ProviderInfoView> {
    seq![alpha_vantage_entry()]
}

/// The views of a list of providers.
pub open spec fn info_views(infos: Seq<ProviderInfo>) -> Seq<ProviderInfoView> {
    infos.map_values(|p: ProviderInfo| p@)
}

/// The first of `infos` whose identifier is `id`.
pub open spec fn find(infos: Seq<ProviderInfoView>, id: Seq<char>) -> Option<ProviderInfoView>
    decreases infos.len(),
{
    if infos.len() == 0 {
        None
    } else if infos[0].id == id {
        Some(infos[0])
    } else {
        find(infos.drop_first(), id)
    }
}

/// The catalog's entry for `id`.
pub open spec fn entry(id: Seq<char>) -> Option<ProviderInfoView> {
    find(entries(), id)
}

/// The view of an optional provider.
pub open spec fn optional_info(info: Option<ProviderInfo>) -> Option<ProviderInfoView> {
    match info {
        Some(p) => Some(p@),
        None => None,
    }
}

/// Every provider the daemon can be configured to use.
pub fn catalog() -> (all: Vec<ProviderInfo>)
    ensures
        info_views(all@) == entries(),
{
    let mut all: Vec<ProviderInfo> = Vec::new();
    all.push(
        ProviderInfo {
            id: "alphavantage".to_owned(),
            label: "Alpha Vantage".to_owned(),
            requires_key: true,
            signup_url: Some("https://www.alphavantage.co/support/#api-key".to_owned()),
            description: "Documented daily time-series API. Free tier is rate-limited but ample for a cached daily refresh, and permits the cache. Non-commercial use only.".to_owned(),
        },
    );
    assert(info_views(all@) =~= entries());
    all
}

/// Look up one provider by its wire id.
pub fn lookup(id: &str) -> (found: Option<ProviderInfo>)
    ensures
        optional_info(found) == entry(id@),
{
    let mut all = catalog();
    let ghost views = info_views(all@);
    let mut i: usize = 0;
    assert(views.skip(0) =~= views);
    while i < all.len()
        invariant
            i <= all@.len(),
            views == info_views(all@),
            views == entries(),
            find(views.skip(i as int), id@) == entry(id@),
        decreases all@.len() - i,
    {
        assert(views.skip(i as int)[0] == all@[i as int]@);
        if same(all[i].id.as_str(), id) {
            let info = all.remove(i);
            return Some(info);
        }
        assert(views.skip(i as int).drop_first() =~= views.skip(i + 1));
        i = i + 1;
    }
    None
}

/// What the daemon currently has configured. Deliberately carries no key, only
/// whether one is on file.
#[derive(Debug, Clone)]
pub struct ProviderStatus {
    /// `None` until the operator chooses one; the daemon fetches nothing until
    /// then.
    pub selected: Option<ProviderInfo>,
    /// Why `selected` is `None` despite a provider being named.
    pub unavailable: Option<String>,
    /// Whether a key is stored for the selected provider.
    pub key_configured: bool,
    /// Whether the selected provider is ready to fetch.
    pub ready: bool,
    /// Everything that could be selected.
    pub available: Vec<ProviderInfo>,
}

/// A [`ProviderStatus`] with its texts as sequences.
#[verifier::ext_equal]
pub struct ProviderStatusView {
    pub selected: Option<ProviderInfoView>,
    pub unavailable: Option<Seq<char>>,
    pub key_configured: bool,
    pub ready: bool,
    pub available: Seq<ProviderInfoView>,
}

impl View for ProviderStatus {
    type V = ProviderStatusView;

    open spec fn view(&self) -> ProviderStatusView {
        ProviderStatusView {
            selected: optional_info(self.selected),
            unavailable: optional_text(self.unavailable),
            key_configured: self.key_configured,
            ready: self.ready,
            available: info_views(self.available@),
        }
    }
}

/// No two entries of the catalog share an identifier.
pub proof fn catalog_ids_are_distinct(i: int, j: int)
    requires
        0 <= i < entries().len(),
        0 <= j < entries().len(),
        entries()[i].id == entries()[j].id,
    ensures
        i == j,
{
}

/// An entry that needs a key says where to get one.
pub proof fn keyed_entries_name_a_signup_page(i: int)
    requires
        0 <= i < entries().len(),
        entries()[i].requires_key,
    ensures
        entries()[i].signup_url is Some,
{
}

/// Looking up an identifier finds an entry exactly when the catalog has one by
/// that name, and the entry found carries it.
pub proof fn lookup_agrees_with_the_catalog(id: Seq<char>)
    ensures
        entry(id) is Some <==> exists|i: int| 0 <= i < entries().len() && entries()[i].id == id,
        entry(id) is Some ==> entry(id)->0.id == id && entries().contains(entry(id)->0),
{
    find_agrees(entries(), id);
}

proof fn find_agrees(infos: Seq<ProviderInfoView>, id: Seq<char>)
    ensures
        find(infos, id) is Some <==> exists|i: int| 0 <= i < infos.len() && infos[i].id == id,
        find(infos, id) is Some ==> find(infos, id)->0.id == id && infos.contains(
            find(infos, id)->0,
        ),
    decreases infos.len(),
{
    if infos.len() > 0 {
        let rest = infos.drop_first();
        find_agrees(rest, id);
        if infos[0].id == id {
            assert(infos.contains(infos[0]));
        } else {
            if find(rest, id) is Some {
                let k = choose|k: int| 0 <= k < rest.len() && rest[k] == find(rest, id)->0;
                assert(infos[k + 1] == rest[k]);
            }
            if exists|i: int| 0 <= i < infos.len() && infos[i].id == id {
                let i = choose|i: int| 0 <= i < infos.len() && infos[i].id == id;
                assert(rest[i - 1].id == id);
            }
        }
    }
}

} // verus!
