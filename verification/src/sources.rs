//! The providers the daemon can ask, and which of them it asks.
//!
//! Nothing is selected by default, so no third party is reached until someone
//! has chosen one.

use vstd::prelude::*;

use crate::alphavantage::AlphaVantage;
use crate::config::{has_key, Config, ConfigView};
use crate::provider::{
    catalog, entries, entry, lookup, ProviderInfoView, ProviderStatus, ProviderStatusView,
};
use crate::secret::SecretString;
use crate::text::{quote, quoted, same};

verus! {

/// A provider ready to be asked.
#[derive(Debug, Clone)]
pub enum PriceSource {
    AlphaVantage(AlphaVantage),
}

/// A [`PriceSource`] with its key as a sequence.
pub enum PriceSourceView {
    AlphaVantage { key: Seq<char> },
}

impl View for PriceSource {
    type V = PriceSourceView;

    open spec fn view(&self) -> PriceSourceView {
        match *self {
            PriceSource::AlphaVantage(a) => PriceSourceView::AlphaVantage { key: a.key@ },
        }
    }
}

impl PriceSourceView {
    /// The wire id of the provider.
    pub open spec fn wire_id(self) -> Seq<char> {
        match self {
            PriceSourceView::AlphaVantage { .. } => "alphavantage"@,
        }
    }
}

impl PriceSource {
    /// The wire id of the provider.
    pub fn id(&self) -> (id: &'static str)
        ensures
            id@ == self@.wire_id(),
    {
        match self {
            PriceSource::AlphaVantage(_) => "alphavantage",
        }
    }

    /// A second source that asks the same provider with the same key.
    pub fn duplicate(&self) -> (source: PriceSource)
        ensures
            source@ == self@,
    {
        match self {
            PriceSource::AlphaVantage(a) => PriceSource::AlphaVantage(
                AlphaVantage { key: a.key.duplicate() },
            ),
        }
    }
}

/// The source that `id` and `key` name, or why there is none.
pub open spec fn source_of(
    id: Seq<char>,
    key: Option<Seq<char>>,
) -> Result<PriceSourceView, Seq<char>> {
    match entry(id) {
        None => Err("unknown provider "@ + quote(id)),
        Some(info) => if info.requires_key && !has_key(key) {
            Err("provider "@ + id + " requires an API key"@)
        } else if id == "alphavantage"@ && key is Some {
            Ok(PriceSourceView::AlphaVantage { key: key->0 })
        } else {
            Err("provider "@ + id + " is in the catalog but has no implementation"@)
        },
    }
}

/// Whether a built source, or the reason there is none, is the one meant.
pub open spec fn is_source(
    built: Result<PriceSource, String>,
    meant: Result<PriceSourceView, Seq<char>>,
) -> bool {
    match (built, meant) {
        (Ok(source), Ok(view)) => source@ == view,
        (Err(message), Err(text)) => message@ == text,
        _ => false,
    }
}

/// Builds a provider. A key is needed where the catalog says so.
pub fn build(id: &str, key: Option<&SecretString>) -> (built: Result<PriceSource, String>)
    ensures
        is_source(
            built,
            source_of(
                id@,
                match key {
                    Some(k) => Some(k@),
                    None => None,
                },
            ),
        ),
{
    let info = match lookup(id) {
        Some(info) => info,
        None => return Err("unknown provider ".to_owned().concat(quoted(id).as_str())),
    };
    let present = match key {
        Some(k) => !k.is_empty(),
        None => false,
    };
    if info.requires_key && !present {
        let mut message = "provider ".to_owned();
        message.append(id);
        message.append(" requires an API key");
        return Err(message);
    }
    match key {
        Some(k) => {
            if same(id, "alphavantage") {
                return Ok(PriceSource::AlphaVantage(AlphaVantage::new(k.duplicate())));
            }
        },
        None => {},
    }
    let mut message = "provider ".to_owned();
    message.append(id);
    message.append(" is in the catalog but has no implementation");
    Err(message)
}

/// The source that a configuration selects, or what the operator has to do.
pub open spec fn current_source(c: ConfigView) -> Result<PriceSourceView, Seq<char>> {
    match c.provider {
        None => Err(
            "no price data provider is configured — run `tickerctl provider set` to choose one"@,
        ),
        Some(id) => source_of(id, c.api_key),
    }
}

/// Resolves the configured provider at the moment of use, so that another
/// choice takes effect with the next fetch.
#[derive(Debug, Clone)]
pub struct Providers {
    pub config: Config,
}

impl Providers {
    /// The providers under a configuration.
    pub fn new(config: Config) -> (p: Providers)
        ensures
            p.config == config,
    {
        Providers { config }
    }

    /// The source that the configuration selects, or what the operator has to
    /// do. This is where it is enforced that nothing is fetched until someone
    /// has chosen a provider.
    pub fn current(&self) -> (built: Result<PriceSource, String>)
        ensures
            is_source(built, current_source(self.config@)),
    {
        match &self.config.provider {
            None => Err(
                "no price data provider is configured — run `tickerctl provider set` to choose one".to_owned(),
            ),
            Some(id) => build(id.as_str(), self.config.api_key.as_ref()),
        }
    }

    /// The configuration in force.
    pub fn config(&self) -> (config: &Config)
        ensures
            *config == self.config,
    {
        &self.config
    }
}

/// Every provider in the catalog can be built, with a key where it needs one.
pub proof fn every_catalog_entry_is_implemented(i: int, key: Seq<char>)
    requires
        0 <= i < entries().len(),
        key.len() > 0,
    ensures
        source_of(entries()[i].id, Some(key)) is Ok,
        source_of(entries()[i].id, Some(key))->Ok_0.wire_id() == entries()[i].id,
{
    assert(entries()[0].id == "alphavantage"@);
}

/// A provider that needs a key cannot be built without one, nor with an empty
/// one.
pub proof fn missing_keys_are_refused(id: Seq<char>, key: Option<Seq<char>>)
    requires
        entry(id) is Some,
        entry(id)->0.requires_key,
        !has_key(key),
    ensures
        source_of(id, key) is Err,
{
}

/// What can be fetched from is what is reported as ready.
pub proof fn ready_means_there_is_a_source(c: ConfigView)
    ensures
        c.ready() <==> current_source(c) is Ok,
{
    if c.provider is Some {
        crate::provider::lookup_agrees_with_the_catalog(c.provider->0);
    }
}

/// What is reported of a configuration.
pub open spec fn status_of(c: ConfigView) -> ProviderStatusView {
    let selected = match c.provider {
        Some(id) => entry(id),
        None => None,
    };
    ProviderStatusView {
        selected,
        unavailable: if selected is None && c.provider is Some {
            Some("unknown provider "@ + quote(c.provider->0))
        } else {
            None
        },
        key_configured: has_key(c.api_key),
        ready: c.ready(),
        available: entries(),
    }
}

/// What is reported of a configuration: whether a key is on file, never the
/// key.
pub fn provider_status(config: &Config) -> (status: ProviderStatus)
    ensures
        status@ == status_of(config@),
{
    let selected = match &config.provider {
        Some(id) => lookup(id.as_str()),
        None => None,
    };
    let unavailable = match (&selected, &config.provider) {
        (None, Some(id)) => Some("unknown provider ".to_owned().concat(quoted(id.as_str()).as_str())),
        _ => None,
    };
    ProviderStatus {
        selected,
        unavailable,
        key_configured: config.key_on_file(),
        ready: config.is_ready(),
        available: catalog(),
    }
}

/// What is reported is the same for any two keys: nothing of a stored key can
/// come back out.
pub proof fn status_does_not_tell_the_key(
    provider: Option<Seq<char>>,
    key: Seq<char>,
    other: Seq<char>,
)
    requires
        key.len() > 0,
        other.len() > 0,
    ensures
        status_of(ConfigView { provider, api_key: Some(key) }) == status_of(
            ConfigView { provider, api_key: Some(other) },
        ),
{
}

/// The provider that is asked is the one that is configured, with the key that
/// is configured, which is not empty.
pub proof fn sources_are_those_configured(c: ConfigView, source: PriceSourceView)
    requires
        current_source(c) == Ok::<PriceSourceView, Seq<char>>(source),
    ensures
        c.provider == Some(source.wire_id()),
        match source {
            PriceSourceView::AlphaVantage { key } => c.api_key == Some(key),
        },
{
}

/// A status tells of the configuration what it is: which known provider it
/// names, whether it has a key, and whether that is enough to fetch; and it
/// names what cannot be used.
pub proof fn status_tells_how_it_stands(c: ConfigView)
    ensures
        status_of(c).selected matches Some(info) ==> c.provider == Some(info.id),
        status_of(c).selected is None <==> c.provider is None || !entries().map_values(
            |p: ProviderInfoView| p.id,
        ).contains(c.provider->0),
        status_of(c).unavailable is Some <==> c.provider is Some && status_of(c).selected is None,
        status_of(c).key_configured <==> c.api_key is Some && c.api_key->0.len() > 0,
        status_of(c).ready <==> (status_of(c).selected matches Some(info) && (info.requires_key
            ==> status_of(c).key_configured)),
        status_of(c).available == entries(),
{
    let ids = entries().map_values(|p: ProviderInfoView| p.id);
    if c.provider is Some {
        let id = c.provider->0;
        crate::provider::lookup_agrees_with_the_catalog(id);
        if entry(id) is Some {
            let i = choose|i: int| 0 <= i < entries().len() && entries()[i].id == id;
            assert(ids[i] == id);
        }
        if ids.contains(id) {
            let i = choose|i: int| 0 <= i < ids.len() && ids[i] == id;
            assert(entries()[i].id == id);
        }
    }
}

/// The laws on sources hold of what is built: of whatever [`build`],
/// [`Providers::current`] and [`provider_status`] return.
pub proof fn laws_hold_of_what_is_built(
    id: &str,
    key: Option<&SecretString>,
    providers: &Providers,
    built: Result<PriceSource, String>,
    config: &Config,
    status: ProviderStatus,
)
    ensures
        call_ensures(build, (id, key), built) ==> is_source(
            built,
            source_of(
                id@,
                match key {
                    Some(k) => Some(k@),
                    None => None,
                },
            ),
        ),
        call_ensures(Providers::current, (providers,), built) ==> is_source(
            built,
            current_source(providers.config@),
        ),
        call_ensures(provider_status, (config,), status) ==> status@ == status_of(config@),
{
}

} // verus!
