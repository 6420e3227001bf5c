//! The catalog of models and what it says of each.

use vstd::prelude::*;
use vstd::string::*;

use crate::text;
use crate::text_laws;
use crate::text_map::TextMap;

verus! {

/// Where the catalog is fetched from.
pub const MODELS_DEV_URL: &'static str = "https://models.dev/api.json";

/// The time that a catalog stays fresh, in hours.
pub const DEFAULT_REFRESH_HOURS: u64 = 1;

/// The format version of the cached catalog.
pub const CATALOG_SCHEMA_VERSION: u32 = 1;

/// The name of the cached catalog's file.
pub const CATALOG_FILE_NAME: &'static str = "models_dev.json";

/// The sizes that a model can take.
#[derive(Debug, Clone, Copy, PartialEq, Eq, Structural)]
pub struct Limits {
    pub context: u64,
    pub output: u64,
}

/// A price, as the bit pattern of a double-precision number.
#[derive(Debug, Clone, Copy, PartialEq, Eq, Structural)]
pub struct Price {
    pub bits: u64,
}

/// What a model's tokens cost.
#[derive(Debug, Clone, Copy, PartialEq, Eq, Structural)]
pub struct Cost {
    pub input: Price,
    pub output: Price,
    pub cache_read: Price,
    pub cache_write: Price,
}

impl Default for Limits {
    /// No size is known.
    fn default() -> (r: Self)
        ensures
            r == (Limits { context: 0, output: 0 }),
    {
        Limits { context: 0, output: 0 }
    }
}

impl Default for Cost {
    /// Nothing costs anything: each price is zero, whose bit pattern is zero.
    fn default() -> (r: Self)
        ensures
            r == (Cost {
                input: Price { bits: 0 },
                output: Price { bits: 0 },
                cache_read: Price { bits: 0 },
                cache_write: Price { bits: 0 },
            }),
    {
        let free = Price { bits: 0 };
        Cost { input: free, output: free, cache_read: free, cache_write: free }
    }
}

/// What a model takes and gives.
#[derive(Debug, Clone, PartialEq, Eq)]
pub struct Modalities {
    pub input: Vec<String>,
    pub output: Vec<String>,
}

impl Default for Modalities {
    /// Nothing is taken and nothing given.
    fn default() -> (r: Self)
        ensures
            r.input@.len() == 0,
            r.output@.len() == 0,
    {
        Modalities { input: Vec::new(), output: Vec::new() }
    }
}

/// A way to set how a model reasons.
#[derive(Debug, Clone, PartialEq, Eq)]
pub struct ReasoningOption {
    pub kind: String,
    pub values: Vec<String>,
}

/// The field in which a model interleaves its reasoning.
#[derive(Debug, Clone, PartialEq, Eq)]
pub struct InterleavedField {
    pub field: String,
}

/// What the catalog says of a model.
#[derive(Debug, Clone, PartialEq, Eq)]
pub struct ModelsDevEntry {
    pub id: String,
    pub name: String,
    pub family: Option<String>,
    pub attachment: bool,
    pub reasoning: bool,
    pub reasoning_options: Vec<ReasoningOption>,
    pub tool_call: bool,
    pub temperature: bool,
    pub interleaved: Option<InterleavedField>,
    pub modalities: Modalities,
    pub limit: Limits,
    pub cost: Cost,
    pub open_weights: bool,
    pub release_date: Option<String>,
    pub last_updated: Option<String>,
}

/// What the catalog says of a provider.
#[derive(Debug, PartialEq, Eq)]
pub struct ModelsDevProvider {
    pub id: String,
    pub name: String,
    pub api: Option<String>,
    pub doc: Option<String>,
    pub models: TextMap<ModelsDevEntry>,
}

/// The catalog.
#[derive(Debug, PartialEq, Eq)]
pub struct ModelsDevCatalog {
    pub schema_version: u32,
    /// When the catalog was fetched, in seconds since the epoch.
    pub fetched_at_unix: u64,
    pub providers: TextMap<ModelsDevProvider>,
}

/// A catalog, with where it came from.
#[derive(Debug, PartialEq, Eq)]
pub struct CatalogLoad {
    pub catalog: ModelsDevCatalog,
    pub from_cache: bool,
    pub path: String,
}

// ---------------------------------------------------------------------------
// Freshness
// ---------------------------------------------------------------------------

/// Hours in seconds; at most the largest number of seconds that fits.
pub open spec fn hours_as_secs(hours: u64) -> u64 {
    if hours * 3600 > u64::MAX {
        u64::MAX
    } else {
        (hours * 3600) as u64
    }
}

/// What was current at `since` is still fresh at `now`: `since` is not in the
/// future, and less than the time to live has passed.
pub open spec fn still_fresh(since: u64, now: u64, ttl_hours: u64) -> bool {
    since <= now && now - since < hours_as_secs(ttl_hours)
}

fn ttl_hours_to_secs(hours: u64) -> (r: u64)
    ensures
        r == hours_as_secs(hours),
{
    if hours > u64::MAX / 3600 {
        u64::MAX
    } else {
        hours * 3600
    }
}

/// Whether a file that was written at `mtime_unix` is still fresh.
pub fn mtime_fresh(mtime_unix: u64, now_unix: u64, ttl_hours: u64) -> (r: bool)
    ensures
        r == still_fresh(mtime_unix, now_unix, ttl_hours),
{
    let ttl_secs: u64 = ttl_hours_to_secs(ttl_hours);
    match now_unix.checked_sub(mtime_unix) {
        Some(elapsed) => elapsed < ttl_secs,
        None => false,
    }
}

/// Whether a catalog is still fresh.
pub fn is_fresh(catalog: &ModelsDevCatalog, now_unix: u64, ttl_hours: u64) -> (r: bool)
    ensures
        r == still_fresh(catalog.fetched_at_unix, now_unix, ttl_hours),
{
    mtime_fresh(catalog.fetched_at_unix, now_unix, ttl_hours)
}

/// What is fresh was fresh at every earlier time since it was current, and is
/// fresh for every longer time to live. With no time to live nothing is.
pub proof fn law_freshness_wears_off(since: u64, earlier: u64, now: u64, ttl: u64, longer: u64)
    requires
        since <= earlier <= now,
        ttl <= longer,
    ensures
        still_fresh(since, now, ttl) ==> still_fresh(since, earlier, ttl) && still_fresh(
            since,
            now,
            longer,
        ),
        !still_fresh(since, now, 0),
{
}

// ---------------------------------------------------------------------------
// Lookup
// ---------------------------------------------------------------------------

/// The catalog knows a model of a provider.
pub open spec fn knows(c: ModelsDevCatalog, provider: Seq<char>, model: Seq<char>) -> bool {
    c.providers@.dom().contains(provider) && c.providers@[provider].models@.dom().contains(model)
}

/// What the catalog says of a model of a provider.
pub fn lookup<'a>(catalog: &'a ModelsDevCatalog, provider: &str, model: &str) -> (r: Option<
    &'a ModelsDevEntry,
>)
    ensures
        match r {
            Some(e) => knows(*catalog, provider@, model@) && *e
                == catalog.providers@[provider@].models@[model@],
            None => !knows(*catalog, provider@, model@),
        },
{
    match catalog.providers.get(provider) {
        Some(p) => p.models.get(model),
        None => None,
    }
}

// ---------------------------------------------------------------------------
// Loading
// ---------------------------------------------------------------------------

/// The path of `name` in the directory `home`.
pub open spec fn joined_path(home: Seq<char>, name: Seq<char>) -> Seq<char> {
    if home.len() == 0 || home.last() == '/' {
        home + name
    } else {
        home + "/"@ + name
    }
}

/// The path of the cached catalog in the directory `home_path`.
pub fn catalog_path(home_path: &str) -> (r: String)
    ensures
        r@ == joined_path(home_path@, CATALOG_FILE_NAME@),
{
    let home = text::chars_of(home_path);
    if home.len() == 0 || home[home.len() - 1] == '/' {
        home_path.to_owned().concat(CATALOG_FILE_NAME)
    } else {
        home_path.to_owned().concat("/").concat(CATALOG_FILE_NAME)
    }
}

/// What to do once the cache was looked at.
#[derive(Debug, PartialEq, Eq)]
pub enum LoadStep {
    /// The load is over.
    Done(Result<CatalogLoad, String>),
    /// The catalog is to be fetched.
    Fetch { path: String },
}

/// The message of a load that may not go online.
pub open spec fn offline_text(path: Seq<char>) -> Seq<char> {
    "models_dev: offline mode and cache missing or stale at "@ + path
}

/// What a load does once the cache was looked at: a fresh catalog is taken,
/// without one an offline load fails, and an online one fetches.
pub fn after_cache(fresh: Option<ModelsDevCatalog>, offline: bool, path: String) -> (r: LoadStep)
    ensures
        match fresh {
            Some(catalog) => r == LoadStep::Done(
                Ok(CatalogLoad { catalog, from_cache: true, path }),
            ),
            None => if offline {
                r matches LoadStep::Done(Err(m)) && m@ == offline_text(path@)
            } else {
                r == (LoadStep::Fetch { path })
            },
        },
{
    match fresh {
        Some(catalog) => LoadStep::Done(Ok(CatalogLoad { catalog, from_cache: true, path })),
        None => {
            if offline {
                let message =
                    "models_dev: offline mode and cache missing or stale at ".to_owned().concat(
                    path.as_str(),
                );
                LoadStep::Done(Err(message))
            } else {
                LoadStep::Fetch { path }
            }
        },
    }
}

/// The cache counts as fresh where its file is, and holds a catalog of the
/// schema that is written today. One of another schema is not migrated: it
/// counts as absent, so that it is built anew.
pub fn read_fresh_cache(
    mtime_unix: u64,
    now_unix: u64,
    ttl_hours: u64,
    stored: Option<ModelsDevCatalog>,
) -> (r: Option<ModelsDevCatalog>)
    ensures
        r == if still_fresh(mtime_unix, now_unix, ttl_hours) && stored is Some
            && stored->0.schema_version == CATALOG_SCHEMA_VERSION {
            stored
        } else {
            None
        },
{
    if !mtime_fresh(mtime_unix, now_unix, ttl_hours) {
        return None;
    }
    match stored {
        Some(catalog) => if catalog.schema_version == CATALOG_SCHEMA_VERSION {
            Some(catalog)
        } else {
            None
        },
        None => None,
    }
}

/// The catalog that was fetched at `now_unix`.
pub fn fetched_catalog(providers: TextMap<ModelsDevProvider>, now_unix: u64) -> (r:
    ModelsDevCatalog)
    ensures
        r.schema_version == CATALOG_SCHEMA_VERSION,
        r.fetched_at_unix == now_unix,
        r.providers == providers,
{
    ModelsDevCatalog {
        schema_version: CATALOG_SCHEMA_VERSION,
        fetched_at_unix: now_unix,
        providers,
    }
}

/// The message of a fetch that the server answered with an error.
pub open spec fn fetch_status_text(url: Seq<char>, status: Seq<char>) -> Seq<char> {
    "models_dev: fetch "@ + url + " returned HTTP "@ + status
}

/// The message of a fetch that the server answered with an error.
pub fn fetch_status_message(url: &str, status: &str) -> (r: String)
    ensures
        r@ == fetch_status_text(url@, status@),
{
    "models_dev: fetch ".to_owned().concat(url).concat(" returned HTTP ").concat(status)
}

/// The message of a load that neither the server nor the cache serves.
pub open spec fn no_catalog_text(fetch_err: Seq<char>, cache_err: Seq<char>) -> Seq<char> {
    "models_dev: fetch failed ("@ + fetch_err + ") and cache unreadable ("@ + cache_err + ")"@
}

/// Why a cache of another schema is of no use.
pub open spec fn other_schema_text(version: u32) -> Seq<char> {
    "schema_version="@ + text::decimal(version as nat) + ", expected "@ + text::decimal(
        CATALOG_SCHEMA_VERSION as nat,
    )
}

/// Why a cache of another schema is of no use.
fn other_schema_message(version: u32) -> (r: String)
    ensures
        r@ == other_schema_text(version),
{
    let v = text::decimal_of(version as u64);
    let known = text::decimal_of(CATALOG_SCHEMA_VERSION as u64);
    "schema_version=".to_owned().concat(v.as_str()).concat(", expected ").concat(known.as_str())
}

/// The message of a load that neither the server nor the cache serves.
fn no_catalog_message(fetch_err: &str, cache_err: &str) -> (r: String)
    ensures
        r@ == no_catalog_text(fetch_err@, cache_err@),
{
    "models_dev: fetch failed (".to_owned().concat(fetch_err).concat(
        ") and cache unreadable (",
    ).concat(cache_err).concat(")")
}

/// What a load ends with once the fetch is over: the fetched catalog, else a
/// stale one out of the cache, else an error that tells of both. `stale` is
/// what the cache holds, or why it cannot be read; a catalog of another schema
/// cannot.
pub fn after_fetch(
    fetched: Result<ModelsDevCatalog, String>,
    stale: Result<ModelsDevCatalog, String>,
    path: String,
) -> (r: Result<CatalogLoad, String>)
    ensures
        match fetched {
            Ok(catalog) => r == Ok::<CatalogLoad, String>(
                CatalogLoad { catalog, from_cache: false, path },
            ),
            Err(fetch_err) => match stale {
                Ok(catalog) => if catalog.schema_version == CATALOG_SCHEMA_VERSION {
                    r == Ok::<CatalogLoad, String>(CatalogLoad { catalog, from_cache: true, path })
                } else {
                    r matches Err(m) && m@ == no_catalog_text(
                        fetch_err@,
                        other_schema_text(catalog.schema_version),
                    )
                },
                Err(cache_err) => r matches Err(m) && m@ == no_catalog_text(
                    fetch_err@,
                    cache_err@,
                ),
            },
        },
{
    match fetched {
        Ok(catalog) => Ok(CatalogLoad { catalog, from_cache: false, path }),
        Err(fetch_err) => match stale {
            Ok(catalog) => if catalog.schema_version == CATALOG_SCHEMA_VERSION {
                Ok(CatalogLoad { catalog, from_cache: true, path })
            } else {
                let why = other_schema_message(catalog.schema_version);
                Err(no_catalog_message(fetch_err.as_str(), why.as_str()))
            },
            Err(cache_err) => Err(no_catalog_message(fetch_err.as_str(), cache_err.as_str())),
        },
    }
}

/// What was current at a time stays fresh for a whole number of hours from
/// then on, the end excluded, and is not fresh before that time.
pub proof fn law_freshness(since: u64, now: u64, ttl_hours: u64)
    requires
        ttl_hours * 3600 <= u64::MAX,
    ensures
        still_fresh(since, now, ttl_hours) <==> since <= now < since + ttl_hours * 60 * 60,
{
}

/// A time to live that is too long to be counted lasts for as long as can be.
pub proof fn law_longest_freshness(since: u64, now: u64, ttl_hours: u64)
    requires
        ttl_hours * 3600 > u64::MAX,
    ensures
        still_fresh(since, now, ttl_hours) <==> since <= now && now - since < u64::MAX,
{
}

/// A file's path has one slash between the directory and the name, and none
/// where no directory is given.
pub proof fn law_joined_path(home: Seq<char>, name: Seq<char>)
    ensures
        home.len() > 0 && home.last() != '/' ==> joined_path(home, name) == home.push('/') + name
            && joined_path(home.push('/'), name) == home.push('/') + name,
        joined_path(Seq::empty(), name) == name,
{
    reveal_strlit("/");
    assert(home + "/"@ =~= home.push('/'));
    assert(Seq::<char>::empty() + name =~= name);
}

/// The messages tell what failed: the path of a cache that an offline load
/// needs, the address and the status of a fetch, and both reasons where
/// neither fetch nor cache serves.
pub proof fn law_messages(
    path: Seq<char>,
    url: Seq<char>,
    status: Seq<char>,
    fetch_err: Seq<char>,
    cache_err: Seq<char>,
    version: u32,
)
    ensures
        text::has_suffix(offline_text(path), path),
        text::has_suffix(fetch_status_text(url, status), status),
        text::occurs(fetch_status_text(url, status), url),
        text::occurs(no_catalog_text(fetch_err, cache_err), fetch_err),
        text::occurs(no_catalog_text(fetch_err, cache_err), cache_err),
        text::occurs(other_schema_text(version), text::decimal(version as nat)),
        text::has_suffix(other_schema_text(version), text::decimal(1)),
{
    text_laws::law_prefix_and_suffix(
        "models_dev: offline mode and cache missing or stale at "@,
        path,
    );
    let a = "models_dev: fetch "@;
    let b = " returned HTTP "@;
    text_laws::law_prefix_and_suffix(a + url + b, status);
    text_laws::law_occurs(fetch_status_text(url, status), url);
    assert(fetch_status_text(url, status) =~= a + url + (b + status));
    let c = "models_dev: fetch failed ("@;
    let d = ") and cache unreadable ("@;
    let e = ")"@;
    let all = no_catalog_text(fetch_err, cache_err);
    text_laws::law_occurs(all, fetch_err);
    assert(all =~= c + fetch_err + (d + cache_err + e));
    text_laws::law_occurs(all, cache_err);
    assert(all =~= (c + fetch_err + d) + cache_err + e);
    let v = text::decimal(version as nat);
    let f = "schema_version="@;
    let g = ", expected "@;
    text_laws::law_prefix_and_suffix(f + v + g, text::decimal(1));
    text_laws::law_occurs(other_schema_text(version), v);
    assert(other_schema_text(version) =~= f + v + (g + text::decimal(1)));
}

/// The catalog knows a model just where it lists the provider and the
/// provider's part lists the model.
pub proof fn law_known_models(c: ModelsDevCatalog, provider: Seq<char>, model: Seq<char>)
    ensures
        !c.providers@.dom().contains(provider) ==> !knows(c, provider, model),
        c.providers@.dom().contains(provider) ==> (knows(c, provider, model)
            <==> c.providers@[provider].models@.dom().contains(model)),
{
}

} // verus!
