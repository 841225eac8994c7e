//! The level-filter decorator: per record, it resolves the effective minimum
//! level — the module's own setting if the record names a module that has
//! one, the default level otherwise — and forwards the record exactly when
//! its severity reaches that threshold.

use vstd::prelude::*;

use crate::level::Level;
use crate::level_map::ModLevelMap;
use crate::text::str_eq;

verus! {

/// The view of an optional module name.
pub open spec fn opt_str_view(s: Option<&str>) -> Option<Seq<char>> {
    match s {
        Some(x) => Some(x@),
        None => None,
    }
}

/// The effective minimum level for a record: the module's setting where the
/// record names a module that has one, the default level otherwise.
pub open spec fn effective_level_spec(
    filters: Map<Seq<char>, Level>,
    default_level: Level,
    mod_name: Option<Seq<char>>,
) -> Level {
    match mod_name {
        Some(m) => if filters.contains_key(m) {
            filters[m]
        } else {
            default_level
        },
        None => default_level,
    }
}

/// Whether a record of severity `severity` passes the filter: it must be at
/// least as severe as the effective minimum level.
pub open spec fn forwards(
    filters: Map<Seq<char>, Level>,
    default_level: Level,
    mod_name: Option<Seq<char>>,
    severity: Level,
) -> bool {
    severity.severity() >= effective_level_spec(filters, default_level, mod_name).severity()
}

/// How the decorator reports what the downstream sink returned for a
/// forwarded record: the sink's own outcome, unchanged in kind.
pub open spec fn wrap_spec<O, E>(r: Result<O, E>) -> Result<Option<O>, Option<E>> {
    match r {
        Ok(o) => Ok(Some(o)),
        Err(e) => Err(Some(e)),
    }
}

/// A sink decorator that drops records below a per-module minimum severity
/// level. It owns the downstream sink, the name of the key under which a
/// record's context carries its module name, a default level, and the
/// module-level map; none of these change after construction.
pub struct ModLevelFilter<D> {
    drain: D,
    mod_key: String,
    default_level: Level,
    filters: ModLevelMap,
}

impl<D> ModLevelFilter<D> {
    /// The downstream sink.
    pub closed spec fn spec_drain(&self) -> D {
        self.drain
    }

    /// The name of the context key that carries a record's module name.
    pub closed spec fn spec_mod_key(&self) -> Seq<char> {
        self.mod_key@
    }

    /// The level required of records from modules the map does not name.
    pub closed spec fn spec_default_level(&self) -> Level {
        self.default_level
    }

    /// The module-level map.
    pub closed spec fn spec_filters(&self) -> Map<Seq<char>, Level> {
        self.filters@
    }

    /// Builds a filter from the downstream sink, the module-key name, the
    /// default level and the module-level map.
    pub fn new(drain: D, mod_key: String, default_level: Level, filters: ModLevelMap) -> (f: Self)
        ensures
            f.spec_drain() == drain,
            f.spec_mod_key() == mod_key@,
            f.spec_default_level() == default_level,
            f.spec_filters() == filters@,
    {
        ModLevelFilter { drain, mod_key, default_level, filters }
    }

    /// The effective minimum level for a record that names `mod_name` as its
    /// module (or names none).
    pub fn effective_level(&self, mod_name: Option<&str>) -> (l: Level)
        ensures
            l == effective_level_spec(
                self.spec_filters(),
                self.spec_default_level(),
                opt_str_view(mod_name),
            ),
    {
        if self.filters.is_empty() {
            // With no module levels set there is nothing to look up.
            self.default_level
        } else {
            match mod_name {
                Some(m) => match self.filters.get(m) {
                    Some(l) => l,
                    None => self.default_level,
                },
                None => self.default_level,
            }
        }
    }

    /// Whether a record of severity `severity` naming `mod_name` as its
    /// module is forwarded to the downstream sink.
    pub fn should_forward(&self, severity: Level, mod_name: Option<&str>) -> (b: bool)
        ensures
            b == forwards(
                self.spec_filters(),
                self.spec_default_level(),
                opt_str_view(mod_name),
                severity,
            ),
    {
        let threshold = self.effective_level(mod_name);
        severity.is_at_least(threshold)
    }

    /// Whether any module has its own level set: when none has, a record's
    /// context need not be inspected at all.
    pub fn has_overrides(&self) -> (b: bool)
        ensures
            b == (self.spec_filters() != Map::<Seq<char>, Level>::empty()),
    {
        !self.filters.is_empty()
    }

    /// The downstream sink, for forwarding a record that passed.
    pub fn drain(&self) -> (d: &D)
        ensures
            *d == self.spec_drain(),
    {
        &self.drain
    }

    /// The name of the context key that carries a record's module name.
    pub fn mod_key(&self) -> (k: &str)
        ensures
            k@ == self.spec_mod_key(),
    {
        self.mod_key.as_str()
    }

    /// The level required of records from modules the map does not name.
    pub fn default_level(&self) -> (l: Level)
        ensures
            l == self.spec_default_level(),
    {
        self.default_level
    }
}

/// One step of the module-name extraction while a record's key-value context
/// is walked: a string value under the module key replaces whatever an
/// earlier layer found (the last match wins), and any other entry changes
/// nothing.
pub fn observe_entry(current: Option<String>, mod_key: &str, key: &str, val: &str) -> (r: Option<
    String,
>)
    ensures
        key@ == mod_key@ ==> (r matches Some(s) && s@ == val@),
        key@ != mod_key@ ==> r == current,
{
    if str_eq(key, mod_key) {
        Some(val.to_owned())
    } else {
        current
    }
}

/// Wraps what the downstream sink returned for a forwarded record: a success
/// stays a success, and a failure is surfaced unchanged in kind.
pub fn wrap_forwarded<O, E>(r: Result<O, E>) -> (w: Result<Option<O>, Option<E>>)
    ensures
        w == wrap_spec(r),
{
    match r {
        Ok(o) => Ok(Some(o)),
        Err(e) => Err(Some(e)),
    }
}

/// The result reported for a dropped record: a success meaning "nothing
/// forwarded", distinct from every wrapped downstream outcome.
pub fn dropped_result<O, E>() -> (w: Result<Option<O>, Option<E>>)
    ensures
        w == Ok::<Option<O>, Option<E>>(None),
{
    Ok(None)
}

/// The decorator is transparent about the downstream sink's outcome for a
/// forwarded record: a failure is surfaced to the caller as exactly the
/// sink's own error, and a success as exactly the sink's own value.
pub proof fn lemma_error_transparency<O, E>(r: Result<O, E>)
    ensures
        (r matches Err(e) ==> wrap_spec(r) == Err::<Option<O>, Option<E>>(Some(e))),
        (r matches Ok(o) ==> wrap_spec(r) == Ok::<Option<O>, Option<E>>(Some(o))),
{
}

/// With an empty module-level map the filter is a plain global-level filter:
/// the effective threshold is the default level whatever module a record
/// names, and a record is forwarded exactly when its severity reaches the
/// default level.
pub proof fn lemma_default_level_passthrough(
    default_level: Level,
    mod_name: Option<Seq<char>>,
    severity: Level,
)
    ensures
        effective_level_spec(Map::<Seq<char>, Level>::empty(), default_level, mod_name)
            == default_level,
        forwards(Map::<Seq<char>, Level>::empty(), default_level, mod_name, severity) == (
        severity.severity() >= default_level.severity()),
{
}

/// A record from a module with its own level is filtered at that level; one
/// from an untracked module, or from no module, at the default level.
pub proof fn lemma_override_precedence(
    filters: Map<Seq<char>, Level>,
    default_level: Level,
    m: Seq<char>,
)
    ensures
        filters.contains_key(m) ==> effective_level_spec(filters, default_level, Some(m))
            == filters[m],
        !filters.contains_key(m) ==> effective_level_spec(filters, default_level, Some(m))
            == default_level,
        effective_level_spec(filters, default_level, None::<Seq<char>>) == default_level,
{
}

/// A record whose severity exactly equals the effective threshold is
/// forwarded: the comparison is inclusive, not strict.
pub proof fn lemma_boundary_forwarded(
    filters: Map<Seq<char>, Level>,
    default_level: Level,
    mod_name: Option<Seq<char>>,
    severity: Level,
)
    requires
        severity == effective_level_spec(filters, default_level, mod_name),
    ensures
        forwards(filters, default_level, mod_name, severity),
{
}

} // verus!
