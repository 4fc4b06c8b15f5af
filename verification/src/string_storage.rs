//! How string values read from Parquet are materialized as Ruby strings, and
//! the bounded bookkeeping behind each materialization mode.
//!
//! `Shared` hands Ruby zero-copy views of leaked `'static` bytes. One copy of
//! each distinct value is leaked into a process-wide [`SharedLeakRegistry`];
//! each read owns a [`SharedLeakInterner`] that enforces the read's own entry
//! and value-size budget before it consults the registry. Hard process
//! ceilings bound the registry whatever budgets readers request.

use crate::text::{byte_len, byte_length, push_char, push_str, str_eq};
use vstd::string::StrSliceExecFns;
use crate::textset::{
    lemma_distinct_no_duplicates, lemma_distinct_push, lemma_holds_contains, lemma_texts_push,
    texts_of, TextSet,
};
use vstd::prelude::*;

verus! {

/// Default cap on how many distinct strings one `Shared` read may return as
/// leaked zero-copy views.
pub const DEFAULT_SHARED_MAX_ENTRIES: usize = 8192;

/// Default cap on the byte size of a single string that `Shared` leaks.
pub const DEFAULT_SHARED_MAX_VALUE_BYTES: usize = 4096;

/// Hard process-wide ceiling on leaked `Shared` strings.
pub const SHARED_PROCESS_MAX_ENTRIES: usize = 65536;

/// Hard process-wide ceiling on leaked `Shared` bytes (each value counts one
/// extra byte for its NUL terminator).
pub const SHARED_PROCESS_MAX_BYTES: usize = 64 * 1024 * 1024;

/// Per-read ceiling on remembered `Shared` fallbacks.
pub const SHARED_FALLBACK_CACHE_ENTRY_COUNT_MAX: usize = 8192;

/// Per-read ceiling on the bytes of remembered `Shared` fallbacks.
pub const SHARED_FALLBACK_CACHE_RETAINED_BYTES_MAX: usize = 4 * 1024 * 1024;

/// Cache bound for interned string values.
pub const INTERN_VALUE_CACHE_ENTRY_COUNT_MAX: usize = 8192;

/// Cache bound for interned hash keys (struct field names).
pub const KEY_CACHE_ENTRY_COUNT_MAX: usize = 4096;

/// How a Rust string value becomes a Ruby `String` when reading.
#[derive(Clone, Copy, Debug, PartialEq, Eq, Structural)]
pub enum StringStorageMode {
    /// A fresh, mutable Ruby string per value.
    Copy,
    /// Equal values share one interned (frozen) Ruby string, up to a bound.
    Intern,
    /// Equal values share leaked `'static` bytes, within per-read budgets and
    /// process ceilings.
    Shared,
}

/// The mode named by `t`, if any.
pub open spec fn mode_named(t: Seq<char>) -> Option<StringStorageMode> {
    if t == "copy"@ {
        Some(StringStorageMode::Copy)
    } else if t == "intern"@ {
        Some(StringStorageMode::Intern)
    } else if t == "shared"@ {
        Some(StringStorageMode::Shared)
    } else {
        None
    }
}

/// The name of a mode.
pub open spec fn mode_name(m: StringStorageMode) -> Seq<char> {
    match m {
        StringStorageMode::Copy => "copy"@,
        StringStorageMode::Intern => "intern"@,
        StringStorageMode::Shared => "shared"@,
    }
}

impl Default for StringStorageMode {
    fn default() -> (r: Self)
        ensures
            r == StringStorageMode::Copy,
    {
        StringStorageMode::Copy
    }
}

impl StringStorageMode {
    /// Parse a mode from its name.
    pub fn from_str(value: &str) -> (r: Result<StringStorageMode, String>)
        ensures
            match r {
                Ok(m) => mode_named(value@) == Some(m),
                Err(msg) => mode_named(value@) is None && msg@ == "Invalid string_storage: "@
                    + value@ + " (expected :copy, :intern, or :shared)"@,
            },
    {
        if str_eq(value, "copy") {
            Ok(StringStorageMode::Copy)
        } else if str_eq(value, "intern") {
            Ok(StringStorageMode::Intern)
        } else if str_eq(value, "shared") {
            Ok(StringStorageMode::Shared)
        } else {
            let mut msg = String::new();
            push_str(&mut msg, "Invalid string_storage: ");
            push_str(&mut msg, value);
            push_str(&mut msg, " (expected :copy, :intern, or :shared)");
            Err(msg)
        }
    }

    /// The mode's name.
    pub fn name(&self) -> (r: &'static str)
        ensures
            r@ == mode_name(*self),
    {
        match self {
            StringStorageMode::Copy => "copy",
            StringStorageMode::Intern => "intern",
            StringStorageMode::Shared => "shared",
        }
    }

    /// The mode's name as an owned string.
    pub fn to_string(&self) -> (r: String)
        ensures
            r@ == mode_name(*self),
    {
        let mut s = String::new();
        push_str(&mut s, self.name());
        s
    }
}

/// Naming a mode and parsing the name gives the mode back.
pub proof fn law_mode_name_round_trips(m: StringStorageMode)
    ensures
        mode_named(mode_name(m)) == Some(m),
{
    reveal_strlit("copy");
    reveal_strlit("intern");
    reveal_strlit("shared");
    assert("intern"@.len() != "copy"@.len());
    assert("shared"@.len() != "copy"@.len());
    assert("shared"@[0] != "intern"@[0]);
}

/// A read's string-materialization configuration: the mode plus the budget
/// that bounds `Shared` values for the read.
#[derive(Clone, Copy, Debug, PartialEq, Eq, Structural)]
pub struct StringStorageConfig {
    pub mode: StringStorageMode,
    pub shared_max_entries: usize,
    pub shared_max_value_bytes: usize,
}

impl Default for StringStorageConfig {
    fn default() -> (r: Self)
        ensures
            r.mode == StringStorageMode::Copy,
            r.shared_max_entries == DEFAULT_SHARED_MAX_ENTRIES,
            r.shared_max_value_bytes == DEFAULT_SHARED_MAX_VALUE_BYTES,
    {
        StringStorageConfig {
            mode: StringStorageMode::Copy,
            shared_max_entries: DEFAULT_SHARED_MAX_ENTRIES,
            shared_max_value_bytes: DEFAULT_SHARED_MAX_VALUE_BYTES,
        }
    }
}

impl StringStorageConfig {
    /// A configuration for `mode` with the default shared budget.
    pub fn from_mode(mode: StringStorageMode) -> (r: Self)
        ensures
            r.mode == mode,
            r.shared_max_entries == DEFAULT_SHARED_MAX_ENTRIES,
            r.shared_max_value_bytes == DEFAULT_SHARED_MAX_VALUE_BYTES,
    {
        StringStorageConfig {
            mode,
            shared_max_entries: DEFAULT_SHARED_MAX_ENTRIES,
            shared_max_value_bytes: DEFAULT_SHARED_MAX_VALUE_BYTES,
        }
    }
}

/// Give up ownership of `s` so that its bytes live for the rest of the
/// process (`String::leak`).
#[verifier::external_body]
fn leak_string(s: String) -> (r: &'static str)
    ensures
        r@ == s@,
{
    s.leak()
}

/// Leak one copy of `s` followed by a NUL byte and return a `'static` view
/// of the copy without the NUL. Ruby's static-string constructor reads the
/// byte after the view and expects it to be NUL.
fn leak_nul_terminated(s: &str) -> (r: &'static str)
    ensures
        r@ == s@,
{
    let mut owned = String::new();
    push_str(&mut owned, s);
    push_char(&mut owned, '\0');
    let leaked = leak_string(owned);
    let n = s.unicode_len();
    let r = leaked.substring_char(0, n);
    proof {
        assert(s@.push('\0').subrange(0, n as int) =~= s@);
    }
    r
}


/// What the process-wide registry holds: the leaked texts in the order they
/// were leaked, and the bytes leaked for them.
pub struct RegistryModel {
    pub entries: Seq<Seq<char>>,
    pub leaked_bytes: nat,
}

/// Bytes leaked for `ts`: each text plus its NUL terminator.
pub open spec fn leaked_bytes_of(ts: Seq<Seq<char>>) -> nat
    decreases ts.len(),
{
    if ts.len() == 0 {
        0
    } else {
        leaked_bytes_of(ts.drop_last()) + byte_len(ts.last()) + 1
    }
}

/// Bytes retained for `ts`.
pub open spec fn retained_bytes_of(ts: Seq<Seq<char>>) -> nat
    decreases ts.len(),
{
    if ts.len() == 0 {
        0
    } else {
        retained_bytes_of(ts.drop_last()) + byte_len(ts.last())
    }
}

pub open spec fn min_int(a: int, b: int) -> int {
    if a <= b {
        a
    } else {
        b
    }
}

/// How many entries the registry may hold when a read with entry budget
/// `max_entries` asks it to leak a value.
pub open spec fn registry_entry_limit(max_entries: int) -> int {
    min_int(max_entries, SHARED_PROCESS_MAX_ENTRIES as int)
}

/// How many bytes the registry may hold when a read with budget
/// `max_entries` x `max_value_bytes` asks it to leak a value.
pub open spec fn registry_byte_limit(max_entries: int, max_value_bytes: int) -> int {
    min_int(max_entries * (max_value_bytes + 1), SHARED_PROCESS_MAX_BYTES as int)
}

/// Whether the registry has room to leak `s` for a read with the given budget.
pub open spec fn registry_admits(
    m: RegistryModel,
    s: Seq<char>,
    max_entries: int,
    max_value_bytes: int,
) -> bool {
    &&& byte_len(s) + 1 <= usize::MAX
    &&& m.entries.len() < registry_entry_limit(max_entries)
    &&& m.leaked_bytes + byte_len(s) + 1 <= registry_byte_limit(max_entries, max_value_bytes)
}

/// One request to the registry: the registry afterwards, and whether it
/// hands back a leaked view of `s`. A value already leaked is handed back
/// unchanged; a new one is leaked only while the read's budget and the
/// process ceilings leave room.
pub open spec fn registry_step(
    m: RegistryModel,
    s: Seq<char>,
    max_entries: int,
    max_value_bytes: int,
) -> (RegistryModel, bool) {
    if m.entries.contains(s) {
        (m, true)
    } else if registry_admits(m, s, max_entries, max_value_bytes) {
        (
            RegistryModel {
                entries: m.entries.push(s),
                leaked_bytes: m.leaked_bytes + byte_len(s) + 1,
            },
            true,
        )
    } else {
        (m, false)
    }
}

/// The registry's invariant: each value leaked once, the byte count exact,
/// and both process ceilings respected.
pub open spec fn registry_wf(m: RegistryModel) -> bool {
    &&& m.entries.no_duplicates()
    &&& m.entries.len() <= SHARED_PROCESS_MAX_ENTRIES
    &&& m.leaked_bytes == leaked_bytes_of(m.entries)
    &&& m.leaked_bytes <= SHARED_PROCESS_MAX_BYTES
}




/// The process-wide registry of leaked `'static` string bytes.
pub struct SharedLeakRegistry {
    entries: TextSet<&'static str>,
    leaked_bytes: usize,
}

impl View for SharedLeakRegistry {
    type V = RegistryModel;

    closed spec fn view(&self) -> RegistryModel {
        RegistryModel { entries: texts_of(self.entries.keys()), leaked_bytes: self.leaked_bytes as nat }
    }
}

impl SharedLeakRegistry {
    /// An empty registry.
    pub fn new() -> (r: Self)
        ensures
            r@.entries == Seq::<Seq<char>>::empty(),
            r@.leaked_bytes == 0,
            registry_wf(r@),
    {
        let r = SharedLeakRegistry { entries: TextSet::new(), leaked_bytes: 0 };
        proof {
            assert(texts_of(r.entries.keys()) =~= Seq::<Seq<char>>::empty());
        }
        r
    }

    /// How many values have been leaked.
    pub fn len(&self) -> (r: usize)
        ensures
            r == self@.entries.len(),
    {
        self.entries.len()
    }

    /// How many bytes have been leaked.
    pub fn leaked_bytes(&self) -> (r: usize)
        ensures
            r == self@.leaked_bytes,
    {
        self.leaked_bytes
    }

    /// A `'static` view of `s`: the one leaked before if there is one, else a
    /// new NUL-terminated leaked copy when the read's budget
    /// (`requested_max_entries` values of at most `requested_max_value_bytes`
    /// bytes) and the process ceilings leave room; `None` otherwise.
    pub fn intern(&mut self, s: &str, requested_max_entries: usize, requested_max_value_bytes: usize) -> (r: Option<&'static str>)
        requires
            registry_wf(old(self)@),
        ensures
            registry_step(old(self)@, s@, requested_max_entries as int, requested_max_value_bytes as int)
                == (final(self)@, r is Some),
            r matches Some(t) ==> t@ == s@,
            registry_wf(final(self)@),
    {
        let ghost old_m = self@;
        proof {
            lemma_holds_contains(self.entries.keys(), s@);
        }
        match self.entries.find(s) {
            Some(i) => {
                let existing: &'static str = *self.entries.get(i);
                return Some(existing);
            },
            None => {},
        }
        let entry_limit = if requested_max_entries < SHARED_PROCESS_MAX_ENTRIES {
            requested_max_entries
        } else {
            SHARED_PROCESS_MAX_ENTRIES
        };
        let bytes_per_value = if requested_max_value_bytes < usize::MAX {
            requested_max_value_bytes + 1
        } else {
            usize::MAX
        };
        let requested_byte_limit = match requested_max_entries.checked_mul(bytes_per_value) {
            Some(v) => v,
            None => usize::MAX,
        };
        let byte_limit = if requested_byte_limit < SHARED_PROCESS_MAX_BYTES {
            requested_byte_limit
        } else {
            SHARED_PROCESS_MAX_BYTES
        };
        proof {
            lemma_byte_limit(requested_max_entries, requested_max_value_bytes, bytes_per_value, requested_byte_limit, byte_limit);
        }
        let len = byte_length(s);
        if len == usize::MAX {
            return None;
        }
        let entry_bytes = len + 1;
        if self.entries.len() >= entry_limit {
            return None;
        }
        if self.leaked_bytes > byte_limit || entry_bytes > byte_limit - self.leaked_bytes {
            return None;
        }
        let leaked = leak_nul_terminated(s);
        proof {
            lemma_texts_push(self.entries.keys(), leaked);
            lemma_distinct_no_duplicates(self.entries.keys());
            lemma_holds_contains(self.entries.keys(), leaked@);
            lemma_distinct_push(self.entries.keys(), leaked);
            lemma_distinct_no_duplicates(self.entries.keys().push(leaked));
            let ts = texts_of(self.entries.keys()).push(s@);
            assert(ts.drop_last() =~= texts_of(self.entries.keys()));
        }
        self.entries.push(leaked);
        self.leaked_bytes = self.leaked_bytes + entry_bytes;
        proof {
            assert(self@.entries =~= old_m.entries.push(s@));
            assert(self@.leaked_bytes == old_m.leaked_bytes + byte_len(s@) + 1);
            assert(registry_admits(old_m, s@, requested_max_entries as int, requested_max_value_bytes as int));
        }
        Some(leaked)
    }
}

/// The byte limit computed with saturating arithmetic equals the exact one.
proof fn lemma_byte_limit(me: usize, mv: usize, per: usize, req: usize, lim: usize)
    requires
        per == (if mv < usize::MAX { mv + 1 } else { usize::MAX as int }),
        req == (if me * per <= usize::MAX { me * per } else { usize::MAX as int }),
        lim == min_int(req as int, SHARED_PROCESS_MAX_BYTES as int),
    ensures
        lim == registry_byte_limit(me as int, mv as int),
{
    assert(SHARED_PROCESS_MAX_BYTES < usize::MAX);
    if mv < usize::MAX {
        assert(per == mv + 1);
    } else {
        if me == 0 {
            assert(me * per == 0);
            assert(me * (mv + 1) == 0);
        } else {
            assert(me * per >= per) by (nonlinear_arith)
                requires
                    me >= 1,
            ;
            assert(me * (mv + 1) >= mv + 1) by (nonlinear_arith)
                requires
                    me >= 1,
            ;
        }
    }
}

/// What a read's interner holds: the texts it returns as leaked views, the
/// texts it remembers as known fallbacks, the bytes of those fallbacks, and
/// the read's budget.
pub struct InternerModel {
    pub entries: Seq<Seq<char>>,
    pub fallbacks: Seq<Seq<char>>,
    pub fallback_bytes: nat,
    pub max_entries: nat,
    pub max_value_bytes: nat,
}

/// Remembering `s` as a fallback: it is kept only if it fits the read's
/// value bound and the fallback cache has room for it.
pub open spec fn remember_fallback_step(m: InternerModel, s: Seq<char>) -> InternerModel {
    if byte_len(s) > m.max_value_bytes {
        m
    } else if m.fallbacks.len() >= SHARED_FALLBACK_CACHE_ENTRY_COUNT_MAX {
        m
    } else if m.fallback_bytes + byte_len(s) > SHARED_FALLBACK_CACHE_RETAINED_BYTES_MAX {
        m
    } else if m.fallbacks.contains(s) {
        m
    } else {
        InternerModel {
            fallbacks: m.fallbacks.push(s),
            fallback_bytes: m.fallback_bytes + byte_len(s),
            ..m
        }
    }
}

/// The fallback cache of a read stays bounded: remembering `s` (the step
/// `SharedLeakInterner::remember_fallback` takes, for a value not leaked by
/// the read) keeps at most `SHARED_FALLBACK_CACHE_ENTRY_COUNT_MAX`
/// values, each within the read's value bound, whose byte count is kept
/// exactly and stays within `SHARED_FALLBACK_CACHE_RETAINED_BYTES_MAX`; `s`
/// is added exactly when it fits the value bound, is not there yet, and
/// both bounds still hold with it, and otherwise nothing changes.
pub proof fn law_fallback_cache_bounded(m: InternerModel, s: Seq<char>)
    requires
        interner_wf(m),
        !m.entries.contains(s),
    ensures
        interner_wf(remember_fallback_step(m, s)),
        remember_fallback_step(m, s).entries == m.entries,
        remember_fallback_step(m, s).fallbacks == if byte_len(s) <= m.max_value_bytes
            && !m.fallbacks.contains(s) && m.fallbacks.len() + 1 <= SHARED_FALLBACK_CACHE_ENTRY_COUNT_MAX
            && m.fallback_bytes + byte_len(s) <= SHARED_FALLBACK_CACHE_RETAINED_BYTES_MAX {
            m.fallbacks.push(s)
        } else {
            m.fallbacks
        },
{
    let n = remember_fallback_step(m, s);
    if n.fallbacks != m.fallbacks {
        lemma_retained_push(m.fallbacks, s);
        assert(n.fallbacks == m.fallbacks.push(s));
        assert forall|i: int, j: int| 0 <= i < j < n.fallbacks.len() implies n.fallbacks[i] != n.fallbacks[j] by {
            if j == m.fallbacks.len() {
                assert(m.fallbacks.contains(n.fallbacks[i]) || i >= m.fallbacks.len());
            }
        }
        assert forall|t: Seq<char>| n.entries.contains(t) implies !n.fallbacks.contains(t) by {
            if n.fallbacks.contains(t) {
                let k = choose|k: int| 0 <= k < n.fallbacks.len() && n.fallbacks[k] == t;
                if k < m.fallbacks.len() {
                    assert(m.fallbacks.contains(t));
                }
            }
        }
        assert forall|i: int| 0 <= i < n.fallbacks.len() implies byte_len(#[trigger] n.fallbacks[i]) <= n.max_value_bytes by {
            if i < m.fallbacks.len() {
                assert(n.fallbacks[i] == m.fallbacks[i]);
            }
        }
    }
}

/// Whether a request for `s` must consult the process registry.
pub open spec fn interner_consults_registry(m: InternerModel, s: Seq<char>) -> bool {
    &&& !m.entries.contains(s)
    &&& !m.fallbacks.contains(s)
    &&& byte_len(s) <= m.max_value_bytes
    &&& m.entries.len() < m.max_entries
}

/// One request to a read's interner with the registry `r`: the interner and
/// registry afterwards, and whether a leaked view of `s` is returned.
pub open spec fn interner_step(m: InternerModel, r: RegistryModel, s: Seq<char>) -> (
    InternerModel,
    RegistryModel,
    bool,
) {
    if m.entries.contains(s) {
        (m, r, true)
    } else if m.fallbacks.contains(s) {
        (m, r, false)
    } else if byte_len(s) > m.max_value_bytes {
        (m, r, false)
    } else if m.entries.len() >= m.max_entries {
        (remember_fallback_step(m, s), r, false)
    } else {
        let (r2, leaked) = registry_step(r, s, m.max_entries as int, m.max_value_bytes as int);
        if leaked {
            (InternerModel { entries: m.entries.push(s), ..m }, r2, true)
        } else {
            (remember_fallback_step(m, s), r2, false)
        }
    }
}

/// A request for `s` answered without the registry (when
/// `interner_consults_registry` does not hold).
pub open spec fn interner_local_step(m: InternerModel, s: Seq<char>) -> (InternerModel, bool) {
    if m.entries.contains(s) {
        (m, true)
    } else if m.fallbacks.contains(s) || byte_len(s) > m.max_value_bytes {
        (m, false)
    } else {
        (remember_fallback_step(m, s), false)
    }
}

/// Answering without the registry is answering with any registry, left
/// unchanged.
pub proof fn lemma_local_step_agrees(m: InternerModel, r: RegistryModel, s: Seq<char>)
    requires
        !interner_consults_registry(m, s),
    ensures
        interner_step(m, r, s) == (interner_local_step(m, s).0, r, interner_local_step(m, s).1),
{
}

/// The interner's invariant.
pub open spec fn interner_wf(m: InternerModel) -> bool {
    &&& m.max_entries > 0
    &&& m.max_value_bytes > 0
    &&& m.entries.no_duplicates()
    &&& m.fallbacks.no_duplicates()
    &&& forall|t: Seq<char>| m.entries.contains(t) ==> !m.fallbacks.contains(t)
    &&& m.entries.len() <= m.max_entries
    &&& forall|i: int| 0 <= i < m.entries.len() ==> byte_len(#[trigger] m.entries[i]) <= m.max_value_bytes
    &&& forall|i: int| 0 <= i < m.fallbacks.len() ==> byte_len(#[trigger] m.fallbacks[i]) <= m.max_value_bytes
    &&& m.fallbacks.len() <= SHARED_FALLBACK_CACHE_ENTRY_COUNT_MAX
    &&& m.fallback_bytes == retained_bytes_of(m.fallbacks)
    &&& m.fallback_bytes <= SHARED_FALLBACK_CACHE_RETAINED_BYTES_MAX
}

/// A read's deduplicating, bounded interner of leaked `'static` strings.
pub struct SharedLeakInterner {
    entries: TextSet<&'static str>,
    fallbacks: TextSet<String>,
    fallback_bytes: usize,
    max_entries: usize,
    max_value_bytes: usize,
}

impl View for SharedLeakInterner {
    type V = InternerModel;

    closed spec fn view(&self) -> InternerModel {
        InternerModel {
            entries: texts_of(self.entries.keys()),
            fallbacks: texts_of(self.fallbacks.keys()),
            fallback_bytes: self.fallback_bytes as nat,
            max_entries: self.max_entries as nat,
            max_value_bytes: self.max_value_bytes as nat,
        }
    }
}

proof fn lemma_retained_push(ts: Seq<Seq<char>>, t: Seq<char>)
    ensures
        retained_bytes_of(ts.push(t)) == retained_bytes_of(ts) + byte_len(t),
{
    assert(ts.push(t).drop_last() =~= ts);
}

impl SharedLeakInterner {
    /// An interner for one read with the given budget; both limits are
    /// positive.
    pub fn new(max_entries: usize, max_value_bytes: usize) -> (r: Self)
        requires
            max_entries > 0,
            max_value_bytes > 0,
        ensures
            r@.entries == Seq::<Seq<char>>::empty(),
            r@.fallbacks == Seq::<Seq<char>>::empty(),
            r@.fallback_bytes == 0,
            r@.max_entries == max_entries,
            r@.max_value_bytes == max_value_bytes,
            interner_wf(r@),
    {
        let r = SharedLeakInterner {
            entries: TextSet::new(),
            fallbacks: TextSet::new(),
            fallback_bytes: 0,
            max_entries,
            max_value_bytes,
        };
        proof {
            assert(r@.entries =~= Seq::<Seq<char>>::empty());
            assert(r@.fallbacks =~= Seq::<Seq<char>>::empty());
        }
        r
    }

    /// How many values this read returns as leaked views.
    pub fn entry_count(&self) -> (r: usize)
        ensures
            r == self@.entries.len(),
    {
        self.entries.len()
    }

    /// How many fallbacks this read remembers.
    pub fn fallback_count(&self) -> (r: usize)
        ensures
            r == self@.fallbacks.len(),
    {
        self.fallbacks.len()
    }

    /// The bytes of the remembered fallbacks.
    pub fn fallback_bytes(&self) -> (r: usize)
        ensures
            r == self@.fallback_bytes,
    {
        self.fallback_bytes
    }

    /// Remember `s` as a value this read returns as a copy, while the
    /// fallback cache has room.
    fn remember_fallback(&mut self, s: &str)
        requires
            interner_wf(old(self)@),
            !old(self)@.entries.contains(s@),
        ensures
            final(self)@ == remember_fallback_step(old(self)@, s@),
            interner_wf(final(self)@),
    {
        let ghost old_m = self@;
        let len = byte_length(s);
        if len > self.max_value_bytes {
            return;
        }
        if self.fallbacks.len() >= SHARED_FALLBACK_CACHE_ENTRY_COUNT_MAX {
            return;
        }
        if len > SHARED_FALLBACK_CACHE_RETAINED_BYTES_MAX - self.fallback_bytes {
            return;
        }
        proof {
            lemma_holds_contains(self.fallbacks.keys(), s@);
        }
        if self.fallbacks.find(s).is_some() {
            return;
        }
        let owned = s.to_owned();
        proof {
            lemma_texts_push(self.fallbacks.keys(), owned);
            lemma_distinct_no_duplicates(self.fallbacks.keys());
            lemma_distinct_push(self.fallbacks.keys(), owned);
            lemma_distinct_no_duplicates(self.fallbacks.keys().push(owned));
            lemma_retained_push(old_m.fallbacks, s@);
        }
        self.fallbacks.push(owned);
        self.fallback_bytes = self.fallback_bytes + len;
        proof {
            assert(self@.fallbacks =~= old_m.fallbacks.push(s@));
            assert(self@ == remember_fallback_step(old_m, s@));
            assert forall|i: int| 0 <= i < self@.fallbacks.len() implies byte_len(#[trigger] self@.fallbacks[i]) <= self@.max_value_bytes by {
                if i < old_m.fallbacks.len() {
                    assert(self@.fallbacks[i] == old_m.fallbacks[i]);
                }
            }
        }
    }

    /// Whether a request for `s` needs the process registry.
    pub fn needs_registry(&self, s: &str) -> (r: bool)
        ensures
            r == interner_consults_registry(self@, s@),
    {
        proof {
            lemma_holds_contains(self.entries.keys(), s@);
            lemma_holds_contains(self.fallbacks.keys(), s@);
        }
        self.entries.find(s).is_none() && self.fallbacks.find(s).is_none() && byte_length(s)
            <= self.max_value_bytes && self.entries.len() < self.max_entries
    }

    /// Answer a request for `s` that does not need the process registry
    /// (see `needs_registry`).
    pub fn intern_local(&mut self, s: &str) -> (r: Option<&'static str>)
        requires
            interner_wf(old(self)@),
            !interner_consults_registry(old(self)@, s@),
        ensures
            interner_local_step(old(self)@, s@) == (final(self)@, r is Some),
            r matches Some(t) ==> t@ == s@,
            interner_wf(final(self)@),
    {
        proof {
            lemma_holds_contains(self.entries.keys(), s@);
            lemma_holds_contains(self.fallbacks.keys(), s@);
        }
        match self.entries.find(s) {
            Some(i) => {
                let existing: &'static str = *self.entries.get(i);
                return Some(existing);
            },
            None => {},
        }
        if self.fallbacks.find(s).is_some() {
            return None;
        }
        if byte_length(s) > self.max_value_bytes {
            return None;
        }
        self.remember_fallback(s);
        None
    }

    /// A `'static` view of `s` when the read's budget and the registry both
    /// have room for it (or it was leaked before); `None` when either bound
    /// is reached, in which case the caller copies the value.
    pub fn intern(&mut self, registry: &mut SharedLeakRegistry, s: &str) -> (r: Option<&'static str>)
        requires
            interner_wf(old(self)@),
            registry_wf(old(registry)@),
        ensures
            interner_step(old(self)@, old(registry)@, s@) == (final(self)@, final(registry)@, r is Some),
            r matches Some(t) ==> t@ == s@,
            interner_wf(final(self)@),
            registry_wf(final(registry)@),
    {
        let ghost old_m = self@;
        proof {
            lemma_holds_contains(self.entries.keys(), s@);
            lemma_holds_contains(self.fallbacks.keys(), s@);
        }
        match self.entries.find(s) {
            Some(i) => {
                let existing: &'static str = *self.entries.get(i);
                return Some(existing);
            },
            None => {},
        }
        if self.fallbacks.find(s).is_some() {
            return None;
        }
        if byte_length(s) > self.max_value_bytes {
            return None;
        }
        if self.entries.len() >= self.max_entries {
            self.remember_fallback(s);
            return None;
        }
        match registry.intern(s, self.max_entries, self.max_value_bytes) {
            Some(leaked) => {
                proof {
                    lemma_texts_push(self.entries.keys(), leaked);
                    lemma_distinct_no_duplicates(self.entries.keys());
                    lemma_distinct_push(self.entries.keys(), leaked);
                    lemma_distinct_no_duplicates(self.entries.keys().push(leaked));
                }
                self.entries.push(leaked);
                proof {
                    assert(self@.entries =~= old_m.entries.push(s@));
                    assert forall|i: int| 0 <= i < self@.entries.len() implies byte_len(#[trigger] self@.entries[i]) <= self@.max_value_bytes by {
                        if i < old_m.entries.len() {
                            assert(self@.entries[i] == old_m.entries[i]);
                        }
                    }
                    assert forall|t: Seq<char>| self@.entries.contains(t) implies !self@.fallbacks.contains(t) by {
                        if t != s@ {
                            let k = choose|k: int| 0 <= k < self@.entries.len() && self@.entries[k] == t;
                            assert(old_m.entries[k] == t);
                        }
                    }
                }
                Some(leaked)
            },
            None => {
                self.remember_fallback(s);
                None
            },
        }
    }
}

/// Once a read has returned a leaked view of a value, asking again returns a
/// view again and changes neither the read's interner nor the registry.
pub proof fn law_interner_hit_is_stable(m: InternerModel, r: RegistryModel, s: Seq<char>)
    requires
        interner_wf(m),
        registry_wf(r),
    ensures
        ({
            let (m2, r2, leaked) = interner_step(m, r, s);
            leaked ==> interner_step(m2, r2, s) == (m2, r2, true)
        }),
{
    let (m2, r2, leaked) = interner_step(m, r, s);
    if leaked && !m.entries.contains(s) {
        assert(m2.entries == m.entries.push(s));
        assert(m2.entries[m.entries.len() as int] == s);
        assert(m2.entries.contains(s));
    }
}

/// Once a read has answered a value with a copy, asking again with the same
/// registry answers with a copy again, changes nothing, and the first
/// request leaked nothing.
pub proof fn law_interner_miss_is_stable(m: InternerModel, r: RegistryModel, s: Seq<char>)
    requires
        interner_wf(m),
        registry_wf(r),
    ensures
        ({
            let (m2, r2, leaked) = interner_step(m, r, s);
            !leaked ==> r2 == r && interner_step(m2, r2, s) == (m2, r2, false)
        }),
{
    let (m2, r2, leaked) = interner_step(m, r, s);
    if !leaked && !m.entries.contains(s) && !m.fallbacks.contains(s) && byte_len(s) <= m.max_value_bytes {
        assert(m2 == remember_fallback_step(m, s));
        assert(m2.entries == m.entries);
        if m2.fallbacks.len() > m.fallbacks.len() {
            assert(m2.fallbacks == m.fallbacks.push(s));
            assert(m2.fallbacks[m.fallbacks.len() as int] == s);
            assert(m2.fallbacks.contains(s));
        } else {
            assert(m2 == m);
        }
    }
}

/// A request never takes a value out of the registry: what was leaked stays
/// leaked, at most the requested value is added, and the registry is shared
/// by every read rather than reset for each.
pub proof fn law_registry_only_grows(m: InternerModel, r: RegistryModel, s: Seq<char>)
    ensures
        ({
            let (m2, r2, leaked) = interner_step(m, r, s);
            r2.entries == r.entries || r2.entries == r.entries.push(s)
        }),
{
}

/// A leaked view is only ever returned for a value within the current read's
/// value bound, and the read's leaked values never exceed its entry budget,
/// whatever earlier reads leaked into the registry.
pub proof fn law_views_respect_read_budget(m: InternerModel, r: RegistryModel, s: Seq<char>)
    requires
        interner_wf(m),
        registry_wf(r),
    ensures
        ({
            let (m2, r2, leaked) = interner_step(m, r, s);
            &&& leaked ==> byte_len(s) <= m.max_value_bytes
            &&& m2.entries.len() <= m.max_entries
        }),
{
    let (m2, r2, leaked) = interner_step(m, r, s);
    if leaked && m.entries.contains(s) {
        let i = choose|i: int| 0 <= i < m.entries.len() && m.entries[i] == s;
        assert(byte_len(m.entries[i]) <= m.max_value_bytes);
    }
}

/// A bounded cache from text to the value made for it (the interned Ruby
/// string): at most `capacity` texts are cached, each with one value.
pub struct InternCache<V> {
    keys: TextSet<String>,
    values: Vec<V>,
    capacity: usize,
}

/// Where the cache holds the value for `t`, if it does.
pub open spec fn cached_at(texts: Seq<Seq<char>>, t: Seq<char>, i: int) -> bool {
    0 <= i < texts.len() && texts[i] == t
}

/// A key materialized through the key cache: a cached value, or a value made
/// afresh once the cache is full.
pub enum KeyValue<V> {
    Cached(usize),
    Fresh(V),
}

impl<V> InternCache<V> {
    /// The cached texts, in the order they were cached.
    pub closed spec fn texts(&self) -> Seq<Seq<char>> {
        texts_of(self.keys.keys())
    }

    /// The cached values, position for position with `texts`.
    pub closed spec fn values(&self) -> Seq<V> {
        self.values@
    }

    /// The most texts the cache holds.
    pub closed spec fn cap(&self) -> nat {
        self.capacity as nat
    }

    /// The cache's invariant.
    pub open spec fn wf(&self) -> bool {
        &&& self.texts().len() == self.values().len()
        &&& self.texts().len() <= self.cap()
        &&& self.texts().no_duplicates()
    }

    /// An empty cache for at most `capacity` texts.
    pub fn new(capacity: usize) -> (r: Self)
        ensures
            r.texts() == Seq::<Seq<char>>::empty(),
            r.values() == Seq::<V>::empty(),
            r.cap() == capacity,
            r.wf(),
    {
        let r = InternCache { keys: TextSet::new(), values: Vec::new(), capacity };
        proof {
            assert(r.texts() =~= Seq::<Seq<char>>::empty());
        }
        r
    }

    /// How many texts are cached.
    pub fn len(&self) -> (r: usize)
        requires
            self.wf(),
        ensures
            r == self.texts().len(),
    {
        self.keys.len()
    }

    /// The value cached at position `i`.
    pub fn value(&self, i: usize) -> (r: &V)
        requires
            self.wf(),
            i < self.texts().len(),
        ensures
            *r == self.values()[i as int],
    {
        &self.values[i]
    }

    /// The cached value for `s` if there is one; else, while there is room,
    /// the value `make` gives, cached for `s`; else `None`.
    pub fn intern_cached<F: FnOnce() -> V>(&mut self, s: &str, make: F) -> (r: Option<usize>)
        requires
            old(self).wf(),
            call_requires(make, ()),
        ensures
            final(self).wf(),
            final(self).cap() == old(self).cap(),
            old(self).texts().contains(s@) ==> {
                &&& final(self).texts() == old(self).texts()
                &&& final(self).values() == old(self).values()
                &&& r matches Some(i) && cached_at(old(self).texts(), s@, i as int)
            },
            !old(self).texts().contains(s@) && old(self).texts().len() < old(self).cap() ==> {
                &&& final(self).texts() == old(self).texts().push(s@)
                &&& final(self).values().drop_last() == old(self).values()
                &&& call_ensures(make, (), final(self).values().last())
                &&& r == Some(old(self).texts().len() as usize)
            },
            !old(self).texts().contains(s@) && old(self).texts().len() >= old(self).cap() ==> r
                is None && final(self).texts() == old(self).texts() && final(self).values() == old(
                self,
            ).values(),
    {
        let ghost old_texts = self.texts();
        let ghost old_values = self.values();
        proof {
            lemma_holds_contains(self.keys.keys(), s@);
        }
        match self.keys.find(s) {
            Some(i) => {
                return Some(i);
            },
            None => {},
        }
        if self.keys.len() >= self.capacity {
            return None;
        }
        let v = make();
        let owned = s.to_owned();
        proof {
            lemma_texts_push(self.keys.keys(), owned);
            lemma_distinct_no_duplicates(self.keys.keys());
            lemma_distinct_push(self.keys.keys(), owned);
            lemma_distinct_no_duplicates(self.keys.keys().push(owned));
        }
        let i = self.keys.len();
        self.keys.push(owned);
        self.values.push(v);
        proof {
            assert(self.texts() =~= old_texts.push(s@));
            assert(self.values().drop_last() =~= old_values);
        }
        Some(i)
    }

    /// The cached value for `s`, caching the value `make` gives while there
    /// is room; once the cache is full, a new text gets the value `make`
    /// gives without being cached.
    pub fn intern_key<F: FnOnce() -> V>(&mut self, s: &str, make: F) -> (r: KeyValue<V>)
        requires
            old(self).wf(),
            call_requires(make, ()),
        ensures
            final(self).wf(),
            final(self).cap() == old(self).cap(),
            old(self).texts().contains(s@) ==> {
                &&& final(self).texts() == old(self).texts()
                &&& final(self).values() == old(self).values()
                &&& r matches KeyValue::Cached(i) && cached_at(old(self).texts(), s@, i as int)
            },
            !old(self).texts().contains(s@) && old(self).texts().len() < old(self).cap() ==> {
                &&& final(self).texts() == old(self).texts().push(s@)
                &&& final(self).values().drop_last() == old(self).values()
                &&& call_ensures(make, (), final(self).values().last())
                &&& r == KeyValue::<V>::Cached(old(self).texts().len() as usize)
            },
            !old(self).texts().contains(s@) && old(self).texts().len() >= old(self).cap() ==> {
                &&& final(self).texts() == old(self).texts()
                &&& final(self).values() == old(self).values()
                &&& r matches KeyValue::Fresh(v) && call_ensures(make, (), v)
            },
    {
        proof {
            lemma_holds_contains(self.keys.keys(), s@);
        }
        if self.keys.find(s).is_none() && self.keys.len() >= self.capacity {
            return KeyValue::Fresh(make());
        }
        match self.intern_cached(s, make) {
            Some(i) => KeyValue::Cached(i),
            None => {
                proof {
                    assert(false);
                }
                KeyValue::Cached(0)
            },
        }
    }
}

/// Where a value cache puts the value for `t`: its position if cached, the
/// next position while there is room, and `None` once full.
pub open spec fn cache_slot(texts: Seq<Seq<char>>, cap: nat, t: Seq<char>) -> Option<int> {
    if texts.contains(t) {
        Some(choose|i: int| cached_at(texts, t, i))
    } else if texts.len() < cap {
        Some(texts.len() as int)
    } else {
        None
    }
}

/// The cache's texts after a request for `t`.
pub open spec fn cache_texts_after(texts: Seq<Seq<char>>, cap: nat, t: Seq<char>) -> Seq<Seq<char>> {
    if !texts.contains(t) && texts.len() < cap {
        texts.push(t)
    } else {
        texts
    }
}

/// Once a name has a slot in a key cache, asking for it again finds the
/// same slot and changes no text: a repeated key request is answered with
/// the value cached the first time (see `StringStorage::ruby_key`, which
/// keeps the values already cached).
pub proof fn law_key_slot_is_stable(texts: Seq<Seq<char>>, cap: nat, name: Seq<char>)
    requires
        texts.no_duplicates(),
        texts.len() <= cap,
        cache_slot(texts, cap, name) is Some,
    ensures
        cache_texts_after(cache_texts_after(texts, cap, name), cap, name) == cache_texts_after(texts, cap, name),
        cache_slot(cache_texts_after(texts, cap, name), cap, name) == cache_slot(texts, cap, name),
{
    if !texts.contains(name) {
        let after = texts.push(name);
        assert(after[texts.len() as int] == name);
        assert(after.contains(name));
        let j = choose|j: int| cached_at(after, name, j);
        assert(cached_at(after, name, texts.len() as int));
        if j != texts.len() {
            assert(after[j] == texts[j]);
            assert(texts.contains(name));
        }
    }
}

/// The per-mode state of string-value materialization.
pub enum ValueStrategy<V> {
    Copy,
    Intern(InternCache<V>),
    Shared(SharedLeakInterner),
}

/// How one string value is to be materialized as a Ruby string.
#[derive(PartialEq, Eq)]
pub enum StringValue {
    /// A fresh, mutable copy.
    Copy,
    /// The interned string cached at this position of the value cache.
    Interned(usize),
    /// A frozen owned copy.
    FrozenCopy,
    /// A frozen string viewing these leaked bytes.
    Static(&'static str),
    /// The process registry must decide (see `shared_string`).
    NeedsRegistry,
}

/// A read's string output: how string values are materialized (per the
/// configured mode) plus a cache that always interns hash keys (struct field
/// names). `V` is the type of a cached interned string.
pub struct StringStorage<V> {
    values: ValueStrategy<V>,
    keys: InternCache<V>,
}

impl<V> StringStorage<V> {
    /// The materialization mode.
    pub closed spec fn mode(&self) -> StringStorageMode {
        match self.values {
            ValueStrategy::Copy => StringStorageMode::Copy,
            ValueStrategy::Intern(_) => StringStorageMode::Intern,
            ValueStrategy::Shared(_) => StringStorageMode::Shared,
        }
    }

    /// The value cache of `Intern` mode.
    pub closed spec fn value_cache(&self) -> InternCache<V>
        recommends
            self.mode() == StringStorageMode::Intern,
    {
        match self.values {
            ValueStrategy::Intern(c) => c,
            _ => arbitrary(),
        }
    }

    /// The interner of `Shared` mode.
    pub closed spec fn interner(&self) -> InternerModel
        recommends
            self.mode() == StringStorageMode::Shared,
    {
        match self.values {
            ValueStrategy::Shared(i) => i@,
            _ => arbitrary(),
        }
    }

    /// The key cache.
    pub closed spec fn key_cache(&self) -> InternCache<V> {
        self.keys
    }

    /// The storage's invariant.
    pub closed spec fn wf(&self) -> bool {
        &&& self.keys.wf()
        &&& self.keys.cap() == KEY_CACHE_ENTRY_COUNT_MAX
        &&& match self.values {
            ValueStrategy::Copy => true,
            ValueStrategy::Intern(c) => c.wf() && c.cap() == INTERN_VALUE_CACHE_ENTRY_COUNT_MAX,
            ValueStrategy::Shared(i) => interner_wf(i@),
        }
    }

    /// Storage for one read with `config`. `Shared` needs a positive
    /// budget.
    pub fn new(config: StringStorageConfig) -> (r: Self)
        requires
            config.mode == StringStorageMode::Shared ==> config.shared_max_entries > 0
                && config.shared_max_value_bytes > 0,
        ensures
            r.wf(),
            r.mode() == config.mode,
            r.key_cache().texts().len() == 0,
            r.mode() == StringStorageMode::Intern ==> r.value_cache().texts().len() == 0,
            r.mode() == StringStorageMode::Shared ==> r.interner().entries.len() == 0
                && r.interner().fallbacks.len() == 0 && r.interner().max_entries
                == config.shared_max_entries && r.interner().max_value_bytes
                == config.shared_max_value_bytes,
    {
        let values = match config.mode {
            StringStorageMode::Copy => ValueStrategy::Copy,
            StringStorageMode::Intern => ValueStrategy::Intern(
                InternCache::new(INTERN_VALUE_CACHE_ENTRY_COUNT_MAX),
            ),
            StringStorageMode::Shared => ValueStrategy::Shared(
                SharedLeakInterner::new(config.shared_max_entries, config.shared_max_value_bytes),
            ),
        };
        StringStorage { values, keys: InternCache::new(KEY_CACHE_ENTRY_COUNT_MAX) }
    }

    /// Decide how the string value `s` is materialized: `Copy` mode copies;
    /// `Intern` reuses or caches the interned string (`make` interns it),
    /// and past the cache bound freezes a copy; `Shared` returns leaked
    /// bytes the read already holds, freezes a copy for values outside its
    /// budget, and otherwise asks for the registry.
    pub fn ruby_string<F: FnOnce() -> V>(&mut self, s: &str, make: F) -> (r: StringValue)
        requires
            old(self).wf(),
            call_requires(make, ()),
        ensures
            final(self).wf(),
            final(self).mode() == old(self).mode(),
            final(self).key_cache() == old(self).key_cache(),
            old(self).mode() == StringStorageMode::Copy ==> r == StringValue::Copy,
            old(self).mode() == StringStorageMode::Intern ==> {
                let c = old(self).value_cache();
                &&& final(self).value_cache().texts() == cache_texts_after(c.texts(), c.cap(), s@)
                &&& match cache_slot(c.texts(), c.cap(), s@) {
                    Some(i) => r == StringValue::Interned(i as usize),
                    None => r == StringValue::FrozenCopy,
                }
            },
            old(self).mode() == StringStorageMode::Shared ==> {
                let m = old(self).interner();
                if interner_consults_registry(m, s@) {
                    r == StringValue::NeedsRegistry && final(self).interner() == m
                } else {
                    let (m2, leaked) = interner_local_step(m, s@);
                    &&& final(self).interner() == m2
                    &&& leaked ==> (r matches StringValue::Static(t) && t@ == s@)
                    &&& !leaked ==> r == StringValue::FrozenCopy
                }
            },
    {
        match &mut self.values {
            ValueStrategy::Copy => StringValue::Copy,
            ValueStrategy::Intern(cache) => {
                let ghost c = *cache;
                let r = cache.intern_cached(s, make);
                proof {
                    if c.texts().contains(s@) {
                        let i = r->Some_0;
                        let j = choose|j: int| cached_at(c.texts(), s@, j);
                        assert(c.texts()[i as int] == c.texts()[j]);
                    }
                }
                match r {
                    Some(i) => StringValue::Interned(i),
                    None => StringValue::FrozenCopy,
                }
            },
            ValueStrategy::Shared(interner) => {
                if interner.needs_registry(s) {
                    StringValue::NeedsRegistry
                } else {
                    match interner.intern_local(s) {
                        Some(leaked) => StringValue::Static(leaked),
                        None => StringValue::FrozenCopy,
                    }
                }
            },
        }
    }

    /// In `Shared` mode, decide `s` with the process registry: leaked bytes
    /// when the read's budget and the registry have room, else a frozen
    /// copy.
    pub fn shared_string(&mut self, registry: &mut SharedLeakRegistry, s: &str) -> (r: StringValue)
        requires
            old(self).wf(),
            old(self).mode() == StringStorageMode::Shared,
            registry_wf(old(registry)@),
        ensures
            final(self).wf(),
            final(self).mode() == old(self).mode(),
            final(self).key_cache() == old(self).key_cache(),
            registry_wf(final(registry)@),
            ({
                let (m2, r2, leaked) = interner_step(old(self).interner(), old(registry)@, s@);
                &&& final(self).interner() == m2
                &&& final(registry)@ == r2
                &&& leaked ==> (r matches StringValue::Static(t) && t@ == s@)
                &&& !leaked ==> r == StringValue::FrozenCopy
            }),
    {
        match &mut self.values {
            ValueStrategy::Shared(interner) => match interner.intern(registry, s) {
                Some(leaked) => StringValue::Static(leaked),
                None => StringValue::FrozenCopy,
            },
            _ => StringValue::FrozenCopy,
        }
    }

    /// The interned string at position `i` of the `Intern` value cache.
    pub fn interned_value(&self, i: usize) -> (r: &V)
        requires
            self.wf(),
            self.mode() == StringStorageMode::Intern,
            i < self.value_cache().texts().len(),
        ensures
            *r == self.value_cache().values()[i as int],
    {
        match &self.values {
            ValueStrategy::Intern(cache) => cache.value(i),
            _ => {
                proof {
                    assert(false);
                }
                self.keys.value(i)
            },
        }
    }

    /// Materialize the hash key (struct field name) `name`: keys are always
    /// interned (`make` interns one) and cached up to the key bound.
    pub fn ruby_key<F: FnOnce() -> V>(&mut self, name: &str, make: F) -> (r: KeyValue<V>)
        requires
            old(self).wf(),
            call_requires(make, ()),
        ensures
            final(self).wf(),
            final(self).mode() == old(self).mode(),
            old(self).mode() == StringStorageMode::Intern ==> final(self).value_cache() == old(
                self,
            ).value_cache(),
            old(self).mode() == StringStorageMode::Shared ==> final(self).interner() == old(
                self,
            ).interner(),
            ({
                let c = old(self).key_cache();
                &&& final(self).key_cache().texts() == cache_texts_after(c.texts(), c.cap(), name@)
                &&& final(self).key_cache().cap() == c.cap()
                &&& final(self).key_cache().values().subrange(0, c.values().len() as int) == c.values()
                &&& match cache_slot(c.texts(), c.cap(), name@) {
                    Some(i) => r == KeyValue::<V>::Cached(i as usize),
                    None => r matches KeyValue::Fresh(v) && call_ensures(make, (), v),
                }
            }),
    {
        let ghost c = self.keys;
        let r = self.keys.intern_key(name, make);
        proof {
            assert(self.keys.values().subrange(0, c.values().len() as int) =~= c.values());
            if c.texts().contains(name@) {
                let i = r->Cached_0;
                let j = choose|j: int| cached_at(c.texts(), name@, j);
                assert(c.texts()[i as int] == c.texts()[j]);
            }
        }
        r
    }

    /// The interned key at position `i` of the key cache.
    pub fn key_value(&self, i: usize) -> (r: &V)
        requires
            self.wf(),
            i < self.key_cache().texts().len(),
        ensures
            *r == self.key_cache().values()[i as int],
    {
        self.keys.value(i)
    }
}

} // verus!
