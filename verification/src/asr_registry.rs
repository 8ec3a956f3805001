//! The registry of recognition backend names: which names can be built, in
//! sorted order, and which registered name a configuration resolves to.
//!
//! The registry here holds the names; the caller keeps the constructor
//! registered under each name.
use vstd::prelude::*;

use crate::asr::{kind_name, AsrKind};
use crate::text::{chars_eq, chars_of, owned, string_views};

verus! {

/// `a` sorts strictly before `b` (lexicographic by code point, which is the
/// byte order of their UTF-8 encodings).
pub open spec fn seq_lt(a: Seq<char>, b: Seq<char>) -> bool
    decreases a.len(),
{
    if b.len() == 0 {
        false
    } else if a.len() == 0 {
        true
    } else if a[0] != b[0] {
        a[0] < b[0]
    } else {
        seq_lt(a.drop_first(), b.drop_first())
    }
}

/// The order is irreflexive.
pub proof fn lemma_lt_irreflexive(a: Seq<char>)
    ensures
        !seq_lt(a, a),
    decreases a.len(),
{
    if a.len() > 0 {
        lemma_lt_irreflexive(a.drop_first());
    }
}

/// The order is transitive.
pub proof fn lemma_lt_transitive(a: Seq<char>, b: Seq<char>, c: Seq<char>)
    requires
        seq_lt(a, b),
        seq_lt(b, c),
    ensures
        seq_lt(a, c),
    decreases a.len(),
{
    if a.len() > 0 && b.len() > 0 && c.len() > 0 && a[0] == b[0] && b[0] == c[0] {
        lemma_lt_transitive(a.drop_first(), b.drop_first(), c.drop_first());
    }
}

/// Two different strings are ordered one way or the other.
pub proof fn lemma_lt_total(a: Seq<char>, b: Seq<char>)
    requires
        a != b,
    ensures
        seq_lt(a, b) || seq_lt(b, a),
    decreases a.len(),
{
    if a.len() > 0 && b.len() > 0 {
        if a[0] == b[0] {
            if a.drop_first() == b.drop_first() {
                assert(a =~= seq![a[0]] + a.drop_first());
                assert(b =~= seq![b[0]] + b.drop_first());
            }
            lemma_lt_total(a.drop_first(), b.drop_first());
        }
    } else if a.len() == 0 && b.len() == 0 {
        assert(a =~= b);
    }
}

/// Whether `a` sorts strictly before `b`.
pub fn str_lt(a: &str, b: &str) -> (r: bool)
    ensures
        r == seq_lt(a@, b@),
{
    let x = chars_of(a);
    let y = chars_of(b);
    let mut i: usize = 0;
    assert(x@.skip(0) =~= x@);
    assert(y@.skip(0) =~= y@);
    while i < x.len() && i < y.len() && x[i] == y[i]
        invariant
            i <= x@.len(),
            i <= y@.len(),
            seq_lt(a@, b@) == seq_lt(x@.skip(i as int), y@.skip(i as int)),
            x@ == a@,
            y@ == b@,
        decreases x@.len() - i,
    {
        assert(x@.skip(i as int).drop_first() =~= x@.skip(i + 1));
        assert(y@.skip(i as int).drop_first() =~= y@.skip(i + 1));
        i += 1;
    }
    if i == y.len() {
        false
    } else if i == x.len() {
        true
    } else {
        x[i] < y[i]
    }
}

/// The names are in strictly increasing order.
pub open spec fn strictly_sorted(s: Seq<Seq<char>>) -> bool {
    forall|i: int, j: int| 0 <= i < j < s.len() ==> seq_lt(#[trigger] s[i], #[trigger] s[j])
}

/// Registered backend names, kept sorted and without repeats.
#[derive(Debug, Clone)]
pub struct BackendRegistry {
    names: Vec<String>,
}

impl BackendRegistry {
    /// The registered names, in order.
    pub closed spec fn names(&self) -> Seq<Seq<char>> {
        string_views(self.names@)
    }

    /// The registry's invariant: its names are strictly sorted.
    pub closed spec fn wf(&self) -> bool {
        strictly_sorted(self.names())
    }

    /// The set of registered names.
    pub open spec fn name_set(&self) -> Set<Seq<char>> {
        self.names().to_set()
    }

    /// An empty registry.
    pub fn new() -> (r: Self)
        ensures
            r.wf(),
            r.names() == Seq::<Seq<char>>::empty(),
    {
        let r = BackendRegistry { names: Vec::new() };
        assert(string_views(r.names@) =~= Seq::<Seq<char>>::empty());
        r
    }
}

/// Registers a backend name (registering it again changes nothing).
pub fn register_backend(reg: &mut BackendRegistry, name: &str)
    requires
        old(reg).wf(),
    ensures
        final(reg).wf(),
        final(reg).name_set() == old(reg).name_set().insert(name@),
{
    let ghost before = reg.names();
    let n = reg.names.len();
    let mut i: usize = 0;
    while i < n && str_lt(reg.names[i].as_str(), name)
        invariant
            n == reg.names@.len(),
            i <= n,
            before == reg.names(),
            strictly_sorted(before),
            forall|k: int| 0 <= k < i ==> seq_lt(#[trigger] before[k], name@),
        decreases n - i,
    {
        assert(before[i as int] == reg.names@[i as int]@);
        i += 1;
    }
    if i < n {
        assert(before[i as int] == reg.names@[i as int]@);
    }
    if i < n && crate::text::str_eq(reg.names[i].as_str(), name) {
        assert(before.to_set().insert(name@) =~= before.to_set()) by {
            assert(before.contains(before[i as int]));
        }
        return;
    }
    let ghost at = i as int;
    proof {
        if i < n {
            lemma_lt_total(before[at], name@);
        }
    }
    reg.names.insert(i, owned(name));
    let ghost after = reg.names();
    assert(after =~= before.insert(at, name@)) by {
        assert forall|k: int| 0 <= k < after.len() implies after[k] == before.insert(at, name@)[k] by {
            assert(after[k] == reg.names@[k]@);
        }
    }
    assert forall|p: int, q: int| 0 <= p < q < after.len() implies seq_lt(#[trigger] after[p], #[trigger] after[q]) by {
        if q < at {
        } else if q == at {
        } else if p < at {
            assert(after[q] == before[q - 1]);
            if q - 1 > at {
                assert(seq_lt(before[at], before[q - 1]));
                lemma_lt_transitive(after[p], name@, before[at]);
                lemma_lt_transitive(after[p], before[at], before[q - 1]);
            } else {
                lemma_lt_transitive(after[p], name@, before[at]);
            }
        } else if p == at {
            assert(after[q] == before[q - 1]);
            if q - 1 > at {
                lemma_lt_transitive(name@, before[at], before[q - 1]);
            }
        } else {
            assert(after[p] == before[p - 1]);
            assert(after[q] == before[q - 1]);
        }
    }
    assert(after.to_set() =~= before.to_set().insert(name@)) by {
        assert forall|x: Seq<char>| after.to_set().contains(x) implies before.to_set().insert(name@).contains(x) by {
            let k = choose|k: int| 0 <= k < after.len() && after[k] == x;
            if k < at {
                assert(before[k] == x);
            } else if k > at {
                assert(before[k - 1] == x);
            }
        }
        assert forall|x: Seq<char>| before.to_set().insert(name@).contains(x) implies after.to_set().contains(x) by {
            if x == name@ {
                assert(after[at] == x);
            } else {
                let k = choose|k: int| 0 <= k < before.len() && before[k] == x;
                if k < at {
                    assert(after[k] == x);
                } else {
                    assert(after[k + 1] == x);
                }
            }
        }
    }
}

/// The registered backend names, sorted.
pub fn registered_backends(reg: &BackendRegistry) -> (r: Vec<String>)
    requires
        reg.wf(),
    ensures
        strictly_sorted(string_views(r@)),
        string_views(r@).to_set() == reg.name_set(),
{
    let r = reg.names.clone();
    proof {
        assert(r@.len() == reg.names@.len());
        assert forall|k: int| 0 <= k < r@.len() implies #[trigger] r@[k]@ == reg.names@[k]@ by {
            assert(vstd::pervasive::cloned::<String>(reg.names@[k], r@[k]));
        }
        assert(string_views(r@) =~= reg.names());
    }
    r
}

/// The built-in backend names.
pub open spec fn builtin_backend_names() -> Set<Seq<char>> {
    set![
        "DashScopeFunasr"@, "MiMoHttp"@, "Custom"@, "WhisperApi"@, "SherpaOnnx"@, "LocalFunasrWs"@,
        "Vosk"@, "AzureSpeech"@,
    ]
}

/// Registers the built-in backends.
pub fn builtin_register(reg: &mut BackendRegistry)
    requires
        old(reg).wf(),
    ensures
        final(reg).wf(),
        final(reg).name_set() == old(reg).name_set().union(builtin_backend_names()),
{
    let ghost start = reg.name_set();
    register_backend(reg, "DashScopeFunasr");
    register_backend(reg, "MiMoHttp");
    register_backend(reg, "Custom");
    register_backend(reg, "WhisperApi");
    register_backend(reg, "SherpaOnnx");
    register_backend(reg, "LocalFunasrWs");
    register_backend(reg, "Vosk");
    register_backend(reg, "AzureSpeech");
    assert(reg.name_set() =~= start.union(builtin_backend_names()));
}

/// Whether `name` is registered.
pub fn is_registered(reg: &BackendRegistry, name: &str) -> (r: bool)
    ensures
        r == reg.name_set().contains(name@),
{
    let target = chars_of(name);
    let mut i: usize = 0;
    while i < reg.names.len()
        invariant
            i <= reg.names@.len(),
            target@ == name@,
            forall|k: int| 0 <= k < i ==> reg.names@[k]@ != name@,
        decreases reg.names@.len() - i,
    {
        let c = chars_of(reg.names[i].as_str());
        if chars_eq(&c, &target) {
            proof {
                assert(reg.names()[i as int] == name@);
                assert(reg.names().contains(name@));
            }
            return true;
        }
        i += 1;
    }
    proof {
        if reg.names().contains(name@) {
            let k = choose|k: int| 0 <= k < reg.names().len() && reg.names()[k] == name@;
            assert(reg.names@[k]@ == name@);
        }
    }
    false
}

/// Which registered name builds the backend for a configuration: the name as
/// written when registered, else the kind's own name when registered, else
/// none (the OpenAI-compatible backend is used).
pub open spec fn resolved_backend(names: Set<Seq<char>>, kind_raw: Seq<char>, kind: AsrKind) -> Option<Seq<char>> {
    if names.contains(kind_raw) {
        Some(kind_raw)
    } else if names.contains(kind_name(kind)) {
        Some(kind_name(kind))
    } else {
        None
    }
}

/// Resolves the registered name that builds a backend for `kind_raw` /
/// `kind`; `None` means the OpenAI-compatible fallback.
pub fn resolve_backend(reg: &BackendRegistry, kind_raw: &str, kind: AsrKind) -> (r: Option<String>)
    ensures
        match resolved_backend(reg.name_set(), kind_raw@, kind) {
            Some(n) => r matches Some(s) && s@ == n,
            None => r is None,
        },
{
    if is_registered(reg, kind_raw) {
        return Some(owned(kind_raw));
    }
    let k = kind.as_str();
    if is_registered(reg, k) {
        return Some(owned(k));
    }
    None
}

/// Law: registering a name twice leaves the same registry as registering it
/// once.
pub proof fn law_register_idempotent(names: Set<Seq<char>>, name: Seq<char>)
    ensures
        names.insert(name).insert(name) == names.insert(name),
{
    assert(names.insert(name).insert(name) =~= names.insert(name));
}

} // verus!
