//! The translation cache and the glossary note of a translation request.
//!
//! Short texts (at most 500 characters) are cached under
//! `text|source|target` for 24 hours.
use vstd::prelude::*;

use crate::models::{GlossaryTermRow, TranslateResult};
use crate::text::{chars_of, extend_chars, join_strings, join_with, str_eq, string_from, string_views, trim, trimmed};

verus! {

/// How long a cached translation is served, in seconds.
pub const CACHE_TTL_SECS: i64 = 86400;

/// Texts longer than this many characters are not cached.
pub const CACHE_MAX_CHARS: usize = 500;

/// The cache key of a request.
pub open spec fn cache_key_of(text: Seq<char>, source: Seq<char>, target: Seq<char>) -> Seq<char> {
    text + "|"@ + source + "|"@ + target
}

/// The cache key of a request: text, source and target language joined by
/// `|`.
pub fn cache_key(text: &str, source: &str, target: &str) -> (r: String)
    ensures
        r@ == cache_key_of(text@, source@, target@),
{
    let mut v = chars_of(text);
    extend_chars(&mut v, &chars_of("|"));
    extend_chars(&mut v, &chars_of(source));
    extend_chars(&mut v, &chars_of("|"));
    extend_chars(&mut v, &chars_of(target));
    string_from(&v)
}

/// Whether a text is short enough to cache.
pub fn cacheable(text: &str) -> (r: bool)
    ensures
        r == (text@.len() <= CACHE_MAX_CHARS),
{
    chars_of(text).len() <= CACHE_MAX_CHARS
}

/// One cached translation and when it was stored.
#[derive(Debug, Clone)]
pub struct CacheEntry {
    pub key: String,
    pub value: String,
    pub stored_at: i64,
}

/// The translations cached so far, each key at most once.
#[derive(Debug, Clone)]
pub struct TranslateCache {
    entries: Vec<CacheEntry>,
}

/// What a cache lookup gives at time `now`: the stored text when the key is
/// present and was stored less than a day before.
pub open spec fn lookup(m: Map<Seq<char>, (Seq<char>, i64)>, key: Seq<char>, now: i64) -> Option<Seq<char>> {
    if m.contains_key(key) && now - m[key].1 < CACHE_TTL_SECS {
        Some(m[key].0)
    } else {
        None
    }
}

impl TranslateCache {
    /// Each key occurs once.
    pub closed spec fn wf(&self) -> bool {
        forall|i: int, j: int|
            0 <= i < j < self.entries@.len() ==> #[trigger] self.entries@[i].key@ != #[trigger] self.entries@[j].key@
    }

    /// The cache as a map from key to text and storing time.
    pub closed spec fn view_map(&self) -> Map<Seq<char>, (Seq<char>, i64)> {
        Map::new(
            |k: Seq<char>| exists|i: int| 0 <= i < self.entries@.len() && (#[trigger] self.entries@[i]).key@ == k,
            |k: Seq<char>|
                {
                    let i = choose|i: int| 0 <= i < self.entries@.len() && (#[trigger] self.entries@[i]).key@ == k;
                    (self.entries@[i].value@, self.entries@[i].stored_at)
                },
        )
    }

    /// An empty cache.
    pub fn new() -> (r: TranslateCache)
        ensures
            r.wf(),
            r.view_map() == Map::<Seq<char>, (Seq<char>, i64)>::empty(),
    {
        let r = TranslateCache { entries: Vec::new() };
        assert(r.view_map() =~= Map::<Seq<char>, (Seq<char>, i64)>::empty());
        r
    }

    /// The index of `key`, if cached.
    fn find(&self, key: &str) -> (r: Option<usize>)
        requires
            self.wf(),
        ensures
            match r {
                Some(i) => i < self.entries@.len() && self.entries@[i as int].key@ == key@,
                None => forall|i: int| 0 <= i < self.entries@.len() ==> (#[trigger] self.entries@[i]).key@ != key@,
            },
    {
        let mut i: usize = 0;
        while i < self.entries.len()
            invariant
                i <= self.entries@.len(),
                forall|j: int| 0 <= j < i ==> (#[trigger] self.entries@[j]).key@ != key@,
            decreases self.entries@.len() - i,
        {
            if str_eq(self.entries[i].key.as_str(), key) {
                return Some(i);
            }
            i += 1;
        }
        None
    }

    /// The cached translation for `key` at time `now`, if fresh.
    pub fn get(&self, key: &str, now: i64) -> (r: Option<String>)
        requires
            self.wf(),
        ensures
            match r {
                Some(s) => lookup(self.view_map(), key@, now) == Some(s@),
                None => lookup(self.view_map(), key@, now) is None,
            },
    {
        match self.find(key) {
            None => {
                assert(!self.view_map().contains_key(key@));
                None
            },
            Some(i) => {
                let e = &self.entries[i];
                proof {
                    assert(self.view_map().contains_key(key@));
                    let j = choose|j: int| 0 <= j < self.entries@.len() && (#[trigger] self.entries@[j]).key@ == key@;
                    if j != i as int {
                        if j < i {
                            assert(self.entries@[j].key@ != self.entries@[i as int].key@);
                        } else {
                            assert(self.entries@[i as int].key@ != self.entries@[j].key@);
                        }
                    }
                    assert(self.view_map()[key@] == (e.value@, e.stored_at));
                }
                if (now as i128) - (e.stored_at as i128) < (CACHE_TTL_SECS as i128) {
                    Some(crate::text::owned(e.value.as_str()))
                } else {
                    None
                }
            },
        }
    }

    /// Stores `value` for `key` at time `ts`, replacing an earlier entry.
    pub fn put(&mut self, key: String, value: String, ts: i64)
        requires
            old(self).wf(),
        ensures
            final(self).wf(),
            final(self).view_map() == old(self).view_map().insert(key@, (value@, ts)),
    {
        let ghost k = key@;
        let ghost v = value@;
        let ghost before = self.entries@;
        let ghost old_map = self.view_map();
        match self.find(key.as_str()) {
            Some(i) => {
                self.entries.set(i, CacheEntry { key, value, stored_at: ts });
                proof {
                    assert forall|a: int, b: int|
                        0 <= a < b < self.entries@.len() implies #[trigger] self.entries@[a].key@
                        != #[trigger] self.entries@[b].key@ by {
                        if a != i as int && b != i as int {
                            assert(self.entries@[a] == before[a] && self.entries@[b] == before[b]);
                        } else if a == i as int {
                            assert(self.entries@[b] == before[b]);
                            assert(before[a].key@ != before[b].key@);
                        } else {
                            assert(self.entries@[a] == before[a]);
                            assert(before[a].key@ != before[b].key@);
                        }
                    }
                    assert forall|q: Seq<char>| #[trigger] self.view_map().contains_key(q) == old_map.insert(k, (v, ts)).contains_key(q) by {
                        if q == k {
                            assert(self.entries@[i as int].key@ == q);
                        } else {
                            if self.view_map().contains_key(q) {
                                let j = choose|j: int| 0 <= j < self.entries@.len() && (#[trigger] self.entries@[j]).key@ == q;
                                assert(before[j].key@ == q);
                            }
                            if old_map.contains_key(q) {
                                let j = choose|j: int| 0 <= j < before.len() && (#[trigger] before[j]).key@ == q;
                                assert(self.entries@[j].key@ == q);
                            }
                        }
                    }
                    assert forall|q: Seq<char>| #[trigger] self.view_map().contains_key(q) implies self.view_map()[q] == old_map.insert(k, (v, ts))[q] by {
                        let j = choose|j: int| 0 <= j < self.entries@.len() && (#[trigger] self.entries@[j]).key@ == q;
                        if q == k {
                            if j != i as int {
                                if j < i {
                                    assert(self.entries@[j].key@ != self.entries@[i as int].key@);
                                } else {
                                    assert(self.entries@[i as int].key@ != self.entries@[j].key@);
                                }
                            }
                        } else {
                            assert(before[j].key@ == q);
                            assert(old_map.contains_key(q));
                            let j0 = choose|j0: int| 0 <= j0 < before.len() && (#[trigger] before[j0]).key@ == q;
                            if j0 != j {
                                if j0 < j {
                                    assert(before[j0].key@ != before[j].key@);
                                } else {
                                    assert(before[j].key@ != before[j0].key@);
                                }
                            }
                        }
                    }
                    assert(self.view_map() =~= old_map.insert(k, (v, ts)));
                }
            },
            None => {
                self.entries.push(CacheEntry { key, value, stored_at: ts });
                proof {
                    let n = before.len();
                    assert forall|a: int, b: int|
                        0 <= a < b < self.entries@.len() implies #[trigger] self.entries@[a].key@
                        != #[trigger] self.entries@[b].key@ by {
                        if b < n {
                            assert(self.entries@[a] == before[a] && self.entries@[b] == before[b]);
                        } else {
                            assert(self.entries@[a] == before[a]);
                        }
                    }
                    assert forall|q: Seq<char>| #[trigger] self.view_map().contains_key(q) == old_map.insert(k, (v, ts)).contains_key(q) by {
                        if q == k {
                            assert(self.entries@[n as int].key@ == q);
                        } else {
                            if self.view_map().contains_key(q) {
                                let j = choose|j: int| 0 <= j < self.entries@.len() && (#[trigger] self.entries@[j]).key@ == q;
                                assert(j < n);
                                assert(before[j].key@ == q);
                            }
                            if old_map.contains_key(q) {
                                let j = choose|j: int| 0 <= j < before.len() && (#[trigger] before[j]).key@ == q;
                                assert(self.entries@[j].key@ == q);
                            }
                        }
                    }
                    assert forall|q: Seq<char>| #[trigger] self.view_map().contains_key(q) implies self.view_map()[q] == old_map.insert(k, (v, ts))[q] by {
                        let j = choose|j: int| 0 <= j < self.entries@.len() && (#[trigger] self.entries@[j]).key@ == q;
                        if q == k {
                            if j < n {
                                assert(before[j].key@ == k);
                            }
                        } else {
                            assert(j < n);
                            assert(before[j].key@ == q);
                            let j0 = choose|j0: int| 0 <= j0 < before.len() && (#[trigger] before[j0]).key@ == q;
                            if j0 != j {
                                if j0 < j {
                                    assert(before[j0].key@ != before[j].key@);
                                } else {
                                    assert(before[j].key@ != before[j0].key@);
                                }
                            }
                        }
                    }
                    assert(self.view_map() =~= old_map.insert(k, (v, ts)));
                }
            },
        }
    }
}

/// A cached translation is served until a day has passed since it was
/// stored, and never after; other keys are unaffected by storing one.
pub proof fn law_cache_read_after_write(
    m: Map<Seq<char>, (Seq<char>, i64)>,
    key: Seq<char>,
    other: Seq<char>,
    value: Seq<char>,
    ts: i64,
    now: i64,
)
    requires
        other != key,
    ensures
        now - ts < CACHE_TTL_SECS ==> lookup(m.insert(key, (value, ts)), key, now) == Some(value),
        now - ts >= CACHE_TTL_SECS ==> lookup(m.insert(key, (value, ts)), key, now) is None,
        lookup(m.insert(key, (value, ts)), other, now) == lookup(m, other, now),
{
}

/// The glossary note of a translation request.
pub open spec fn glossary_note(terms: Seq<GlossaryTermRow>) -> Seq<char> {
    if terms.len() == 0 {
        Seq::empty()
    } else {
        "必须使用以下术语翻译（术语表）：\n"@ + join_with(
            terms.map_values(|t: GlossaryTermRow| t.source_term@ + " → "@ + t.target_term@),
            ";\n"@,
        ) + "\n"@
    }
}

/// The glossary note for the enabled terms of the language pair: one
/// `source → target` line per term; empty without terms.
pub fn glossary_prompt(terms: &Vec<GlossaryTermRow>) -> (r: String)
    ensures
        r@ == glossary_note(terms@),
{
    if terms.len() == 0 {
        return String::new();
    }
    let ghost want = terms@.map_values(|t: GlossaryTermRow| t.source_term@ + " → "@ + t.target_term@);
    let mut lines: Vec<String> = Vec::new();
    let mut i: usize = 0;
    while i < terms.len()
        invariant
            i <= terms@.len(),
            want == terms@.map_values(|t: GlossaryTermRow| t.source_term@ + " → "@ + t.target_term@),
            lines@.len() == i,
            forall|j: int| 0 <= j < i ==> #[trigger] lines@[j]@ == want[j],
        decreases terms@.len() - i,
    {
        let mut l = chars_of(terms[i].source_term.as_str());
        extend_chars(&mut l, &chars_of(" → "));
        extend_chars(&mut l, &chars_of(terms[i].target_term.as_str()));
        lines.push(string_from(&l));
        i += 1;
    }
    assert(string_views(lines@) =~= want);
    let mut out = chars_of("必须使用以下术语翻译（术语表）：\n");
    extend_chars(&mut out, &join_strings(&lines, ";\n"));
    extend_chars(&mut out, &chars_of("\n"));
    string_from(&out)
}

/// A translation request ready to send: the trimmed text, the source
/// language (`auto` when not given) and, for a short text, its cache key.
#[derive(Debug, Clone)]
pub struct PreparedTranslation {
    pub text: String,
    pub source_lang: String,
    pub cache_key: Option<String>,
}

/// What a translation request turns into before the model is asked.
#[derive(Debug, Clone)]
pub enum TranslationStart {
    /// Blank text: the empty translation, not cached.
    Blank(TranslateResult),
    /// Text to translate.
    Request(PreparedTranslation),
}

/// Prepares a translation of `text` from `source` (or `auto`) to `target`.
pub fn prepare_translation(text: &str, source: Option<&str>, target: &str) -> (r: TranslationStart)
    ensures
        ({
            let t = trim(text@);
            let src = match source {
                Some(s) => s@,
                None => "auto"@,
            };
            match r {
                TranslationStart::Blank(res) => t.len() == 0 && res.translated@.len() == 0 && res.source_lang@
                    == src && !res.from_cache,
                TranslationStart::Request(p) => t.len() > 0 && p.text@ == t && p.source_lang@ == src && (if t.len()
                    <= CACHE_MAX_CHARS {
                    p.cache_key is Some && p.cache_key.unwrap()@ == cache_key_of(t, src, target@)
                } else {
                    p.cache_key is None
                }),
            }
        }),
{
    let t = string_from(&trimmed(&chars_of(text)));
    let source_lang = match source {
        Some(s) => crate::text::owned(s),
        None => crate::text::owned("auto"),
    };
    if t.as_str().is_empty() {
        return TranslationStart::Blank(TranslateResult { translated: String::new(), source_lang, from_cache: false });
    }
    let cache_key = if cacheable(t.as_str()) {
        Some(cache_key(t.as_str(), source_lang.as_str(), target))
    } else {
        None
    };
    TranslationStart::Request(PreparedTranslation { text: t, source_lang, cache_key })
}

} // verus!
