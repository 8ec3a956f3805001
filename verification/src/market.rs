//! Skill marketplace search: the search addresses, turning each market's
//! items into hits, marking installed skills, merging hits that name the same
//! skill and ranking the result.
//!
//! Fetching and decoding the markets' JSON is done by the caller, which hands
//! each item over as a [`MarketItem`].
use vstd::prelude::*;
use vstd::relations::sorted_by;
use vstd::seq_lib::to_multiset_build;
use vstd::seq_lib::to_multiset_insert;
use vstd::utf8::encode_utf8;

use crate::embedding::{to_lowercase, unicode_lowercase};
use crate::skills::{normalize_name, normalized_name, without_spaces, SkillSearchHit};
use crate::text::{chars_of, extend_chars, str_eq, string_from};

verus! {

/// The upper-case hexadecimal digit of a nibble.
pub open spec fn hex_upper(d: u8) -> char {
    if d < 10 {
        (('0' as u8) + d) as char
    } else {
        (('A' as u8) + d - 10) as char
    }
}

/// A byte that URL encoding leaves as it is.
pub open spec fn url_safe(b: u8) -> bool {
    (48 <= b <= 57) || (65 <= b <= 90) || (97 <= b <= 122) || b == 45 || b == 46 || b == 95 || b == 126
}

/// The URL encoding of one byte.
pub open spec fn url_byte(b: u8) -> Seq<char> {
    if url_safe(b) {
        seq![b as char]
    } else {
        seq!['%', hex_upper(b >> 4), hex_upper(b & 15)]
    }
}

/// The URL encoding of some bytes: every byte but ASCII letters, digits and
/// `-`, `.`, `_`, `~` written as `%` and two upper-case hex digits.
pub open spec fn url_encoded(bs: Seq<u8>) -> Seq<char>
    decreases bs.len(),
{
    if bs.len() == 0 {
        Seq::empty()
    } else {
        url_encoded(bs.drop_last()) + url_byte(bs.last())
    }
}

/// URL-encodes a query.
///
/// Trusted: calls `urlencoding::encode`, which percent-encodes each UTF-8
/// byte of the text except ASCII letters, digits and `-`, `.`, `_`, `~`,
/// with upper-case hex digits.
#[verifier::external_body]
fn url_encode(q: &str) -> (r: String)
    ensures
        r@ == url_encoded(encode_utf8(q@)),
{
    urlencoding::encode(q).into_owned()
}

/// The plugin directory market, which the caller names: its host and the
/// prefix of the ids of its hits.
#[derive(Debug, Clone)]
pub struct PluginMarket {
    pub host: String,
    pub id_prefix: String,
}

/// The search addresses of the three markets for a query.
pub open spec fn market_urls_spec(plugins: PluginMarket, q: Seq<char>) -> Seq<Seq<char>> {
    let e = url_encoded(encode_utf8(q));
    seq![
        "https://skills.sh/api/search?q="@ + e,
        "https://"@ + plugins.host@ + "/api/skills?q="@ + e,
        "https://clawhub.ai/api/v1/search?query="@ + e,
    ]
}

/// The search addresses for `query`: skills.sh, the plugin directory and
/// clawhub.ai, in that order.
pub fn market_urls(plugins: &PluginMarket, query: &str) -> (r: Vec<String>)
    ensures
        r@.map_values(|s: String| s@) == market_urls_spec(*plugins, query@),
{
    let e = chars_of(url_encode(query).as_str());
    let mut a = chars_of("https://skills.sh/api/search?q=");
    extend_chars(&mut a, &e);
    let mut b = chars_of("https://");
    extend_chars(&mut b, &chars_of(plugins.host.as_str()));
    extend_chars(&mut b, &chars_of("/api/skills?q="));
    extend_chars(&mut b, &e);
    let mut c = chars_of("https://clawhub.ai/api/v1/search?query=");
    extend_chars(&mut c, &e);
    let mut r: Vec<String> = Vec::new();
    r.push(string_from(&a));
    r.push(string_from(&b));
    r.push(string_from(&c));
    assert(r@.map_values(|s: String| s@) =~= market_urls_spec(*plugins, query@));
    r
}

/// The marketplaces searched.
#[derive(Debug, Clone, Copy, PartialEq, Eq, Structural)]
pub enum MarketSource {
    SkillsSh,
    /// The plugin directory ([`PluginMarket`]).
    Plugins,
    ClawHub,
}

/// One item of a market's answer, as plain values: the text fields (empty
/// when missing), the string tags, and the optional links and star count.
#[derive(Debug, Clone)]
pub struct MarketItem {
    pub name: String,
    pub description: String,
    pub tags: Vec<String>,
    pub author: Option<String>,
    pub url: Option<String>,
    pub download_url: Option<String>,
    pub install_url: Option<String>,
    pub github: Option<String>,
    pub stars: Option<u64>,
}

/// A search hit as plain values.
pub struct HitView {
    pub id: Seq<char>,
    pub name: Seq<char>,
    pub description: Seq<char>,
    pub source: Seq<char>,
    pub install_source: Seq<char>,
    pub tags: Seq<Seq<char>>,
    pub author: Option<Seq<char>>,
    pub stars: Option<u64>,
    pub url: Option<Seq<char>>,
    pub installed: bool,
}

/// The text of an optional string.
pub open spec fn opt_view(o: Option<String>) -> Option<Seq<char>> {
    match o {
        Some(s) => Some(s@),
        None => None,
    }
}

impl View for SkillSearchHit {
    type V = HitView;

    open spec fn view(&self) -> HitView {
        HitView {
            id: self.id@,
            name: self.name@,
            description: self.description@,
            source: self.source@,
            install_source: self.install_source@,
            tags: self.tags@.map_values(|t: String| t@),
            author: opt_view(self.author),
            stars: self.stars,
            url: opt_view(self.url),
            installed: self.installed,
        }
    }
}

/// The views of some hits.
pub open spec fn hit_views(v: Seq<SkillSearchHit>) -> Seq<HitView> {
    v.map_values(|h: SkillSearchHit| h@)
}

/// The install instruction of a clawhub item.
pub open spec fn claw_install(item: MarketItem) -> Seq<char> {
    match item.github {
        Some(g) => "github:"@ + g@,
        None => match item.download_url {
            Some(u) => "zip:"@ + u@,
            None => match item.install_url {
                Some(u) => "zip:"@ + u@,
                None => "zip"@,
            },
        },
    }
}

/// The hit a market item gives, or `None` for an item without a name.
pub open spec fn market_hit_spec(src: MarketSource, plugins: PluginMarket, item: MarketItem) -> Option<HitView> {
    if item.name@.len() == 0 {
        None
    } else {
        let n = item.name@;
        let base = HitView {
            id: Seq::empty(),
            name: n,
            description: item.description@,
            source: Seq::empty(),
            install_source: Seq::empty(),
            tags: item.tags@.map_values(|t: String| t@),
            author: opt_view(item.author),
            stars: None,
            url: None,
            installed: false,
        };
        Some(
            match src {
                MarketSource::SkillsSh => HitView {
                    id: "skills-sh:"@ + n,
                    source: "skills.sh"@,
                    install_source: "skills.sh:"@ + n,
                    url: match item.url {
                        Some(u) => Some(u@),
                        None => opt_view(item.download_url),
                    },
                    ..base
                },
                MarketSource::Plugins => HitView {
                    id: plugins.id_prefix@ + ":"@ + n,
                    source: plugins.host@,
                    install_source: match item.github {
                        Some(g) => "github:"@ + g@,
                        None => "github:"@ + n,
                    },
                    url: opt_view(item.url),
                    ..base
                },
                MarketSource::ClawHub => HitView {
                    id: "clawhub:"@ + n,
                    source: "clawhub.ai"@,
                    install_source: claw_install(item),
                    stars: item.stars,
                    url: match item.url {
                        Some(u) => Some(u@),
                        None => match item.github {
                            Some(g) => Some("https://github.com/"@ + g@),
                            None => None,
                        },
                    },
                    ..base
                },
            },
        )
    }
}

/// `prefix` followed by `s`.
fn prefixed(prefix: &str, s: &str) -> (r: String)
    ensures
        r@ == prefix@ + s@,
{
    let mut v = chars_of(prefix);
    extend_chars(&mut v, &chars_of(s));
    string_from(&v)
}

/// Turns a market item into a hit; items without a name give none.
pub fn market_hit(src: MarketSource, plugins: &PluginMarket, item: MarketItem) -> (r: Option<SkillSearchHit>)
    ensures
        match r {
            Some(h) => market_hit_spec(src, *plugins, item) == Some(h@),
            None => market_hit_spec(src, *plugins, item) is None,
        },
{
    if item.name.as_str().is_empty() {
        return None;
    }
    let ghost it = item;
    let MarketItem { name, description, tags, author, url, download_url, install_url, github, stars } = item;
    let (id, source, install_source, stars, url) = match src {
        MarketSource::SkillsSh => {
            let u = match url {
                Some(u) => Some(u),
                None => download_url,
            };
            (prefixed("skills-sh:", name.as_str()), string_from(&chars_of("skills.sh")), prefixed(
                "skills.sh:",
                name.as_str(),
            ), None, u)
        },
        MarketSource::Plugins => {
            let inst = match &github {
                Some(g) => prefixed("github:", g.as_str()),
                None => prefixed("github:", name.as_str()),
            };
            let mut id = chars_of(plugins.id_prefix.as_str());
            extend_chars(&mut id, &chars_of(":"));
            extend_chars(&mut id, &chars_of(name.as_str()));
            (string_from(&id), crate::text::owned(plugins.host.as_str()), inst, None, url)
        },
        MarketSource::ClawHub => {
            let inst = match &github {
                Some(g) => prefixed("github:", g.as_str()),
                None => match &download_url {
                    Some(u) => prefixed("zip:", u.as_str()),
                    None => match &install_url {
                        Some(u) => prefixed("zip:", u.as_str()),
                        None => string_from(&chars_of("zip")),
                    },
                },
            };
            let u = match url {
                Some(u) => Some(u),
                None => match &github {
                    Some(g) => Some(prefixed("https://github.com/", g.as_str())),
                    None => None,
                },
            };
            (prefixed("clawhub:", name.as_str()), string_from(&chars_of("clawhub.ai")), inst, stars, u)
        },
    };
    let h = SkillSearchHit { id, name, description, source, install_source, tags, author, stars, url, installed: false };
    proof {
        let s = market_hit_spec(src, *plugins, it);
        assert(s is Some);
        assert(h@.tags =~= s.unwrap().tags);
    }
    Some(h)
}

/// The hits of one market's items, in order, skipping nameless items.
pub open spec fn market_hits_spec(src: MarketSource, plugins: PluginMarket, items: Seq<MarketItem>) -> Seq<
    HitView,
>
    decreases items.len(),
{
    if items.len() == 0 {
        Seq::empty()
    } else {
        let rest = market_hits_spec(src, plugins, items.drop_last());
        match market_hit_spec(src, plugins, items.last()) {
            Some(h) => rest.push(h),
            None => rest,
        }
    }
}

/// Collects the hits of one market's items into `out`.
pub fn collect_market_hits(
    src: MarketSource,
    plugins: &PluginMarket,
    items: Vec<MarketItem>,
    out: &mut Vec<SkillSearchHit>,
)
    ensures
        hit_views(final(out)@) == hit_views(old(out)@) + market_hits_spec(src, *plugins, items@),
{
    let ghost all = items@;
    let n = items.len();
    let mut rest = items;
    let mut k: usize = 0;
    while rest.len() > 0
        invariant
            n == all.len(),
            k + rest@.len() == all.len(),
            rest@ == all.skip(k as int),
            hit_views(out@) == hit_views(old(out)@) + market_hits_spec(src, *plugins, all.take(k as int)),
        decreases rest@.len(),
    {
        let item = rest.remove(0);
        assert(item == all[k as int]);
        assert(all.take(k + 1).drop_last() =~= all.take(k as int));
        let ghost before = out@;
        match market_hit(src, plugins, item) {
            Some(h) => {
                out.push(h);
                assert(hit_views(out@) =~= hit_views(before).push(h@));
            },
            None => {},
        }
        k += 1;
        assert(rest@ =~= all.skip(k as int));
    }
    assert(all.take(all.len() as int) =~= all);
}

/// The key under which a skill counts as installed: lowercased, spaces
/// removed.
pub open spec fn installed_key(name: Seq<char>) -> Seq<char> {
    without_spaces(unicode_lowercase(name))
}

/// Whether a skill of that name is among the installed ones.
pub open spec fn is_installed(installed: Seq<Seq<char>>, name: Seq<char>) -> bool {
    exists|j: int| 0 <= j < installed.len() && installed_key(#[trigger] installed[j]) == installed_key(name)
}

/// The installed key of `name`.
fn installed_key_of(name: &str) -> (r: String)
    ensures
        r@ == installed_key(name@),
{
    let lower = to_lowercase(name);
    let cs = chars_of(lower.as_str());
    let mut s: Vec<char> = Vec::new();
    let mut i: usize = 0;
    while i < cs.len()
        invariant
            i <= cs@.len(),
            cs@ == unicode_lowercase(name@),
            s@ == without_spaces(cs@.take(i as int)),
        decreases cs@.len() - i,
    {
        assert(cs@.take(i + 1).drop_last() =~= cs@.take(i as int));
        if cs[i] != ' ' {
            s.push(cs[i]);
        }
        i += 1;
    }
    assert(cs@.take(cs@.len() as int) =~= cs@);
    string_from(&s)
}

/// A hit with its installed flag set to `b`.
pub open spec fn with_installed(h: HitView, b: bool) -> HitView {
    HitView { installed: b, ..h }
}

/// Marks each hit installed exactly when a skill of the same name (ignoring
/// case and spaces) is installed.
pub fn mark_installed(hits: Vec<SkillSearchHit>, installed_names: &Vec<String>) -> (r: Vec<SkillSearchHit>)
    ensures
        r@.len() == hits@.len(),
        forall|i: int|
            0 <= i < hits@.len() ==> #[trigger] r@[i]@ == with_installed(
                hits@[i]@,
                is_installed(installed_names@.map_values(|s: String| s@), hits@[i]@.name),
            ),
{
    let ghost names = installed_names@.map_values(|s: String| s@);
    let mut keys: Vec<String> = Vec::new();
    let mut j: usize = 0;
    while j < installed_names.len()
        invariant
            j <= installed_names@.len(),
            names == installed_names@.map_values(|s: String| s@),
            keys@.len() == j,
            forall|t: int| 0 <= t < j ==> #[trigger] keys@[t]@ == installed_key(names[t]),
        decreases installed_names@.len() - j,
    {
        keys.push(installed_key_of(installed_names[j].as_str()));
        j += 1;
    }
    let ghost all = hits@;
    let mut rest = hits;
    let mut out: Vec<SkillSearchHit> = Vec::new();
    while rest.len() > 0
        invariant
            out@.len() + rest@.len() == all.len(),
            rest@ == all.skip(out@.len() as int),
            names == installed_names@.map_values(|s: String| s@),
            keys@.len() == names.len(),
            forall|t: int| 0 <= t < keys@.len() ==> #[trigger] keys@[t]@ == installed_key(names[t]),
            forall|i: int|
                0 <= i < out@.len() ==> #[trigger] out@[i]@ == with_installed(
                    all[i]@,
                    is_installed(names, all[i]@.name),
                ),
        decreases rest@.len(),
    {
        let ghost k = out@.len();
        let mut h = rest.remove(0);
        assert(h == all[k as int]);
        let key = installed_key_of(h.name.as_str());
        let mut found = false;
        let mut t: usize = 0;
        while t < keys.len()
            invariant
                t <= keys@.len(),
                keys@.len() == names.len(),
                forall|q: int| 0 <= q < keys@.len() ==> #[trigger] keys@[q]@ == installed_key(names[q]),
                key@ == installed_key(h.name@),
                found <==> exists|q: int| 0 <= q < t && installed_key(#[trigger] names[q]) == key@,
            decreases keys@.len() - t,
        {
            if str_eq(keys[t].as_str(), key.as_str()) {
                found = true;
            }
            assert(keys@[t as int]@ == installed_key(names[t as int]));
            t += 1;
        }
        h.installed = found;
        out.push(h);
        assert(rest@ =~= all.skip(out@.len() as int));
        assert(out@[k as int]@ =~= with_installed(all[k as int]@, is_installed(names, all[k as int]@.name)));
    }
    out
}

/// The stars of a hit, zero when unknown.
pub open spec fn star_count(h: HitView) -> u64 {
    match h.stars {
        Some(n) => n,
        None => 0,
    }
}

/// `e` with the gaps filled from `h`, a later hit for the same skill:
/// empty description, tags and install instruction, missing author and
/// link are taken from `h`; the larger star count wins; installed if
/// either is.
pub open spec fn merge_view(e: HitView, h: HitView) -> HitView {
    HitView {
        description: if h.description.len() > 0 && e.description.len() == 0 {
            h.description
        } else {
            e.description
        },
        tags: if h.tags.len() > 0 && e.tags.len() == 0 {
            h.tags
        } else {
            e.tags
        },
        author: if h.author is Some && e.author is None {
            h.author
        } else {
            e.author
        },
        install_source: if h.install_source.len() > 0 && e.install_source.len() == 0 {
            h.install_source
        } else {
            e.install_source
        },
        url: if h.url is Some && e.url is None {
            h.url
        } else {
            e.url
        },
        stars: if star_count(h) > star_count(e) {
            h.stars
        } else {
            e.stars
        },
        installed: e.installed || h.installed,
        ..e
    }
}

/// The first index from `i` on whose hit has the key `key`, or -1.
pub open spec fn key_index(ms: Seq<HitView>, key: Seq<char>, i: int) -> int
    decreases ms.len() - i,
{
    if i < 0 || i >= ms.len() {
        -1
    } else if normalized_name(ms[i].name) == key {
        i
    } else {
        key_index(ms, key, i + 1)
    }
}

/// The hits merged by normalised name, each skill where it first appeared.
pub open spec fn merged_hits(hs: Seq<HitView>) -> Seq<HitView>
    decreases hs.len(),
{
    if hs.len() == 0 {
        Seq::empty()
    } else {
        let m = merged_hits(hs.drop_last());
        let h = hs.last();
        let j = key_index(m, normalized_name(h.name), 0);
        if j < 0 {
            m.push(h)
        } else {
            m.update(j, merge_view(m[j], h))
        }
    }
}

/// A found key index is in range and has the key; none before it has.
proof fn lemma_key_index(ms: Seq<HitView>, key: Seq<char>, i: int)
    requires
        0 <= i,
    ensures
        key_index(ms, key, i) == -1 || (i <= key_index(ms, key, i) < ms.len() && normalized_name(
            ms[key_index(ms, key, i)].name,
        ) == key),
        key_index(ms, key, i) == -1 ==> forall|q: int| i <= q < ms.len() ==> normalized_name(#[trigger] ms[q].name) != key,
    decreases ms.len() - i,
{
    if i < ms.len() && normalized_name(ms[i].name) != key {
        lemma_key_index(ms, key, i + 1);
    }
}

/// Fills the gaps of `e` from `h`.
fn merge_hit(e: SkillSearchHit, h: SkillSearchHit) -> (r: SkillSearchHit)
    ensures
        r@ == merge_view(e@, h@),
{
    let SkillSearchHit { id, name, description, source, install_source, tags, author, stars, url, installed } = e;
    let description = if !h.description.as_str().is_empty() && description.as_str().is_empty() {
        h.description
    } else {
        description
    };
    let tags = if h.tags.len() > 0 && tags.len() == 0 {
        h.tags
    } else {
        tags
    };
    let author = if h.author.is_some() && author.is_none() {
        h.author
    } else {
        author
    };
    let install_source = if !h.install_source.as_str().is_empty() && install_source.as_str().is_empty() {
        h.install_source
    } else {
        install_source
    };
    let url = if h.url.is_some() && url.is_none() {
        h.url
    } else {
        url
    };
    let hs: u64 = match h.stars {
        Some(n) => n,
        None => 0,
    };
    let es: u64 = match stars {
        Some(n) => n,
        None => 0,
    };
    let stars = if hs > es {
        h.stars
    } else {
        stars
    };
    let r = SkillSearchHit {
        id,
        name,
        description,
        source,
        install_source,
        tags,
        author,
        stars,
        url,
        installed: installed || h.installed,
    };
    r
}

/// Merges hits that name the same skill (by normalised name), keeping the
/// order in which each skill first appeared.
pub fn merge_hits(hits: Vec<SkillSearchHit>) -> (r: Vec<SkillSearchHit>)
    ensures
        hit_views(r@) == merged_hits(hit_views(hits@)),
{
    let ghost all = hit_views(hits@);
    let n = hits.len();
    let mut rest = hits;
    let mut out: Vec<SkillSearchHit> = Vec::new();
    let mut keys: Vec<String> = Vec::new();
    let mut k: usize = 0;
    while rest.len() > 0
        invariant
            n == all.len(),
            k + rest@.len() == all.len(),
            hit_views(rest@) == all.skip(k as int),
            hit_views(out@) == merged_hits(all.take(k as int)),
            keys@.len() == out@.len(),
            forall|q: int| 0 <= q < keys@.len() ==> #[trigger] keys@[q]@ == normalized_name(out@[q]@.name),
        decreases rest@.len(),
    {
        let ghost m = hit_views(out@);
        let ghost before_rest = rest@;
        let h = rest.remove(0);
        assert(h == before_rest[0]);
        assert(hit_views(before_rest)[0] == all.skip(k as int)[0]);
        assert(h@ == all[k as int]);
        assert(hit_views(rest@) =~= hit_views(before_rest).skip(1));
        assert(all.take(k + 1).drop_last() =~= all.take(k as int));
        assert(all.take(k + 1).last() == h@);
        let key = normalize_name(h.name.as_str());
        let mut j: usize = 0;
        let mut found: Option<usize> = None;
        while j < keys.len() && found.is_none()
            invariant
                j <= keys@.len(),
                keys@.len() == m.len(),
                m == hit_views(out@),
                forall|q: int| 0 <= q < keys@.len() ==> #[trigger] keys@[q]@ == normalized_name(out@[q]@.name),
                key@ == normalized_name(h@.name),
                found is None ==> key_index(m, key@, 0) == key_index(m, key@, j as int),
                found matches Some(f) ==> f < keys@.len() && f == key_index(m, key@, 0),
            decreases keys@.len() - j + if found is Some { 0int } else { 1int },
        {
            assert(keys@[j as int]@ == normalized_name(m[j as int].name));
            if str_eq(keys[j].as_str(), key.as_str()) {
                found = Some(j);
            } else {
                j += 1;
            }
        }
        proof {
            lemma_key_index(m, key@, 0);
        }
        match found {
            Some(f) => {
                let e = out.remove(f);
                let merged = merge_hit(e, h);
                out.insert(f, merged);
                assert(hit_views(out@) =~= m.update(f as int, merge_view(m[f as int], h@)));
            },
            None => {
                assert(key_index(m, key@, 0) == -1);
                let ghost hv = h@;
                out.push(h);
                keys.push(key);
                assert(hit_views(out@) =~= m.push(hv));
            },
        }
        k += 1;
        assert(all.skip(k as int) =~= all.skip(k - 1).skip(1));
    }
    assert(all.take(all.len() as int) =~= all);
    out
}

/// `a` ranks above `b`: installed skills first, then more stars, then (as
/// the ordering is written) hits with an empty description before those
/// with one.
pub open spec fn ranks_above(a: HitView, b: HitView) -> bool {
    ||| a.installed && !b.installed
    ||| a.installed == b.installed && star_count(a) > star_count(b)
    ||| a.installed == b.installed && star_count(a) == star_count(b) && a.description.len() == 0
        && b.description.len() > 0
}

/// `a` may come before `b`: `b` does not rank above it.
pub open spec fn ranks_ge(a: HitView, b: HitView) -> bool {
    !ranks_above(b, a)
}

/// Ranking above is transitive.
proof fn lemma_ranks_above_trans(a: HitView, b: HitView, c: HitView)
    requires
        ranks_above(a, b),
        ranks_above(b, c),
    ensures
        ranks_above(a, c),
{
}

/// Whether `a` ranks above `b`.
fn hit_ranks_above(a: &SkillSearchHit, b: &SkillSearchHit) -> (r: bool)
    ensures
        r == ranks_above(a@, b@),
{
    let sa: u64 = match a.stars {
        Some(n) => n,
        None => 0,
    };
    let sb: u64 = match b.stars {
        Some(n) => n,
        None => 0,
    };
    if a.installed != b.installed {
        a.installed
    } else if sa != sb {
        sa > sb
    } else {
        a.description.as_str().is_empty() && !b.description.as_str().is_empty()
    }
}

/// Orders hits by rank (installed first, then by stars, then empty
/// descriptions first); the result holds the same hits.
pub fn rank_hits(hits: Vec<SkillSearchHit>) -> (r: Vec<SkillSearchHit>)
    ensures
        sorted_by(hit_views(r@), |a: HitView, b: HitView| ranks_ge(a, b)),
        hit_views(r@).to_multiset() == hit_views(hits@).to_multiset(),
{
    let ghost all = hit_views(hits@);
    let n = hits.len();
    let mut rest = hits;
    let mut out: Vec<SkillSearchHit> = Vec::new();
    let mut k: usize = 0;
    assert(hit_views(out@) =~= all.take(0));
    while rest.len() > 0
        invariant
            n == all.len(),
            k + rest@.len() == all.len(),
            hit_views(rest@) == all.skip(k as int),
            out@.len() == k,
            forall|i: int, j: int|
                0 <= i < j < out@.len() ==> ranks_ge(#[trigger] out@[i]@, #[trigger] out@[j]@),
            hit_views(out@).to_multiset() == all.take(k as int).to_multiset(),
        decreases rest@.len(),
    {
        let ghost before_rest = rest@;
        let h = rest.remove(0);
        assert(h == before_rest[0]);
        assert(hit_views(before_rest)[0] == all.skip(k as int)[0]);
        assert(h@ == all[k as int]);
        assert(hit_views(rest@) =~= hit_views(before_rest).skip(1));
        let mut p: usize = 0;
        while p < out.len() && !hit_ranks_above(&h, &out[p])
            invariant
                p <= out@.len(),
                forall|i: int| 0 <= i < p ==> !ranks_above(h@, #[trigger] out@[i]@),
            decreases out@.len() - p,
        {
            p += 1;
        }
        let ghost old_out = out@;
        let ghost hv = h@;
        proof {
            assert forall|j: int| p <= j < old_out.len() implies ranks_ge(hv, #[trigger] old_out[j]@) by {
                if ranks_above(old_out[j]@, hv) {
                    lemma_ranks_above_trans(old_out[j]@, hv, old_out[p as int]@);
                    assert(ranks_ge(old_out[p as int]@, old_out[j]@));
                }
            }
        }
        out.insert(p, h);
        assert(out@ == old_out.insert(p as int, h));
        assert forall|i: int, j: int| 0 <= i < j < out@.len() implies ranks_ge(
            #[trigger] out@[i]@,
            #[trigger] out@[j]@,
        ) by {
            if j < p {
                assert(out@[i] == old_out[i] && out@[j] == old_out[j]);
            } else if j == p {
                assert(out@[i] == old_out[i]);
            } else if i == p {
                assert(out@[j] == old_out[j - 1]);
            } else if i < p {
                assert(out@[i] == old_out[i] && out@[j] == old_out[j - 1]);
            } else {
                assert(out@[i] == old_out[i - 1] && out@[j] == old_out[j - 1]);
            }
        }
        proof {
            assert(hit_views(out@) =~= hit_views(old_out).insert(p as int, hv));
            to_multiset_insert(hit_views(old_out), p as int, hv);
            assert(all.take(k + 1) =~= all.take(k as int).push(hv));
            to_multiset_build(all.take(k as int), hv);
        }
        k += 1;
        assert(all.skip(k as int) =~= all.skip(k - 1).skip(1));
    }
    assert(all.take(all.len() as int) =~= all);
    out
}

/// The search results: hits marked installed by name, merged per skill,
/// then ranked.
pub fn market_results(hits: Vec<SkillSearchHit>, installed_names: &Vec<String>) -> (r: Vec<SkillSearchHit>)
    ensures
        sorted_by(hit_views(r@), |a: HitView, b: HitView| ranks_ge(a, b)),
        exists|marked: Seq<SkillSearchHit>|
            {
                &&& marked.len() == hits@.len()
                &&& forall|i: int|
                    0 <= i < hits@.len() ==> #[trigger] marked[i]@ == with_installed(
                        hits@[i]@,
                        is_installed(installed_names@.map_values(|s: String| s@), hits@[i]@.name),
                    )
                &&& hit_views(r@).to_multiset() == merged_hits(hit_views(marked)).to_multiset()
            },
{
    let marked = mark_installed(hits, installed_names);
    let ghost mv = marked@;
    let merged = merge_hits(marked);
    let r = rank_hits(merged);
    assert(hit_views(r@).to_multiset() == merged_hits(hit_views(mv)).to_multiset());
    r
}

} // verus!
