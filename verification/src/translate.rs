//! Translation helpers: prompt assembly, cleaning of model output, and
//! splitting Markdown into code, heading and prose blocks.
use vstd::prelude::*;

use crate::text::{
    lines_from, lines_of, strip_cr,
    chars_of, extend_chars, find_char, find_from, is_trimmed, lemma_find_from_range,
    lemma_trim_is_trimmed, slice_chars, starts_with_chars, string_from, trim, trim_start,
    trim_start_index, trimmed,
};

verus! {

/// The answer prefixes a model tends to add, in the order they are tried.
pub open spec fn answer_prefixes() -> Seq<Seq<char>> {
    seq!["Translation:"@, "翻译："@, "翻译:"@, "Translated text:"@]
}

/// `s` begins with `p`.
pub open spec fn has_prefix(s: Seq<char>, p: Seq<char>) -> bool {
    p.len() <= s.len() && s.take(p.len() as int) == p
}

/// `s` without the first of the answer prefixes it begins with (then trimmed).
pub open spec fn strip_prefix_step(s: Seq<char>) -> Seq<char> {
    let ps = answer_prefixes();
    if has_prefix(s, ps[0]) {
        trim(s.skip(ps[0].len() as int))
    } else if has_prefix(s, ps[1]) {
        trim(s.skip(ps[1].len() as int))
    } else if has_prefix(s, ps[2]) {
        trim(s.skip(ps[2].len() as int))
    } else if has_prefix(s, ps[3]) {
        trim(s.skip(ps[3].len() as int))
    } else {
        s
    }
}

/// `s` both begins and ends with three backticks.
pub open spec fn is_fenced(s: Seq<char>) -> bool {
    s.len() >= 3 && s[0] == '`' && s[1] == '`' && s[2] == '`' && s[s.len() - 3] == '`' && s[s.len()
        - 2] == '`' && s[s.len() - 1] == '`'
}

/// `s` without a surrounding code fence (then trimmed).
pub open spec fn strip_fence_step(s: Seq<char>) -> Seq<char> {
    if is_fenced(s) {
        trim(s.subrange(3, s.len() - 3))
    } else {
        s
    }
}

/// Matching quote characters around a whole answer.
pub open spec fn is_quote_pair(open: char, close: char) -> bool {
    (open == '"' && close == '"') || (open == '\'' && close == '\'') || (open == '“' && close
        == '”') || (open == '‘' && close == '’') || (open == '「' && close == '」')
}

/// `s` without surrounding matching quotes (then trimmed).
pub open spec fn strip_quotes_step(s: Seq<char>) -> Seq<char> {
    let t = trim(s);
    if t.len() >= 2 && is_quote_pair(t[0], t.last()) {
        trim(t.subrange(1, t.len() - 1))
    } else {
        s
    }
}

/// The cleaned model answer.
pub open spec fn stripped_answer(text: Seq<char>) -> Seq<char> {
    strip_quotes_step(strip_fence_step(strip_prefix_step(trim(text))))
}

/// The answer, after trimming and prefix removal, is a bare fence of three to
/// five backticks, whose removal would cut past its own end.
pub open spec fn is_bare_fence(text: Seq<char>) -> bool {
    let s = strip_prefix_step(trim(text));
    is_fenced(s) && s.len() < 6
}

/// Removes what models often wrap a translation in: an answer prefix such as
/// `Translation:`, a code fence, and a pair of surrounding quotes.
pub fn strip_artifacts(text: &str) -> (r: String)
    requires
        !is_bare_fence(text@),
    ensures
        r@ == stripped_answer(text@),
{
    let all = chars_of(text);
    let out0 = trimmed(&all);
    let p0 = chars_of("Translation:");
    let p1 = chars_of("翻译：");
    let p2 = chars_of("翻译:");
    let p3 = chars_of("Translated text:");
    let out1 = if starts_with_chars(&out0, &p0) {
        let rest = slice_chars(&out0, p0.len(), out0.len());
        assert(rest@ =~= out0@.skip(p0@.len() as int));
        trimmed(&rest)
    } else if starts_with_chars(&out0, &p1) {
        let rest = slice_chars(&out0, p1.len(), out0.len());
        assert(rest@ =~= out0@.skip(p1@.len() as int));
        trimmed(&rest)
    } else if starts_with_chars(&out0, &p2) {
        let rest = slice_chars(&out0, p2.len(), out0.len());
        assert(rest@ =~= out0@.skip(p2@.len() as int));
        trimmed(&rest)
    } else if starts_with_chars(&out0, &p3) {
        let rest = slice_chars(&out0, p3.len(), out0.len());
        assert(rest@ =~= out0@.skip(p3@.len() as int));
        trimmed(&rest)
    } else {
        out0
    };
    assert(out1@ == strip_prefix_step(trim(text@)));
    let n1 = out1.len();
    let out2 = if n1 >= 3 && out1[0] == '`' && out1[1] == '`' && out1[2] == '`' && out1[n1 - 3]
        == '`' && out1[n1 - 2] == '`' && out1[n1 - 1] == '`' {
        let inner = slice_chars(&out1, 3, n1 - 3);
        trimmed(&inner)
    } else {
        out1
    };
    assert(out2@ == strip_fence_step(out1@));
    let t = trimmed(&out2);
    let n = t.len();
    if n >= 2 {
        let open = t[0];
        let close = t[n - 1];
        let pair = (open == '"' && close == '"') || (open == '\'' && close == '\'') || (open == '“'
            && close == '”') || (open == '‘' && close == '’') || (open == '「' && close == '」');
        if pair {
            let inner = slice_chars(&t, 1, n - 1);
            let res = trimmed(&inner);
            return string_from(&res);
        }
    }
    string_from(&out2)
}

/// Law: the cleaned answer has no leading or trailing whitespace.
pub proof fn law_stripped_answer_trimmed(text: Seq<char>)
    ensures
        is_trimmed(stripped_answer(text)),
{
    let s0 = trim(text);
    lemma_trim_is_trimmed(text);
    let s1 = strip_prefix_step(s0);
    let ps = answer_prefixes();
    lemma_trim_is_trimmed(s0.skip(ps[0].len() as int));
    lemma_trim_is_trimmed(s0.skip(ps[1].len() as int));
    lemma_trim_is_trimmed(s0.skip(ps[2].len() as int));
    lemma_trim_is_trimmed(s0.skip(ps[3].len() as int));
    let s2 = strip_fence_step(s1);
    if is_fenced(s1) {
        lemma_trim_is_trimmed(s1.subrange(3, s1.len() - 3));
    }
    let t = trim(s2);
    if t.len() >= 2 {
        lemma_trim_is_trimmed(t.subrange(1, t.len() - 1));
    }
}

/// What a Markdown block holds.
#[derive(Debug, Clone, Copy, PartialEq, Eq, Structural)]
pub enum BlockKind {
    Code,
    Text,
    Heading { level: u8 },
}

/// A block of a Markdown document: code is kept verbatim, headings lose their
/// `#` marks, text is translated as it stands.
#[derive(Debug, Clone)]
pub struct MdBlock {
    pub kind: BlockKind,
    pub text: String,
}

/// The kinds and texts of a sequence of blocks.
pub open spec fn block_views(b: Seq<MdBlock>) -> Seq<(BlockKind, Seq<char>)> {
    b.map_values(|m: MdBlock| (m.kind, m.text@))
}

/// Number of `#` characters that `t` begins with.
pub open spec fn leading_hashes(t: Seq<char>) -> nat
    decreases t.len(),
{
    if t.len() > 0 && t[0] == '#' {
        1 + leading_hashes(t.drop_first())
    } else {
        0
    }
}

/// `t` (a line without its indentation) opens or closes a code fence.
pub open spec fn is_fence_line(t: Seq<char>) -> bool {
    t.len() >= 3 && t[0] == '`' && t[1] == '`' && t[2] == '`'
}

/// `t` (a line without its indentation) is an ATX heading: one to six `#`
/// followed by a space.
pub open spec fn is_heading_line(t: Seq<char>) -> bool {
    let n = leading_hashes(t);
    1 <= n <= 6 && n < t.len() && t[n as int] == ' '
}

/// State of the block scan: blocks emitted, whether inside a fence, and the
/// pending code and text.
pub struct MdScan {
    pub blocks: Seq<(BlockKind, Seq<char>)>,
    pub in_code: bool,
    pub code: Seq<char>,
    pub text: Seq<char>,
}

/// The scan before the first line.
pub open spec fn md_start() -> MdScan {
    MdScan { blocks: seq![], in_code: false, code: seq![], text: seq![] }
}

/// Emits the pending text, if any.
pub open spec fn flush_text(st: MdScan) -> MdScan {
    MdScan {
        blocks: if st.text.len() > 0 {
            st.blocks.push((BlockKind::Text, st.text))
        } else {
            st.blocks
        },
        in_code: st.in_code,
        code: st.code,
        text: seq![],
    }
}

/// Emits the pending code, then the pending text, and leaves the fence.
pub open spec fn flush_all(st: MdScan) -> MdScan {
    let with_code = if st.code.len() > 0 {
        st.blocks.push((BlockKind::Code, st.code))
    } else {
        st.blocks
    };
    MdScan {
        blocks: if st.text.len() > 0 {
            with_code.push((BlockKind::Text, st.text))
        } else {
            with_code
        },
        in_code: false,
        code: seq![],
        text: seq![],
    }
}

/// One line of the scan.
pub open spec fn md_step(st: MdScan, line: Seq<char>) -> MdScan {
    let t = trim_start(line);
    let l = line.push('\n');
    if is_fence_line(t) {
        if st.in_code {
            flush_all(MdScan { blocks: st.blocks, in_code: st.in_code, code: st.code + l, text: st.text })
        } else {
            let s1 = flush_text(st);
            MdScan { blocks: s1.blocks, in_code: true, code: s1.code + l, text: s1.text }
        }
    } else if st.in_code {
        MdScan { blocks: st.blocks, in_code: st.in_code, code: st.code + l, text: st.text }
    } else if is_heading_line(t) {
        let s1 = flush_text(st);
        let n = leading_hashes(t);
        MdScan {
            blocks: s1.blocks.push((BlockKind::Heading { level: n as u8 }, trim(t.skip(n as int)))),
            in_code: s1.in_code,
            code: s1.code,
            text: s1.text,
        }
    } else {
        MdScan { blocks: st.blocks, in_code: st.in_code, code: st.code, text: st.text + l }
    }
}

/// The scan after the given lines.
pub open spec fn md_run(lines: Seq<Seq<char>>, st: MdScan) -> MdScan
    decreases lines.len(),
{
    if lines.len() == 0 {
        st
    } else {
        md_run(lines.drop_first(), md_step(st, lines[0]))
    }
}

/// The blocks of a Markdown document, in order.
pub open spec fn markdown_blocks(content: Seq<char>) -> Seq<(BlockKind, Seq<char>)> {
    flush_all(md_run(lines_of(content), md_start())).blocks
}

/// Executable state of the block scan.
struct Scanner {
    blocks: Vec<MdBlock>,
    in_code: bool,
    code: Vec<char>,
    text: Vec<char>,
}

impl Scanner {
    spec fn view(&self) -> MdScan {
        MdScan {
            blocks: block_views(self.blocks@),
            in_code: self.in_code,
            code: self.code@,
            text: self.text@,
        }
    }

    fn emit(&mut self, kind: BlockKind, text: &[char])
        ensures
            final(self).view() == (MdScan {
                blocks: old(self).view().blocks.push((kind, text@)),
                ..old(self).view()
            }),
    {
        let s = string_from(text);
        let ghost before = self.blocks@;
        self.blocks.push(MdBlock { kind, text: s });
        assert(block_views(self.blocks@) =~= block_views(before).push((kind, text@)));
    }

    fn flush_text(&mut self)
        ensures
            final(self).view() == flush_text(old(self).view()),
    {
        if self.text.len() > 0 {
            let mut t: Vec<char> = Vec::new();
            std::mem::swap(&mut t, &mut self.text);
            self.emit(BlockKind::Text, &t);
        }
        assert(self.text@ =~= Seq::<char>::empty());
    }

    fn flush_all(&mut self)
        ensures
            final(self).view() == flush_all(old(self).view()),
    {
        if self.code.len() > 0 {
            let mut c: Vec<char> = Vec::new();
            std::mem::swap(&mut c, &mut self.code);
            self.emit(BlockKind::Code, &c);
        }
        assert(self.code@ =~= Seq::<char>::empty());
        self.flush_text();
        self.in_code = false;
    }

    fn step(&mut self, line: &[char])
        ensures
            final(self).view() == md_step(old(self).view(), line@),
    {
        let k = trim_start_index(line);
        let n = line.len();
        let mut l: Vec<char> = Vec::new();
        extend_chars(&mut l, line);
        l.push('\n');
        let fence = n - k >= 3 && line[k] == '`' && line[k + 1] == '`' && line[k + 2] == '`';
        if fence {
            if self.in_code {
                extend_chars(&mut self.code, &l);
                self.flush_all();
            } else {
                self.flush_text();
                self.in_code = true;
                extend_chars(&mut self.code, &l);
            }
            return;
        }
        if self.in_code {
            extend_chars(&mut self.code, &l);
            return;
        }
        let mut h = k;
        while h < n && line[h] == '#'
            invariant
                k <= h <= n == line@.len(),
                leading_hashes(line@.skip(k as int)) == (h - k) + leading_hashes(line@.skip(h as int)),
            decreases n - h,
        {
            assert(line@.skip(h as int).drop_first() =~= line@.skip(h + 1));
            h += 1;
        }
        let hashes = h - k;
        if 1 <= hashes && hashes <= 6 && h < n && line[h] == ' ' {
            self.flush_text();
            let rest = slice_chars(line, h, n);
            assert(rest@ =~= line@.skip(k as int).skip(hashes as int));
            let title = trimmed(&rest);
            self.emit(BlockKind::Heading { level: hashes as u8 }, &title);
            return;
        }
        extend_chars(&mut self.text, &l);
    }
}

/// Splits Markdown into code blocks (kept whole, fences included), headings
/// (level and title) and runs of text, in document order.
pub fn split_markdown_blocks(content: &str) -> (r: Vec<MdBlock>)
    ensures
        block_views(r@) == markdown_blocks(content@),
{
    let cs = chars_of(content);
    let mut sc = Scanner { blocks: Vec::new(), in_code: false, code: Vec::new(), text: Vec::new() };
    assert(block_views(sc.blocks@) =~= seq![]);
    let mut pos: usize = 0;
    while pos < cs.len()
        invariant
            pos <= cs@.len(),
            cs@ == content@,
            md_run(lines_from(cs@, pos as int), sc.view()) == md_run(lines_of(cs@), md_start()),
        decreases cs@.len() - pos,
    {
        let ghost lines = lines_from(cs@, pos as int);
        let found = find_char(&cs, '\n', pos);
        let (hi, next) = match found {
            Some(i) => {
                if i > pos && cs[i - 1] == '\r' {
                    (i - 1, i + 1)
                } else {
                    (i, i + 1)
                }
            },
            None => (cs.len(), cs.len()),
        };
        let line = slice_chars(&cs, pos, hi);
        proof {
            lemma_find_from_range(cs@, '\n', pos as int);
            let i = find_from(cs@, '\n', pos as int);
            if i >= 0 {
                let raw = cs@.subrange(pos as int, i);
                if i > pos && cs@[i - 1] == '\r' {
                    assert(raw.drop_last() =~= line@);
                } else {
                    assert(raw =~= line@);
                }
                assert(lines[0] == line@);
                assert(lines.drop_first() =~= lines_from(cs@, next as int));
            } else {
                assert(lines[0] == line@);
                assert(lines.drop_first() =~= lines_from(cs@, next as int));
            }
        }
        sc.step(&line);
        pos = next;
    }
    sc.flush_all();
    sc.blocks
}

/// The prompt that asks a model to translate `text` from `source_lang` to
/// `target_lang`, with the glossary constraints (possibly empty) in between.
pub open spec fn translate_prompt(
    text: Seq<char>,
    source_lang: Seq<char>,
    target_lang: Seq<char>,
    glossary: Seq<char>,
) -> Seq<char> {
    "Translate the following text from "@ + source_lang + " to "@ + target_lang + ".\n"@ + glossary
        + "Rules: preserve code, formatting, proper nouns and placeholders like {var};\noutput ONLY the translation without quotes.\n\n"@
        + text
}

/// Builds the translation prompt.
pub fn build_translate_prompt(
    text: &str,
    source_lang: &str,
    target_lang: &str,
    glossary: &str,
) -> (r: String)
    ensures
        r@ == translate_prompt(text@, source_lang@, target_lang@, glossary@),
{
    let mut out: Vec<char> = Vec::new();
    extend_chars(&mut out, &chars_of("Translate the following text from "));
    extend_chars(&mut out, &chars_of(source_lang));
    extend_chars(&mut out, &chars_of(" to "));
    extend_chars(&mut out, &chars_of(target_lang));
    extend_chars(&mut out, &chars_of(".\n"));
    extend_chars(&mut out, &chars_of(glossary));
    extend_chars(
        &mut out,
        &chars_of(
            "Rules: preserve code, formatting, proper nouns and placeholders like {var};\noutput ONLY the translation without quotes.\n\n",
        ),
    );
    extend_chars(&mut out, &chars_of(text));
    string_from(&out)
}

/// CJK ideographs: the unified blocks, extensions A, B and C, and the
/// compatibility ideographs.
pub open spec fn cjk_ideograph(c: char) -> bool {
    let u = c as u32;
    ||| 0x4E00 <= u <= 0x9FFF
    ||| 0x3400 <= u <= 0x4DBF
    ||| 0x20000 <= u <= 0x2A6DF
    ||| 0x2A700 <= u <= 0x2B73F
    ||| 0xF900 <= u <= 0xFAFF
}

/// Whether `c` is a CJK ideograph.
pub fn is_cjk(c: char) -> (r: bool)
    ensures
        r == cjk_ideograph(c),
{
    let u = c as u32;
    (0x4E00 <= u && u <= 0x9FFF) || (0x3400 <= u && u <= 0x4DBF) || (0x20000 <= u && u <= 0x2A6DF)
        || (0x2A700 <= u && u <= 0x2B73F) || (0xF900 <= u && u <= 0xFAFF)
}

/// How many characters of `s` satisfy `f`.
pub open spec fn count_where(s: Seq<char>, f: spec_fn(char) -> bool) -> nat
    decreases s.len(),
{
    if s.len() == 0 {
        0
    } else {
        count_where(s.drop_last(), f) + if f(s.last()) {
            1nat
        } else {
            0nat
        }
    }
}

/// An ASCII letter.
pub open spec fn ascii_letter(c: char) -> bool {
    ('a' <= c && c <= 'z') || ('A' <= c && c <= 'Z')
}

/// The language a text is taken to be in: `zh` when more than 30% of its
/// characters are CJK ideographs, else `en` when more than half are ASCII
/// letters, else `unknown` (also for an empty text).
pub open spec fn detected_language(s: Seq<char>) -> Seq<char> {
    let total = s.len();
    let cjk = count_where(s, |c: char| cjk_ideograph(c));
    let latin = count_where(s, |c: char| ascii_letter(c));
    if total == 0 {
        "unknown"@
    } else if 10 * cjk > 3 * total {
        "zh"@
    } else if 2 * latin > total {
        "en"@
    } else {
        "unknown"@
    }
}

/// The counts of CJK ideographs and ASCII letters in `text`, and its length.
pub fn language_counts(text: &str) -> (r: (usize, usize, usize))
    ensures
        r.0 == count_where(text@, |c: char| cjk_ideograph(c)),
        r.1 == count_where(text@, |c: char| ascii_letter(c)),
        r.2 == text@.len(),
{
    let cs = chars_of(text);
    let mut cjk: usize = 0;
    let mut latin: usize = 0;
    let mut i: usize = 0;
    while i < cs.len()
        invariant
            i <= cs@.len(),
            cs@ == text@,
            cjk == count_where(cs@.take(i as int), |c: char| cjk_ideograph(c)),
            latin == count_where(cs@.take(i as int), |c: char| ascii_letter(c)),
            cjk <= i && latin <= i,
        decreases cs@.len() - i,
    {
        assert(cs@.take(i + 1).drop_last() =~= cs@.take(i as int));
        let c = cs[i];
        if is_cjk(c) {
            cjk += 1;
        }
        if ('a' <= c && c <= 'z') || ('A' <= c && c <= 'Z') {
            latin += 1;
        }
        i += 1;
    }
    assert(cs@.take(cs@.len() as int) =~= cs@);
    (cjk, latin, cs.len())
}

/// The language a text is taken to be in (`zh`, `en` or `unknown`).
pub fn detect_language_label(text: &str) -> (r: &'static str)
    ensures
        r@ == detected_language(text@),
{
    let (cjk, latin, total) = language_counts(text);
    if total == 0 {
        "unknown"
    } else if cjk as u128 * 10 > total as u128 * 3 {
        "zh"
    } else if latin as u128 * 2 > total as u128 {
        "en"
    } else {
        "unknown"
    }
}


/// `c` with an ASCII lower-case letter made upper-case.
pub open spec fn ascii_upper(c: char) -> char {
    if 'a' <= c && c <= 'z' {
        ((c as u32) - 32) as char
    } else {
        c
    }
}

proof fn lemma_counts_ignore_case(s: Seq<char>)
    ensures
        count_where(s.map_values(|c: char| ascii_upper(c)), |c: char| ascii_letter(c)) == count_where(
            s,
            |c: char| ascii_letter(c),
        ),
        count_where(s.map_values(|c: char| ascii_upper(c)), |c: char| cjk_ideograph(c)) == count_where(
            s,
            |c: char| cjk_ideograph(c),
        ),
    decreases s.len(),
{
    if s.len() > 0 {
        let u = s.map_values(|c: char| ascii_upper(c));
        lemma_counts_ignore_case(s.drop_last());
        assert(u.drop_last() =~= s.drop_last().map_values(|c: char| ascii_upper(c)));
        let c = s.last();
        assert(u.last() == ascii_upper(c));
        if 'a' <= c && c <= 'z' {
            assert('A' <= ascii_upper(c) && ascii_upper(c) <= 'Z');
            assert((ascii_upper(c) as u32) < 0x80);
        }
    }
}

/// Law: detection ignores ASCII case: upper-casing the ASCII letters of a
/// text changes neither the letter count nor the detected language.
pub proof fn law_detection_ignores_ascii_case(s: Seq<char>)
    ensures
        count_where(s.map_values(|c: char| ascii_upper(c)), |c: char| ascii_letter(c)) == count_where(
            s,
            |c: char| ascii_letter(c),
        ),
        detected_language(s.map_values(|c: char| ascii_upper(c))) == detected_language(s),
{
    lemma_counts_ignore_case(s);
}

proof fn lemma_all_letters_count(s: Seq<char>)
    requires
        forall|i: int| 0 <= i < s.len() ==> ('a' <= #[trigger] s[i] <= 'z') || ('A' <= s[i] <= 'Z'),
    ensures
        count_where(s, |c: char| ascii_letter(c)) == s.len(),
        count_where(s, |c: char| cjk_ideograph(c)) == 0,
    decreases s.len(),
{
    if s.len() > 0 {
        assert forall|i: int| 0 <= i < s.drop_last().len() implies ('a' <= #[trigger] s.drop_last()[i] <= 'z') || (
        'A' <= s.drop_last()[i] <= 'Z') by {
            assert(s.drop_last()[i] == s[i]);
        }
        lemma_all_letters_count(s.drop_last());
        assert(s.last() == s[s.len() - 1]);
    }
}

/// Law: a non-empty text of ASCII letters only, in either case, is
/// English.
pub proof fn law_ascii_letters_are_english(s: Seq<char>)
    requires
        s.len() > 0,
        forall|i: int| 0 <= i < s.len() ==> ('a' <= #[trigger] s[i] <= 'z') || ('A' <= s[i] <= 'Z'),
    ensures
        detected_language(s) == "en"@,
{
    lemma_all_letters_count(s);
}

} // verus!
