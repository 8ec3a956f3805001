//! Contextual retrieval: a short note on where a chunk sits in its document,
//! prepended to the chunk before it is embedded and indexed.
use vstd::prelude::*;

use crate::text::{chars_of, extend_chars, replace_all, replace_str, slice_chars, string_from, trim, trimmed};

verus! {

/// Writes the context note for a chunk of a document.
pub trait Contextualizer {
    /// The context note for `chunk` within `document`.
    fn contextualize(&self, document: &str, chunk: &str) -> String;
}

/// The prompt template; `{document}` and `{chunk}` are filled in.
pub open spec fn context_template() -> Seq<char> {
    "\n<document>\n{document}\n</document>\n这里是需要结合整篇文档定位的片段：\n<chunk>\n{chunk}\n</chunk>\n请用一两句简洁的中文说明该片段在文档中的位置与主题（所属章节、涉及实体、时间范围、上下文关系），用于改善检索。只输出说明本身，不要复述片段内容。\n"@
}

/// The prompt for a chunk: the template with `{document}` replaced first,
/// then `{chunk}` (also where the document text itself contains it).
pub open spec fn context_prompt(document: Seq<char>, chunk: Seq<char>) -> Seq<char> {
    replace_all(replace_all(context_template(), "{document}"@, document), "{chunk}"@, chunk)
}

/// Context notes written by a language model.  The caller sends
/// [`LlmContextualizer::prompt`] to the model and passes the reply to
/// [`LlmContextualizer::finish`].
#[derive(Debug, Clone, Copy)]
pub struct LlmContextualizer;

impl LlmContextualizer {
    /// A model-backed contextualizer.
    pub fn new() -> (r: Self) {
        LlmContextualizer
    }

    /// The prompt asking for the context note of `chunk` within `document`.
    pub fn prompt(&self, document: &str, chunk: &str) -> (r: String)
        ensures
            r@ == context_prompt(document@, chunk@),
    {
        let template = "\n<document>\n{document}\n</document>\n这里是需要结合整篇文档定位的片段：\n<chunk>\n{chunk}\n</chunk>\n请用一两句简洁的中文说明该片段在文档中的位置与主题（所属章节、涉及实体、时间范围、上下文关系），用于改善检索。只输出说明本身，不要复述片段内容。\n";
        proof {
            reveal_strlit("{document}");
            reveal_strlit("{chunk}");
        }
        let with_doc = replace_str(template, "{document}", document);
        replace_str(with_doc.as_str(), "{chunk}", chunk)
    }

    /// The note from the model's reply: the reply trimmed.
    pub fn finish(&self, reply: &str) -> (r: String)
        ensures
            r@ == trim(reply@),
    {
        let cs = chars_of(reply);
        string_from(&trimmed(&cs))
    }
}

/// The fallback note: the opening 120 characters of the document.
pub open spec fn heuristic_context(document: Seq<char>) -> Seq<char> {
    "文档开篇背景："@ + document.take(if document.len() < 120 {
        document.len() as int
    } else {
        120
    }) + "…"@
}

/// Context without a model: the document's opening as background.
#[derive(Debug, Clone, Copy)]
pub struct HeuristicContextualizer;

impl Contextualizer for HeuristicContextualizer {
    fn contextualize(&self, document: &str, chunk: &str) -> (r: String)
        ensures
            r@ == heuristic_context(document@),
    {
        let cs = chars_of(document);
        let n = if cs.len() < 120 {
            cs.len()
        } else {
            120
        };
        let head = slice_chars(&cs, 0, n);
        assert(head@ =~= document@.take(n as int));
        let mut out = chars_of("文档开篇背景：");
        extend_chars(&mut out, &head);
        extend_chars(&mut out, &chars_of("…"));
        string_from(&out)
    }
}

} // verus!
