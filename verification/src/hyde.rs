//! The hypothetical-document prompt used to widen short retrieval queries.
use vstd::prelude::*;

use crate::text::{chars_of, extend_chars, string_from};

verus! {

/// The prompt asking a model for a hypothetical document that would answer
/// `query` (100–200 characters, the query's key terms, natural prose).
pub open spec fn hyde_prompt_text(query: Seq<char>) -> Seq<char> {
    "你是一个文档生成助手。用户会提出一个查询，请你生成一段假设性的文档内容，这段内容应该：\n1. 假设存在一份权威文档能回答这个查询\n2. 用100-200字描述这份文档可能包含的内容\n3. 包含与查询相关的关键术语和概念\n4. 像真实文档一样自然流畅\n\n查询："@
        + query + "\n\n请生成假设文档内容（只输出文档内容本身，不要加解释）："@
}

/// Builds the hypothetical-document prompt for `query`.
pub fn hyde_prompt(query: &str) -> (r: String)
    ensures
        r@ == hyde_prompt_text(query@),
{
    let mut out: Vec<char> = Vec::new();
    extend_chars(
        &mut out,
        &chars_of(
            "你是一个文档生成助手。用户会提出一个查询，请你生成一段假设性的文档内容，这段内容应该：\n1. 假设存在一份权威文档能回答这个查询\n2. 用100-200字描述这份文档可能包含的内容\n3. 包含与查询相关的关键术语和概念\n4. 像真实文档一样自然流畅\n\n查询：",
        ),
    );
    extend_chars(&mut out, &chars_of(query));
    extend_chars(&mut out, &chars_of("\n\n请生成假设文档内容（只输出文档内容本身，不要加解释）："));
    string_from(&out)
}

} // verus!
