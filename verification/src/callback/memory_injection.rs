//! Before each model call, past task records related to the latest user
//! message are added to the instructions.

use crate::agent::event::ContentItem;
use crate::agent::llm_request::LlmRequest;
use crate::memory::task_memory::TaskMemory;
use crate::text::str_equal;
use crate::tools::recall_memory::{memories_text, RecallMemoryTool};
use vstd::prelude::*;
use vstd::string::*;

verus! {

/// Searches past records with the latest user message and injects the best
/// `top_k` of them.
pub struct MemoryInjectionCallback {
    pub top_k: usize,
}

/// `i` is the position of the last user message in `c`.
pub open spec fn is_last_user_message(c: Seq<ContentItem>, i: int) -> bool {
    &&& 0 <= i < c.len()
    &&& c[i].is_user_message()
    &&& forall|m: int| i < m < c.len() ==> !(#[trigger] c[m]).is_user_message()
}

/// The instruction that carries the formatted records.
pub open spec fn injection_text(formatted: Seq<char>) -> Seq<char> {
    "以下是过去解决类似问题的记录：\n\n<PAST_EXPERIENCES>\n"@ + formatted
        + "\n</PAST_EXPERIENCES>\n\n请参考成功的方法，避免重复失败的尝试。"@
}

impl MemoryInjectionCallback {
    /// Three records by default.
    pub fn new() -> (c: Self)
        ensures
            c.top_k == 3,
    {
        MemoryInjectionCallback { top_k: 3 }
    }

    /// The same callback with another number of records.
    pub fn with_top_k(self, top_k: usize) -> (c: Self)
        ensures
            c.top_k == top_k,
    {
        MemoryInjectionCallback { top_k }
    }

    /// The text of the last user message, which is the search query.
    pub fn latest_user_message(request: &LlmRequest) -> (r: Option<String>)
        ensures
            match r {
                Some(q) => exists|i: int|
                    is_last_user_message(request.contents@, i) && ((#[trigger] request.contents@[i]) matches ContentItem::Message {
                        content,
                        ..
                    } && content@ == q@),
                None => forall|i: int|
                    0 <= i < request.contents@.len() ==> !(#[trigger] request.contents@[i]).is_user_message(),
            },
    {
        let mut k = request.contents.len();
        while k > 0
            invariant
                k <= request.contents@.len(),
                forall|m: int|
                    k <= m < request.contents@.len() ==> !(#[trigger] request.contents@[m]).is_user_message(),
            decreases k,
        {
            match &request.contents[k - 1] {
                ContentItem::Message { role, content } => {
                    if str_equal(role.as_str(), "user") {
                        proof {
                            assert(is_last_user_message(request.contents@, k - 1));
                        }
                        return Some(content.clone());
                    }
                },
                _ => {},
            }
            k = k - 1;
        }
        None
    }

    /// Adds the found records to the request's instructions; nothing is added
    /// when none was found.
    pub fn inject(request: &mut LlmRequest, memories: &Vec<TaskMemory>)
        ensures
            final(request).contents@ == old(request).contents@,
            memories@.len() == 0 ==> final(request).instructions@ == old(request).instructions@,
            memories@.len() > 0 ==> {
                &&& final(request).instructions@.len() == old(request).instructions@.len() + 1
                &&& final(request).instructions@.drop_last() == old(request).instructions@
                &&& final(request).instructions@.last()@ == injection_text(memories_text(memories@))
            },
    {
        if memories.len() == 0 {
            return;
        }
        let formatted = RecallMemoryTool::format_memories(memories);
        let mut text = String::from_str("以下是过去解决类似问题的记录：\n\n<PAST_EXPERIENCES>\n");
        text.append(formatted.as_str());
        text.append("\n</PAST_EXPERIENCES>\n\n请参考成功的方法，避免重复失败的尝试。");
        request.append_instructions(text);
        proof {
            assert(request.instructions@.drop_last() =~= old(request).instructions@);
        }
    }
}

} // verus!
