//! A sliding window: when the request is over budget, drop the oldest items
//! after the first user message, keeping the most recent ones.

use crate::agent::event::ContentItem;
use crate::agent::llm_request::LlmRequest;
use crate::callback::context_optimizer::{
    below_threshold, countable_request, find_safe_start, first_user_index, first_user_message, is_below_threshold,
    law_safe_start_pairs_results, remove_range, safe_start, without_range,
};
use vstd::prelude::*;

verus! {

/// Keeps the first user message and the last `window_size` items.
pub struct SlidingWindow {
    pub model: String,
    pub token_threshold: usize,
    pub window_size: usize,
}

/// Where the kept tail starts: at the safe start for the last `window_size`
/// items, but never at or before the first user message `user_idx`.
pub open spec fn window_start(c: Seq<ContentItem>, window_size: nat, user_idx: int) -> int {
    let s = safe_start(c, c.len() - window_size);
    if s >= user_idx + 1 {
        s
    } else {
        user_idx + 1
    }
}

impl SlidingWindow {
    /// Over the budget, and with more than `window_size` items and a user
    /// message, removes the items between the first user message and the
    /// window start; otherwise leaves the request alone.
    pub fn apply(&self, request: &mut LlmRequest)
        requires
            countable_request(*old(request)),
        ensures
            final(request).instructions@ == old(request).instructions@,
            ({
                let c = old(request).contents@;
                if below_threshold(*old(request), self.token_threshold as nat) || c.len()
                    <= self.window_size || first_user_index(c) is None {
                    final(request).contents@ == c
                } else {
                    let u = first_user_index(c)->0;
                    final(request).contents@ == without_range(
                        c,
                        u + 1,
                        window_start(c, self.window_size as nat, u),
                    )
                }
            }),
    {
        if is_below_threshold(self.model.as_str(), request, self.token_threshold) {
            return;
        }
        if request.contents.len() <= self.window_size {
            return;
        }
        let user_idx = match first_user_message(&request.contents) {
            Some(i) => i,
            None => {
                return;
            },
        };
        let start = find_safe_start(&request.contents, request.contents.len() - self.window_size);
        let start = if start >= user_idx + 1 {
            start
        } else {
            user_idx + 1
        };
        remove_range(&mut request.contents, user_idx + 1, start);
    }
}

/// The window keeps everything up to and including the first user message and
/// the last `window_size` items, each unchanged and in order.
pub proof fn law_window_keeps_head_and_tail(c: Seq<ContentItem>, window_size: nat, user_idx: int)
    requires
        0 <= user_idx < c.len(),
        window_size <= c.len(),
    ensures
        ({
            let r = without_range(c, user_idx + 1, window_start(c, window_size, user_idx));
            &&& r.take(user_idx + 1) == c.take(user_idx + 1)
            &&& r.len() >= window_size
            &&& r.skip(r.len() - window_size) == c.skip(c.len() - window_size)
        }),
{
    let s = window_start(c, window_size, user_idx);
    law_safe_start_pairs_results(c, c.len() - window_size);
    let r = without_range(c, user_idx + 1, s);
    assert(r.take(user_idx + 1) =~= c.take(user_idx + 1));
    if window_size <= c.len() - (user_idx + 1) {
        assert(user_idx + 1 <= s <= c.len() - window_size);
        assert(r.skip(r.len() - window_size) =~= c.skip(c.len() - window_size));
    } else {
        assert(s == user_idx + 1);
        assert(r =~= c);
    }
}

} // verus!
