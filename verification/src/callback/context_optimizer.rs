//! Keeping the request under a token budget: compaction first, then a
//! summary of older progress.

pub mod compaction;
pub mod sliding_window;
pub mod summarization;

use crate::agent::event::ContentItem;
use crate::agent::llm_request::LlmRequest;
use crate::callback::context_optimizer::compaction::{is_compaction_of, Compaction};
use crate::text::{chars_of, is_white_space, is_white_space_char, str_equal, views};
use vstd::prelude::*;
use vstd::string::*;

verus! {

/// The number of tokens the `cl100k_base` encoding gives `text` with
/// `encode_ordinary`.
pub uninterp spec fn cl100k_token_count(text: Seq<char>) -> nat;

/// The longest run of white space the token counter is given. The
/// tokenizer's pattern `\s+(?!\S)` runs in fancy-regex's backtracking VM,
/// which keeps one entry per character of a white-space run and returns an
/// error once its stack holds a million entries; this bound stays well
/// below that.
pub const WHITE_SPACE_RUN_LIMIT: usize = 100_000;

/// The length of the run of white space that ends just before position `i`.
pub open spec fn white_space_run_before(text: Seq<char>, i: int) -> nat
    decreases i,
{
    if i <= 0 || i > text.len() || !is_white_space(text[i - 1]) {
        0
    } else {
        1 + white_space_run_before(text, i - 1)
    }
}

/// `text` holds no run of white space as long as `WHITE_SPACE_RUN_LIMIT`.
pub open spec fn countable_text(text: Seq<char>) -> bool {
    forall|i: int| 0 <= i <= text.len() ==> #[trigger] white_space_run_before(text, i) < WHITE_SPACE_RUN_LIMIT
}

/// Every text of the item that is counted is countable.
pub open spec fn countable_item(item: ContentItem) -> bool {
    match item {
        ContentItem::Message { content, .. } => countable_text(content@),
        ContentItem::ToolCall(c) => countable_text(c.name@) && countable_text(c.arguments@),
        ContentItem::ToolResult { content, .. } => countable_text(content@),
    }
}

/// Every instruction and item of the request is countable.
pub open spec fn countable_request(request: LlmRequest) -> bool {
    &&& forall|i: int| 0 <= i < request.instructions@.len() ==> countable_text(#[trigger] request.instructions@[i]@)
    &&& forall|j: int| 0 <= j < request.contents@.len() ==> countable_item(#[trigger] request.contents@[j])
}

/// Whether the text holds no white-space run as long as the limit.
pub fn countable_str(text: &str) -> (r: bool)
    ensures
        r == countable_text(text@),
{
    let cs = chars_of(text);
    let n = cs.len();
    let mut run: usize = 0;
    let mut i: usize = 0;
    while i < n
        invariant
            cs@ == text@,
            n == cs@.len(),
            i <= n,
            run == white_space_run_before(text@, i as int),
            forall|k: int| 0 <= k <= i ==> #[trigger] white_space_run_before(text@, k) < WHITE_SPACE_RUN_LIMIT,
        decreases n - i,
    {
        if is_white_space_char(cs[i]) {
            run = run + 1;
            if run >= WHITE_SPACE_RUN_LIMIT {
                proof {
                    assert(white_space_run_before(text@, i + 1) == run);
                }
                return false;
            }
        } else {
            run = 0;
        }
        proof {
            assert(white_space_run_before(text@, i + 1) == run);
        }
        i = i + 1;
    }
    true
}

/// Whether every instruction and item of the request is countable.
pub fn is_countable(request: &LlmRequest) -> (r: bool)
    ensures
        r == countable_request(*request),
{
    let mut i: usize = 0;
    while i < request.instructions.len()
        invariant
            i <= request.instructions@.len(),
            forall|k: int| 0 <= k < i ==> countable_text(#[trigger] request.instructions@[k]@),
        decreases request.instructions.len() - i,
    {
        if !countable_str(request.instructions[i].as_str()) {
            return false;
        }
        i = i + 1;
    }
    let mut j: usize = 0;
    while j < request.contents.len()
        invariant
            i == request.instructions@.len(),
            forall|k: int| 0 <= k < i ==> countable_text(#[trigger] request.instructions@[k]@),
            j <= request.contents@.len(),
            forall|k: int| 0 <= k < j ==> countable_item(#[trigger] request.contents@[k]),
        decreases request.contents.len() - j,
    {
        let ok = match &request.contents[j] {
            ContentItem::Message { content, .. } => countable_str(content.as_str()),
            ContentItem::ToolCall(c) => countable_str(c.name.as_str()) && countable_str(c.arguments.as_str()),
            ContentItem::ToolResult { content, .. } => countable_str(content.as_str()),
        };
        if !ok {
            return false;
        }
        j = j + 1;
    }
    true
}

/// Takes the shared `cl100k_base` encoding from
/// `tiktoken_rs::cl100k_base_singleton` and counts the tokens that
/// `CoreBPE::encode_ordinary` produces for `text`. The count is named by
/// `cl100k_token_count`. `encode_ordinary` unwraps each regex match, and the
/// regex engine reports an error on a long enough run of white space; the
/// `requires` keeps such runs below `WHITE_SPACE_RUN_LIMIT`.
#[verifier::external_body]
pub(crate) fn token_count(text: &str) -> (n: usize)
    requires
        countable_text(text@),
    ensures
        n == cl100k_token_count(text@),
{
    tiktoken_rs::cl100k_base_singleton().encode_ordinary(text).len()
}

/// The tokens counted for one content item: four for the framing plus its text.
pub open spec fn item_tokens(item: ContentItem) -> nat {
    4 + match item {
        ContentItem::Message { content, .. } => cl100k_token_count(content@),
        ContentItem::ToolCall(c) => cl100k_token_count(c.name@) + cl100k_token_count(c.arguments@),
        ContentItem::ToolResult { content, .. } => cl100k_token_count(content@),
    }
}

/// The tokens counted for the instructions.
pub open spec fn instruction_tokens(instructions: Seq<Seq<char>>) -> nat
    decreases instructions.len(),
{
    if instructions.len() == 0 {
        0
    } else {
        instruction_tokens(instructions.drop_last()) + 4 + cl100k_token_count(instructions.last())
    }
}

/// The tokens counted for the content items.
pub open spec fn content_tokens(contents: Seq<ContentItem>) -> nat
    decreases contents.len(),
{
    if contents.len() == 0 {
        0
    } else {
        content_tokens(contents.drop_last()) + item_tokens(contents.last())
    }
}

/// The tokens counted for a whole request.
pub open spec fn request_tokens(request: LlmRequest) -> nat {
    instruction_tokens(views(request.instructions@)) + content_tokens(request.contents@)
}

proof fn lemma_instruction_tokens_floor(s: Seq<Seq<char>>)
    ensures
        instruction_tokens(s) >= 4 * s.len(),
    decreases s.len(),
{
    if s.len() > 0 {
        lemma_instruction_tokens_floor(s.drop_last());
    }
}

proof fn lemma_content_tokens_floor(s: Seq<ContentItem>)
    ensures
        content_tokens(s) >= 4 * s.len(),
    decreases s.len(),
{
    if s.len() > 0 {
        lemma_content_tokens_floor(s.drop_last());
    }
}

/// What the token count gives on the whole: an empty request counts nothing;
/// every instruction and item counts at least its four framing tokens; and
/// adding one instruction or one item raises the count by exactly what that
/// entry counts, so always by at least four.
pub proof fn law_token_count_grows_with_the_request(
    before: LlmRequest,
    with_instruction: LlmRequest,
    with_item: LlmRequest,
    instruction: String,
    item: ContentItem,
)
    requires
        with_instruction.instructions@ == before.instructions@.push(instruction),
        with_instruction.contents@ == before.contents@,
        with_item.instructions@ == before.instructions@,
        with_item.contents@ == before.contents@.push(item),
    ensures
        before.instructions@.len() == 0 && before.contents@.len() == 0 ==> request_tokens(before)
            == 0,
        request_tokens(before) >= 4 * (before.instructions@.len() + before.contents@.len()),
        request_tokens(with_instruction) == request_tokens(before) + 4 + cl100k_token_count(
            instruction@,
        ),
        request_tokens(with_item) == request_tokens(before) + item_tokens(item),
        request_tokens(with_instruction) > request_tokens(before),
        request_tokens(with_item) > request_tokens(before),
{
    lemma_instruction_tokens_floor(views(before.instructions@));
    lemma_content_tokens_floor(before.contents@);
    assert(views(with_instruction.instructions@).drop_last() =~= views(before.instructions@));
    assert(views(with_instruction.instructions@).last() == instruction@);
    assert(with_item.contents@.drop_last() =~= before.contents@);
    if before.instructions@.len() == 0 {
        assert(views(before.instructions@).len() == 0);
    }
}

/// Every text of an added item is counted in full: adding a message, a tool
/// call or a tool result to a request raises its count by exactly four
/// framing tokens plus the `cl100k_base` tokens of the message's content, of
/// the call's name and argument text, or of the result's content.
pub proof fn law_token_count_counts_every_text(before: LlmRequest, after: LlmRequest, item: ContentItem)
    requires
        after.instructions@ == before.instructions@,
        after.contents@ == before.contents@.push(item),
    ensures
        item matches ContentItem::Message { content, .. } ==> request_tokens(after) == request_tokens(
            before,
        ) + 4 + cl100k_token_count(content@),
        item matches ContentItem::ToolCall(c) ==> request_tokens(after) == request_tokens(before) + 4
            + cl100k_token_count(c.name@) + cl100k_token_count(c.arguments@),
        item matches ContentItem::ToolResult { content, .. } ==> request_tokens(after)
            == request_tokens(before) + 4 + cl100k_token_count(content@),
{
    assert(after.contents@.drop_last() =~= before.contents@);
}

/// Whether the request counts fewer tokens than `threshold`.
pub open spec fn below_threshold(request: LlmRequest, threshold: nat) -> bool {
    request_tokens(request) < threshold
}

/// The tokens of one item, or `None` when the sum leaves `usize`.
fn checked_item_tokens(item: &ContentItem) -> (r: Option<usize>)
    requires
        countable_item(*item),
    ensures
        match r {
            Some(n) => n == item_tokens(*item),
            None => item_tokens(*item) > usize::MAX,
        },
{
    match item {
        ContentItem::Message { content, .. } => token_count(content.as_str()).checked_add(4),
        ContentItem::ToolCall(c) => {
            let a = token_count(c.name.as_str());
            let b = token_count(c.arguments.as_str());
            match a.checked_add(b) {
                Some(ab) => ab.checked_add(4),
                None => None,
            }
        },
        ContentItem::ToolResult { content, .. } => token_count(content.as_str()).checked_add(4),
    }
}

/// The token count of the request, or `None` when it does not fit in `usize`.
pub fn try_count_tokens(model: &str, request: &LlmRequest) -> (r: Option<usize>)
    requires
        countable_request(*request),
    ensures
        match r {
            Some(n) => n == request_tokens(*request),
            None => request_tokens(*request) > usize::MAX,
        },
{
    let mut total: usize = 0;
    let mut i: usize = 0;
    while i < request.instructions.len()
        invariant
            i <= request.instructions@.len(),
            countable_request(*request),
            total == instruction_tokens(views(request.instructions@).take(i as int)),
        decreases request.instructions.len() - i,
    {
        proof {
            assert(views(request.instructions@).take(i + 1).drop_last() =~= views(
                request.instructions@,
            ).take(i as int));
        }
        let n = token_count(request.instructions[i].as_str());
        match total.checked_add(n) {
            Some(t) => match t.checked_add(4) {
                Some(t4) => {
                    total = t4;
                },
                None => {
                    proof {
                        lemma_instruction_tokens_grow(views(request.instructions@), i + 1);
                    }
                    return None;
                },
            },
            None => {
                proof {
                    lemma_instruction_tokens_grow(views(request.instructions@), i + 1);
                }
                return None;
            },
        }
        i = i + 1;
    }
    proof {
        assert(views(request.instructions@).take(i as int) =~= views(request.instructions@));
    }
    let mut j: usize = 0;
    while j < request.contents.len()
        invariant
            i == request.instructions@.len(),
            countable_request(*request),
            j <= request.contents@.len(),
            total == instruction_tokens(views(request.instructions@)) + content_tokens(
                request.contents@.take(j as int),
            ),
        decreases request.contents.len() - j,
    {
        proof {
            assert(request.contents@.take(j + 1).drop_last() =~= request.contents@.take(j as int));
        }
        match checked_item_tokens(&request.contents[j]) {
            Some(n) => match total.checked_add(n) {
                Some(t) => {
                    total = t;
                },
                None => {
                    proof {
                        lemma_content_tokens_grow(request.contents@, j + 1);
                    }
                    return None;
                },
            },
            None => {
                proof {
                    lemma_content_tokens_grow(request.contents@, j + 1);
                }
                return None;
            },
        }
        j = j + 1;
    }
    proof {
        assert(request.contents@.take(j as int) =~= request.contents@);
    }
    if total <= usize::MAX {
        Some(count_tokens(model, request))
    } else {
        None
    }
}

proof fn lemma_instruction_tokens_grow(s: Seq<Seq<char>>, k: int)
    requires
        0 <= k <= s.len(),
    ensures
        instruction_tokens(s.take(k)) <= instruction_tokens(s),
    decreases s.len() - k,
{
    if k < s.len() {
        lemma_instruction_tokens_grow(s, k + 1);
        assert(s.take(k + 1).drop_last() =~= s.take(k));
    } else {
        assert(s.take(k) =~= s);
    }
}

proof fn lemma_content_tokens_grow(s: Seq<ContentItem>, k: int)
    requires
        0 <= k <= s.len(),
    ensures
        content_tokens(s.take(k)) <= content_tokens(s),
    decreases s.len() - k,
{
    if k < s.len() {
        lemma_content_tokens_grow(s, k + 1);
        assert(s.take(k + 1).drop_last() =~= s.take(k));
    } else {
        assert(s.take(k) =~= s);
    }
}

/// The number of tokens the request takes: per instruction and per content
/// item four tokens of framing plus the `cl100k_base` tokens of its text (for a
/// tool call, of its name and of its argument text). The model name does not
/// change the count.
pub fn count_tokens(model: &str, request: &LlmRequest) -> (n: usize)
    requires
        countable_request(*request),
        request_tokens(*request) <= usize::MAX,
    ensures
        n == request_tokens(*request),
{
    let mut total: usize = 0;
    let mut i: usize = 0;
    while i < request.instructions.len()
        invariant
            i <= request.instructions@.len(),
            countable_request(*request),
            instruction_tokens(views(request.instructions@)) + content_tokens(request.contents@)
                <= usize::MAX,
            total == instruction_tokens(views(request.instructions@).take(i as int)),
        decreases request.instructions.len() - i,
    {
        proof {
            assert(views(request.instructions@).take(i + 1).drop_last() =~= views(
                request.instructions@,
            ).take(i as int));
            lemma_instruction_tokens_grow(views(request.instructions@), i + 1);
        }
        let n = token_count(request.instructions[i].as_str());
        total = total + 4 + n;
        i = i + 1;
    }
    proof {
        assert(views(request.instructions@).take(i as int) =~= views(request.instructions@));
    }
    let mut j: usize = 0;
    while j < request.contents.len()
        invariant
            i == request.instructions@.len(),
            countable_request(*request),
            j <= request.contents@.len(),
            instruction_tokens(views(request.instructions@)) + content_tokens(request.contents@)
                <= usize::MAX,
            total == instruction_tokens(views(request.instructions@)) + content_tokens(
                request.contents@.take(j as int),
            ),
        decreases request.contents.len() - j,
    {
        proof {
            assert(request.contents@.take(j + 1).drop_last() =~= request.contents@.take(j as int));
            lemma_content_tokens_grow(request.contents@, j + 1);
        }
        let item = &request.contents[j];
        total = total + 4;
        match item {
            ContentItem::Message { content, .. } => {
                total = total + token_count(content.as_str());
            },
            ContentItem::ToolCall(c) => {
                let a = token_count(c.name.as_str());
                let b = token_count(c.arguments.as_str());
                total = total + a + b;
            },
            ContentItem::ToolResult { content, .. } => {
                total = total + token_count(content.as_str());
            },
        }
        j = j + 1;
    }
    proof {
        assert(request.contents@.take(j as int) =~= request.contents@);
    }
    total
}

/// `i` is the position of the first user message in `c`.
pub open spec fn is_first_user_message(c: Seq<ContentItem>, i: int) -> bool {
    &&& 0 <= i < c.len()
    &&& c[i].is_user_message()
    &&& forall|m: int| 0 <= m < i ==> !(#[trigger] c[m]).is_user_message()
}

/// The position of the first user message in `c`.
pub open spec fn first_user_index(c: Seq<ContentItem>) -> Option<int> {
    if exists|i: int| is_first_user_message(c, i) {
        Some(choose|i: int| is_first_user_message(c, i))
    } else {
        None
    }
}

/// The position of the first user message.
pub fn first_user_message(contents: &Vec<ContentItem>) -> (r: Option<usize>)
    ensures
        match r {
            Some(i) => first_user_index(contents@) == Some(i as int),
            None => first_user_index(contents@) is None,
        },
{
    let mut i: usize = 0;
    while i < contents.len()
        invariant
            i <= contents@.len(),
            forall|m: int| 0 <= m < i ==> !(#[trigger] contents@[m]).is_user_message(),
        decreases contents.len() - i,
    {
        match &contents[i] {
            ContentItem::Message { role, .. } => {
                if str_equal(role.as_str(), "user") {
                    proof {
                        let k = choose|k: int| is_first_user_message(contents@, k);
                        assert(is_first_user_message(contents@, i as int));
                        if k < i {
                            assert(!contents@[k].is_user_message());
                        } else if i < k {
                            assert(!contents@[i as int].is_user_message());
                        }
                    }
                    return Some(i);
                }
            },
            _ => {},
        }
        i = i + 1;
    }
    None
}

/// `c` without the items at positions `lo..hi`.
pub open spec fn without_range(c: Seq<ContentItem>, lo: int, hi: int) -> Seq<ContentItem> {
    c.take(lo) + c.skip(hi)
}

/// Removes the items at positions `lo..hi`, as `Vec::drain(lo..hi)` does.
pub fn remove_range(v: &mut Vec<ContentItem>, lo: usize, hi: usize)
    requires
        lo <= hi <= old(v)@.len(),
    ensures
        final(v)@ == without_range(old(v)@, lo as int, hi as int),
{
    let mut out: Vec<ContentItem> = Vec::new();
    let mut i: usize = 0;
    while i < lo
        invariant
            i <= lo <= hi <= v@.len(),
            out@ == v@.take(i as int),
        decreases lo - i,
    {
        out.push(v[i].duplicate());
        proof {
            assert(v@.take(i + 1) =~= v@.take(i as int).push(v@[i as int]));
        }
        i = i + 1;
    }
    let mut j: usize = hi;
    while j < v.len()
        invariant
            lo <= hi <= j <= v@.len(),
            out@ == v@.take(lo as int) + v@.subrange(hi as int, j as int),
        decreases v.len() - j,
    {
        out.push(v[j].duplicate());
        proof {
            assert(v@.subrange(hi as int, j + 1) =~= v@.subrange(hi as int, j as int).push(v@[j as int]));
        }
        j = j + 1;
    }
    proof {
        assert(v@.subrange(hi as int, v@.len() as int) =~= v@.skip(hi as int));
    }
    *v = out;
}

/// Whether the request counts fewer tokens than `threshold`.
pub fn is_below_threshold(model: &str, request: &LlmRequest, threshold: usize) -> (r: bool)
    requires
        countable_request(*request),
    ensures
        r == below_threshold(*request, threshold as nat),
{
    match try_count_tokens(model, request) {
        Some(n) => n < threshold,
        None => false,
    }
}

/// `item` is a tool call with this id.
pub open spec fn is_call_with_id(item: ContentItem, id: Seq<char>) -> bool {
    item matches ContentItem::ToolCall(c) && c.tool_call_id@ == id
}

/// Some item in `c[lo..hi]` is a tool call with this id.
pub open spec fn has_call_in(c: Seq<ContentItem>, lo: int, hi: int, id: Seq<char>) -> bool {
    exists|j: int| lo <= j < hi && is_call_with_id(#[trigger] c[j], id)
}

/// Item `k` is a tool result whose call is not among `c[s..]`.
pub open spec fn is_orphan(c: Seq<ContentItem>, s: int, k: int) -> bool {
    match c[k] {
        ContentItem::ToolResult { tool_call_id, .. } => !has_call_in(c, s, c.len() as int, tool_call_id@),
        _ => false,
    }
}

/// `k` is the first orphaned result in `c[s..]`.
pub open spec fn is_first_orphan(c: Seq<ContentItem>, s: int, k: int) -> bool {
    &&& s <= k < c.len()
    &&& is_orphan(c, s, k)
    &&& forall|m: int| s <= m < k ==> !is_orphan(c, s, m)
}

/// The first orphaned result in `c[s..]`.
pub open spec fn first_orphan(c: Seq<ContentItem>, s: int) -> Option<int> {
    if exists|k: int| is_first_orphan(c, s, k) {
        Some(choose|k: int| is_first_orphan(c, s, k))
    } else {
        None
    }
}

/// `j` is the first tool call with this id in `c[..s]`.
pub open spec fn is_first_call(c: Seq<ContentItem>, s: int, id: Seq<char>, j: int) -> bool {
    &&& 0 <= j < s
    &&& is_call_with_id(c[j], id)
    &&& forall|m: int| 0 <= m < j ==> !is_call_with_id(#[trigger] c[m], id)
}

/// The first tool call with this id in `c[..s]`.
pub open spec fn first_call(c: Seq<ContentItem>, s: int, id: Seq<char>) -> Option<int> {
    if exists|j: int| is_first_call(c, s, id, j) {
        Some(choose|j: int| is_first_call(c, s, id, j))
    } else {
        None
    }
}

/// The id of a tool result.
pub open spec fn result_id(item: ContentItem) -> Seq<char> {
    match item {
        ContentItem::ToolResult { tool_call_id, .. } => tool_call_id@,
        _ => Seq::empty(),
    }
}

/// The start of a suffix of `c` that leaves no tool result without its call:
/// from `s`, move back to the call of the first orphaned result as long as that
/// call lies before the current start.
pub open spec fn safe_start(c: Seq<ContentItem>, s: int) -> int
    decreases s,
{
    if s <= 0 {
        s
    } else {
        match first_orphan(c, s) {
            None => s,
            Some(k) => match first_call(c, s, result_id(c[k])) {
                None => s,
                Some(j) => if j < s {
                    safe_start(c, j)
                } else {
                    s
                },
            },
        }
    }
}

proof fn lemma_first_orphan_unique(c: Seq<ContentItem>, s: int, k: int)
    requires
        is_first_orphan(c, s, k),
    ensures
        first_orphan(c, s) == Some(k),
{
    let k2 = choose|k: int| is_first_orphan(c, s, k);
    assert(is_first_orphan(c, s, k2));
    if k2 < k {
        assert(!is_orphan(c, s, k2));
    } else if k < k2 {
        assert(!is_orphan(c, s, k));
    }
}

proof fn lemma_first_call_unique(c: Seq<ContentItem>, s: int, id: Seq<char>, j: int)
    requires
        is_first_call(c, s, id, j),
    ensures
        first_call(c, s, id) == Some(j),
{
    let j2 = choose|j: int| is_first_call(c, s, id, j);
    assert(is_first_call(c, s, id, j2));
    if j2 < j {
        assert(!is_call_with_id(c[j2], id));
    } else if j < j2 {
        assert(!is_call_with_id(c[j], id));
    }
}

/// Whether `c[lo..hi]` holds a tool call with this id.
fn has_call(c: &Vec<ContentItem>, lo: usize, hi: usize, id: &str) -> (r: bool)
    requires
        lo <= hi <= c@.len(),
    ensures
        r == has_call_in(c@, lo as int, hi as int, id@),
{
    let mut j = lo;
    while j < hi
        invariant
            lo <= j <= hi,
            hi <= c@.len(),
            forall|m: int| lo <= m < j ==> !is_call_with_id(#[trigger] c@[m], id@),
        decreases hi - j,
    {
        match &c[j] {
            ContentItem::ToolCall(call) => {
                if str_equal(call.tool_call_id.as_str(), id) {
                    return true;
                }
            },
            _ => {},
        }
        j = j + 1;
    }
    false
}

/// The first orphaned result in `c[s..]`, with its id.
fn find_orphan(c: &Vec<ContentItem>, s: usize) -> (r: Option<(usize, String)>)
    requires
        s <= c@.len(),
    ensures
        match r {
            Some((k, id)) => is_first_orphan(c@, s as int, k as int) && id@ == result_id(c@[k as int]),
            None => forall|k: int| s <= k < c@.len() ==> !is_orphan(c@, s as int, k),
        },
{
    let len = c.len();
    let mut k = s;
    while k < len
        invariant
            s <= k <= len,
            len == c@.len(),
            forall|m: int| s <= m < k ==> !is_orphan(c@, s as int, m),
        decreases len - k,
    {
        match &c[k] {
            ContentItem::ToolResult { tool_call_id, .. } => {
                if !has_call(c, s, len, tool_call_id.as_str()) {
                    return Some((k, tool_call_id.clone()));
                }
            },
            _ => {},
        }
        k = k + 1;
    }
    None
}

/// The first tool call with this id in `c[..s]`.
fn find_call(c: &Vec<ContentItem>, s: usize, id: &str) -> (r: Option<usize>)
    requires
        s <= c@.len(),
    ensures
        match r {
            Some(j) => is_first_call(c@, s as int, id@, j as int),
            None => forall|j: int| 0 <= j < s ==> !is_call_with_id(#[trigger] c@[j], id@),
        },
{
    let mut j: usize = 0;
    while j < s
        invariant
            j <= s,
            s <= c@.len(),
            forall|m: int| 0 <= m < j ==> !is_call_with_id(#[trigger] c@[m], id@),
        decreases s - j,
    {
        match &c[j] {
            ContentItem::ToolCall(call) => {
                if str_equal(call.tool_call_id.as_str(), id) {
                    return Some(j);
                }
            },
            _ => {},
        }
        j = j + 1;
    }
    None
}

/// The safe start never lies after the given start, and from it on every
/// tool result either has its call in the kept suffix or has no call before
/// it at all: moving further back could not pair it.
pub proof fn law_safe_start_pairs_results(c: Seq<ContentItem>, s: int)
    requires
        0 <= s <= c.len(),
    ensures
        0 <= safe_start(c, s) <= s,
        first_orphan(c, safe_start(c, s)) matches Some(k) ==> !has_call_in(
            c,
            0,
            safe_start(c, s),
            result_id(c[k]),
        ),
    decreases s,
{
    if s > 0 {
        match first_orphan(c, s) {
            None => {},
            Some(k) => {
                let id = result_id(c[k]);
                match first_call(c, s, id) {
                    None => {
                        if has_call_in(c, 0, s, id) {
                            let j = choose|j: int| 0 <= j < s && is_call_with_id(#[trigger] c[j], id);
                            lemma_least_call(c, s, id, j);
                        }
                    },
                    Some(j) => {
                        let j2 = choose|j: int| is_first_call(c, s, id, j);
                        assert(is_first_call(c, s, id, j2));
                        law_safe_start_pairs_results(c, j);
                    },
                }
            },
        }
    }
}

/// A call with `id` before `s` means a first such call exists.
proof fn lemma_least_call(c: Seq<ContentItem>, s: int, id: Seq<char>, j: int)
    requires
        0 <= j < s,
        is_call_with_id(c[j], id),
    ensures
        exists|m: int| is_first_call(c, s, id, m),
    decreases j,
{
    if exists|m: int| 0 <= m < j && is_call_with_id(#[trigger] c[m], id) {
        let m = choose|m: int| 0 <= m < j && is_call_with_id(#[trigger] c[m], id);
        lemma_least_call(c, s, id, m);
    } else {
        assert(is_first_call(c, s, id, j));
    }
}

/// Moves `start` back until no tool result in `contents[start..]` is cut off
/// from its call, so a suffix taken from there keeps calls and results paired.
pub fn find_safe_start(contents: &Vec<ContentItem>, start: usize) -> (r: usize)
    requires
        start <= contents@.len(),
    ensures
        r as int == safe_start(contents@, start as int),
        r <= start,
{
    let mut s = start;
    while s > 0
        invariant
            s <= start <= contents@.len(),
            safe_start(contents@, s as int) == safe_start(contents@, start as int),
        decreases s,
    {
        match find_orphan(contents, s) {
            None => {
                proof {
                    assert(!exists|k: int| is_first_orphan(contents@, s as int, k));
                }
                return s;
            },
            Some((k, id)) => {
                proof {
                    lemma_first_orphan_unique(contents@, s as int, k as int);
                }
                match find_call(contents, s, id.as_str()) {
                    None => {
                        proof {
                            assert(!exists|j: int| is_first_call(contents@, s as int, id@, j));
                        }
                        return s;
                    },
                    Some(j) => {
                        proof {
                            lemma_first_call_unique(contents@, s as int, id@, j as int);
                        }
                        s = j;
                    },
                }
            },
        }
    }
    s
}

/// Settings for keeping a request under a token budget.
pub struct ContextOptimizer {
    pub model: String,
    pub token_threshold: usize,
    pub enable_compaction: bool,
    pub compaction_keep_recent: usize,
    pub enable_summarization: bool,
    pub keep_recent: usize,
}

impl ContextOptimizer {
    /// The default settings: a budget of 20 000 tokens, compaction keeping the
    /// last 4 items, then summarization keeping the last 5.
    pub fn new(model: &str) -> (o: Self)
        ensures
            o.model@ == model@,
            o.token_threshold == 20_000,
            o.enable_compaction,
            o.compaction_keep_recent == 4,
            o.enable_summarization,
            o.keep_recent == 5,
    {
        ContextOptimizer {
            model: String::from_str(model),
            token_threshold: 20_000,
            enable_compaction: true,
            compaction_keep_recent: 4,
            enable_summarization: true,
            keep_recent: 5,
        }
    }

    /// The part of the optimization that needs no model call. A request under
    /// the budget is left alone; otherwise, when enabled, compaction is applied,
    /// and the result says whether a summary should be made next: the request
    /// is still over the budget and summarization is enabled. The result is
    /// `None` when the compacted request can no longer be counted (a note
    /// brought in a white-space run as long as the limit).
    pub fn reduce(&self, request: &mut LlmRequest) -> (summarize: Option<bool>)
        requires
            countable_request(*old(request)),
        ensures
            final(request).instructions@ == old(request).instructions@,
            below_threshold(*old(request), self.token_threshold as nat) ==> {
                &&& final(request).contents@ == old(request).contents@
                &&& summarize == Some(false)
            },
            !below_threshold(*old(request), self.token_threshold as nat) && self.enable_compaction
                ==> {
                &&& is_compaction_of(
                    old(request).contents@,
                    final(request).contents@,
                    self.compaction_keep_recent as nat,
                )
                &&& countable_request(*final(request)) ==> summarize == Some(
                    !below_threshold(*final(request), self.token_threshold as nat)
                        && self.enable_summarization,
                )
                &&& !countable_request(*final(request)) ==> summarize is None
            },
            !below_threshold(*old(request), self.token_threshold as nat) && !self.enable_compaction
                ==> {
                &&& final(request).contents@ == old(request).contents@
                &&& summarize == Some(self.enable_summarization)
            },
    {
        if is_below_threshold(self.model.as_str(), request, self.token_threshold) {
            return Some(false);
        }
        if self.enable_compaction {
            let compaction = Compaction { keep_recent: self.compaction_keep_recent };
            compaction.apply(request);
            if !is_countable(request) {
                return None;
            }
            if is_below_threshold(self.model.as_str(), request, self.token_threshold) {
                return Some(false);
            }
        }
        Some(self.enable_summarization)
    }
}

} // verus!
