//! The prompts of the memory pipeline.

use vstd::prelude::*;

verus! {

/// Asks the model to turn an execution history into a `TaskMemory`;
/// `{execution_history}` is replaced by the history.
pub const TASK_MEMORY_EXTRACTION_PROMPT: &'static str = "You are analyzing an agent's problem-solving record to extract a learning record.\n\nAnalyze the following execution history:\n\n<execution_history>\n{execution_history}\n</execution_history>\n\nFill in each field precisely:\n- task_summary: a short, neutral description of what the user asked \u{2014} the problem itself, not the outcome.\n- approach: only the method/formula/tool the agent actually used to attempt the problem. Do not describe your own analysis process, and do not mention whether it succeeded or failed here.\n- final_answer: the answer the agent actually gave (or the corrected answer, if the user provided one).\n- is_correct: true only if the agent's answer was correct; false if the agent made a mistake, even if it was later corrected.\n- error_analysis: if is_correct is false, explain concretely what went wrong (e.g. used the wrong formula, misread the input) \u{2014} this field must not be empty when is_correct is false. If is_correct is true, leave this field null.\n";

/// Asks the model whether a new memory repeats stored ones;
/// `{existing_memories}` and `{new_memory}` are replaced.
pub const DUPLICATE_CHECK_PROMPT: &'static str = "Compare the new memory against existing memories to determine if it's a duplicate.\n\nExisting memories:\n{existing_memories}\n\nNew memory:\n{new_memory}\n\nRespond with one of:\n- ADD: This is new information that should be stored\n- SKIP: Similar information already exists, no need to store\n\nJudgment criteria:\n- Same problem with different approach or different result counts as new information\n- Same problem with same approach and same result is a duplicate\n";

} // verus!
