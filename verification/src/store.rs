//! What is written to the store of messages.
use vstd::prelude::*;
use crate::text::copy;

verus! {

/// A message in the store: its place in the session, and its text.
#[derive(Debug)]
pub struct MessageRow {
    pub idx: i64,
    pub json: String,
}

/// The place of the next message of a session whose last one is at `last`.
pub fn next_place(last: Option<i64>) -> (r: i64)
    requires
        last is Some ==> last->0 < i64::MAX,
    ensures
        r == (match last {
            Some(i) => i + 1,
            None => 0,
        }),
{
    match last {
        Some(i) => i + 1,
        None => 0,
    }
}

/// The rows of messages that are appended, the first at the place `next`. Places
/// follow each other without gaps.
pub fn append_many(next: i64, jsons: &Vec<String>) -> (r: Vec<MessageRow>)
    requires
        next + jsons@.len() <= i64::MAX,
    ensures
        r@.len() == jsons@.len(),
        forall|i: int|
            0 <= i < r@.len() ==> (#[trigger] r@[i]).idx == next + i && r@[i].json@ == jsons@[i]@,
{
    let mut out: Vec<MessageRow> = Vec::new();
    let n: usize = jsons.len();
    let mut i: usize = 0;
    let mut idx: i64 = next;
    while i < n
        invariant
            i <= n,
            n == jsons@.len(),
            next + n <= i64::MAX,
            idx == next + i,
            out@.len() == i,
            forall|j: int|
                0 <= j < i ==> (#[trigger] out@[j]).idx == next + j && out@[j].json@ == jsons@[j]@,
        decreases n - i,
    {
        out.push(MessageRow { idx, json: copy(jsons[i].as_str()) });
        idx += 1;
        i += 1;
    }
    out
}

/// Token counts in the store.
#[derive(Clone, Copy, Debug, PartialEq, Eq, Structural)]
pub struct UsageRow {
    pub prompt: i64,
    pub completion: i64,
    pub total: i64,
}

/// The token counts of a message, with their sum.
pub fn log_usage(prompt: u32, completion: u32) -> (r: UsageRow)
    ensures
        r.prompt == prompt,
        r.completion == completion,
        r.total == prompt + completion,
{
    UsageRow {
        prompt: prompt as i64,
        completion: completion as i64,
        total: prompt as i64 + completion as i64,
    }
}

} // verus!
