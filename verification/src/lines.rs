//! Mapping byte offsets of a document to its 1-based line numbers.

use vstd::prelude::*;
use vstd::utf8::encode_utf8;

verus! {

/// The byte offsets at which the lines of a document start: 0, and the
/// offset after every line feed.
pub open spec fn line_starts(bytes: Seq<u8>) -> Seq<usize>
    decreases bytes.len(),
{
    if bytes.len() == 0 {
        seq![0usize]
    } else if bytes.last() == 10u8 {
        line_starts(bytes.drop_last()).push(bytes.len() as usize)
    } else {
        line_starts(bytes.drop_last())
    }
}

/// Strictly ascending.
pub open spec fn is_ascending(starts: Seq<usize>) -> bool {
    forall|i: int, j: int| 0 <= i < j < starts.len() ==> starts[i] < starts[j]
}

/// How many of `starts` do not lie beyond `offset`.
pub open spec fn entries_up_to(starts: Seq<usize>, offset: usize) -> nat
    decreases starts.len(),
{
    if starts.len() == 0 {
        0
    } else {
        entries_up_to(starts.drop_last(), offset) + if starts.last() <= offset {
            1nat
        } else {
            0nat
        }
    }
}

/// No more entries lie up to an offset than there are entries.
pub proof fn lemma_entries_bounded(starts: Seq<usize>, offset: usize)
    ensures
        entries_up_to(starts, offset) <= starts.len(),
    decreases starts.len(),
{
    if starts.len() > 0 {
        lemma_entries_bounded(starts.drop_last(), offset);
    }
}

/// The 1-based line that holds `offset`: the number of line starts up to
/// it, and 1 where there is none.
pub open spec fn line_of(offset: usize, starts: Seq<usize>) -> nat {
    if entries_up_to(starts, offset) == 0 {
        1
    } else {
        entries_up_to(starts, offset)
    }
}

/// Line starts begin at 0, ascend strictly and end no later than the text.
pub proof fn lemma_line_starts(bytes: Seq<u8>)
    requires
        bytes.len() <= usize::MAX,
    ensures
        line_starts(bytes).len() >= 1,
        line_starts(bytes).len() <= bytes.len() + 1,
        line_starts(bytes)[0] == 0,
        is_ascending(line_starts(bytes)),
        forall|i: int| 0 <= i < line_starts(bytes).len() ==> line_starts(bytes)[i] <= bytes.len(),
    decreases bytes.len(),
{
    if bytes.len() > 0 {
        lemma_line_starts(bytes.drop_last());
    }
}

/// Where `split` entries lie at or before `offset` and all later ones beyond
/// it, `split` is the number of entries up to `offset`.
pub proof fn lemma_entries_up_to(starts: Seq<usize>, offset: usize, split: int)
    requires
        0 <= split <= starts.len(),
        forall|j: int| 0 <= j < split ==> starts[j] <= offset,
        forall|j: int| split <= j < starts.len() ==> starts[j] > offset,
    ensures
        entries_up_to(starts, offset) == split,
    decreases starts.len(),
{
    if starts.len() > 0 {
        let front = starts.drop_last();
        if split == starts.len() {
            lemma_entries_up_to(front, offset, split - 1);
        } else {
            lemma_entries_up_to(front, offset, split);
        }
    }
}

/// The byte offsets at which the lines of a text start.
pub fn line_start_indices(markdown: &str) -> (starts: Vec<usize>)
    ensures
        starts@ == line_starts(encode_utf8(markdown@)),
        is_ascending(starts@),
        starts@.len() >= 1,
        starts@[0] == 0,
{
    let bytes = markdown.as_bytes();
    let mut starts: Vec<usize> = Vec::new();
    starts.push(0);
    let mut idx: usize = 0;
    while idx < bytes.len()
        invariant
            idx <= bytes.len(),
            bytes@ == encode_utf8(markdown@),
            starts@ == line_starts(bytes@.take(idx as int)),
        decreases bytes.len() - idx,
    {
        proof {
            assert(bytes@.take(idx + 1).drop_last() == bytes@.take(idx as int));
        }
        if bytes[idx] == 10u8 {
            starts.push(idx + 1);
        }
        idx += 1;
    }
    proof {
        assert(bytes@.take(bytes@.len() as int) == bytes@);
        lemma_line_starts(bytes@);
    }
    starts
}

/// `slice::binary_search`. On a sorted slice it gives `Ok` with the index
/// of a matching element, or `Err` with the index at which the value could
/// be inserted while keeping the order; of an unsorted slice nothing is
/// claimed.
#[verifier::external_body]
fn search_ascending(starts: &[usize], offset: usize) -> (found: Result<usize, usize>)
    ensures
        is_ascending(starts@) ==> match found {
            Ok(idx) => idx < starts@.len() && starts@[idx as int] == offset,
            Err(idx) => {
                &&& idx <= starts@.len()
                &&& forall|j: int| 0 <= j < idx ==> starts@[j] < offset
                &&& forall|j: int| idx <= j < starts@.len() ==> starts@[j] > offset
            },
        },
{
    starts.binary_search(&offset)
}

/// The 1-based line that holds a byte offset, given the line starts in
/// ascending order.
pub fn line_for_offset(offset: usize, starts: &[usize]) -> (line: usize)
    ensures
        line >= 1,
        is_ascending(starts@) ==> line == line_of(offset, starts@),
{
    let count = starts.len();
    match search_ascending(starts, offset) {
        Ok(idx) => {
            proof {
                if is_ascending(starts@) {
                    assert(idx < count);
                    lemma_entries_up_to(starts@, offset, idx + 1);
                }
            }
            if idx < usize::MAX {
                idx + 1
            } else {
                idx
            }
        },
        Err(idx) => {
            proof {
                if is_ascending(starts@) {
                    lemma_entries_up_to(starts@, offset, idx as int);
                }
            }
            if idx == 0 {
                1
            } else {
                idx
            }
        },
    }
}

} // verus!
