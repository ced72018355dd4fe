//! The high-score history: past run scores, kept in descending order and
//! truncated to the ten highest.

use vstd::prelude::*;

verus! {

/// How many past scores are retained.
pub const HISTORY_LIMIT: usize = 10;

/// Non-increasing from front to back.
pub open spec fn sorted_desc(s: Seq<usize>) -> bool {
    forall|i: int, j: int| 0 <= i < j < s.len() ==> s[i] >= s[j]
}

/// `v` inserted in front of the first element smaller than it.
pub open spec fn insert_desc(s: Seq<usize>, v: usize) -> Seq<usize>
    decreases s.len(),
{
    if s.len() == 0 {
        seq![v]
    } else if s[0] >= v {
        seq![s[0]] + insert_desc(s.drop_first(), v)
    } else {
        seq![v] + s
    }
}

/// What recording a score leaves behind: the score inserted in order, the
/// lowest entries dropped beyond the retention limit.
pub open spec fn spec_record(s: Seq<usize>, v: usize) -> Seq<usize> {
    let t = insert_desc(s, v);
    if t.len() > HISTORY_LIMIT {
        t.take(HISTORY_LIMIT as int)
    } else {
        t
    }
}

/// Inserting at the first index whose element is smaller than `v` is what
/// `insert_desc` denotes.
proof fn lemma_insert_desc_at(s: Seq<usize>, v: usize, i: int)
    requires
        0 <= i <= s.len(),
        forall|j: int| 0 <= j < i ==> s[j] >= v,
        i < s.len() ==> s[i] < v,
    ensures
        insert_desc(s, v) =~= s.take(i) + seq![v] + s.skip(i),
    decreases i,
{
    if i == 0 {
        if s.len() == 0 {
        } else {
            assert(s[0] < v);
        }
    } else {
        let d = s.drop_first();
        assert(forall|j: int| 0 <= j < i - 1 ==> d[j] >= v);
        lemma_insert_desc_at(d, v, i - 1);
        assert(insert_desc(s, v) =~= seq![s[0]] + (d.take(i - 1) + seq![v] + d.skip(i - 1)));
    }
}

/// Record a finished run's score: insert it in descending order and drop
/// everything beyond the ten highest.
pub fn record_score(scores: &mut Vec<usize>, value: usize)
    requires
        sorted_desc(old(scores)@),
        old(scores)@.len() <= HISTORY_LIMIT,
    ensures
        final(scores)@ == spec_record(old(scores)@, value),
        sorted_desc(final(scores)@),
        1 <= final(scores)@.len() <= HISTORY_LIMIT,
        final(scores)@[0] >= value,
{
    let ghost s0 = scores@;
    let n = scores.len();
    let mut i: usize = 0;
    while i < n && scores[i] >= value
        invariant
            n == scores@.len(),
            scores@ == s0,
            i <= n,
            forall|j: int| 0 <= j < i ==> s0[j] >= value,
        decreases n - i,
    {
        i = i + 1;
    }
    proof {
        lemma_insert_desc_at(s0, value, i as int);
    }
    scores.insert(i, value);
    assert(scores@ =~= s0.take(i as int) + seq![value] + s0.skip(i as int));
    if scores.len() > HISTORY_LIMIT {
        scores.pop();
        assert(scores@ =~= insert_desc(s0, value).take(HISTORY_LIMIT as int));
    }
    proof {
        let t = scores@;
        assert forall|a: int, b: int| 0 <= a < b < t.len() implies t[a] >= t[b] by {
            assert(insert_desc(s0, value)[a] == t[a]);
            assert(insert_desc(s0, value)[b] == t[b]);
        }
    }
}

} // verus!
