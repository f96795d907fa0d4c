//! The bounded leaderboard: an ordered log of score submissions, kept sorted
//! by score descending with ties left in submission order, and truncated to a
//! fixed capacity after every submission.

use vstd::prelude::*;
use crate::LeaderboardEntry;

verus! {

/// The most entries the leaderboard ever holds.
pub const LEADERBOARD_CAPACITY: usize = 10;

/// Scores never increase along the sequence.
pub open spec fn sorted_desc(s: Seq<LeaderboardEntry>) -> bool {
    forall|i: int, j: int| 0 <= i < j < s.len() ==> s[i].score >= s[j].score
}

/// Where a new submission lands: after every entry whose score is at least as
/// high (so a tie keeps the earlier submission in front), before the rest.
pub open spec fn spec_insert(s: Seq<LeaderboardEntry>, e: LeaderboardEntry) -> Seq<
    LeaderboardEntry,
>
    decreases s.len(),
{
    if s.len() == 0 {
        seq![e]
    } else if s[0].score >= e.score {
        seq![s[0]] + spec_insert(s.drop_first(), e)
    } else {
        seq![e] + s
    }
}

/// One submission: stable insertion by score, then truncation to capacity.
pub open spec fn spec_submit(s: Seq<LeaderboardEntry>, e: LeaderboardEntry) -> Seq<
    LeaderboardEntry,
> {
    let t = spec_insert(s, e);
    if t.len() > LEADERBOARD_CAPACITY {
        t.take(LEADERBOARD_CAPACITY as int)
    } else {
        t
    }
}

/// Stable insertion places the entry at the first index whose score is below
/// the new one.
proof fn lemma_spec_insert_at(s: Seq<LeaderboardEntry>, e: LeaderboardEntry, i: int)
    requires
        0 <= i <= s.len(),
        forall|j: int| 0 <= j < i ==> s[j].score >= e.score,
        i < s.len() ==> s[i].score < e.score,
    ensures
        spec_insert(s, e) == s.insert(i, e),
    decreases s.len(),
{
    if i == 0 {
        assert(spec_insert(s, e) =~= s.insert(0, e));
    } else {
        lemma_spec_insert_at(s.drop_first(), e, i - 1);
        assert(seq![s[0]] + s.drop_first().insert(i - 1, e) =~= s.insert(i, e));
    }
}

/// Stable insertion into a ranked sequence keeps it ranked, grows it by one,
/// and puts the highest score in front.
proof fn lemma_spec_insert_sorted(s: Seq<LeaderboardEntry>, e: LeaderboardEntry)
    requires
        sorted_desc(s),
    ensures
        sorted_desc(spec_insert(s, e)),
        spec_insert(s, e).len() == s.len() + 1,
        spec_insert(s, e)[0].score == if s.len() > 0 && s[0].score >= e.score {
            s[0].score
        } else {
            e.score
        },
    decreases s.len(),
{
    if s.len() == 0 {
    } else if s[0].score >= e.score {
        let d = s.drop_first();
        assert(sorted_desc(d));
        lemma_spec_insert_sorted(d, e);
        let t = spec_insert(s, e);
        let ti = spec_insert(d, e);
        assert forall|i: int, j: int| 0 <= i < j < t.len() implies t[i].score >= t[j].score by {
            if i > 0 {
                assert(t[i] == ti[i - 1] && t[j] == ti[j - 1]);
            } else {
                assert(t[j] == ti[j - 1]);
                assert(ti[j - 1].score <= ti[0].score);
            }
        }
    }
}

/// A submission to a ranked, within-capacity board leaves it ranked and
/// within capacity, with the length growing until the capacity is reached.
pub proof fn lemma_submit_ranked(s: Seq<LeaderboardEntry>, e: LeaderboardEntry)
    requires
        sorted_desc(s),
        s.len() <= LEADERBOARD_CAPACITY,
    ensures
        sorted_desc(spec_submit(s, e)),
        spec_submit(s, e).len() == if s.len() < LEADERBOARD_CAPACITY {
            s.len() + 1
        } else {
            LEADERBOARD_CAPACITY as nat
        },
{
    lemma_spec_insert_sorted(s, e);
}

/// The bounded top-K ranking of score submissions.
pub struct Leaderboard {
    entries: Vec<LeaderboardEntry>,
}

impl View for Leaderboard {
    type V = Seq<LeaderboardEntry>;

    closed spec fn view(&self) -> Seq<LeaderboardEntry> {
        self.entries@
    }
}

impl Leaderboard {
    /// The board invariant: ranked by score descending, within capacity.
    pub open spec fn wf(&self) -> bool {
        sorted_desc(self@) && self@.len() <= LEADERBOARD_CAPACITY
    }

    /// An empty board.
    pub fn new() -> (r: Self)
        ensures
            r.wf(),
            r@ == Seq::<LeaderboardEntry>::empty(),
    {
        Leaderboard { entries: Vec::new() }
    }

    /// Append a submission, re-rank, and truncate to capacity. Eligibility
    /// (the submitter holding a stake) is the orchestrator's check, not the
    /// board's.
    pub fn submit(&mut self, entry: LeaderboardEntry)
        requires
            old(self).wf(),
        ensures
            final(self).wf(),
            final(self)@ == spec_submit(old(self)@, entry),
    {
        let ghost s0 = self.entries@;
        let mut i: usize = 0;
        while i < self.entries.len() && self.entries[i].score >= entry.score
            invariant
                self.entries@ == s0,
                i <= s0.len(),
                forall|j: int| 0 <= j < i ==> s0[j].score >= entry.score,
            decreases s0.len() - i,
        {
            i += 1;
        }
        proof {
            lemma_spec_insert_at(s0, entry, i as int);
            lemma_submit_ranked(s0, entry);
        }
        self.entries.insert(i, entry);
        if self.entries.len() > LEADERBOARD_CAPACITY {
            self.entries.truncate(LEADERBOARD_CAPACITY);
        }
    }

    /// How many submissions are on the board.
    pub fn len(&self) -> (n: usize)
        ensures
            n == self@.len(),
    {
        self.entries.len()
    }

    /// A read-only snapshot of the ranking.
    pub fn top(&self) -> (r: &Vec<LeaderboardEntry>)
        ensures
            r@ == self@,
    {
        &self.entries
    }

    /// Empty the board; used only at epoch rollover.
    pub fn clear(&mut self)
        ensures
            final(self).wf(),
            final(self)@ == Seq::<LeaderboardEntry>::empty(),
    {
        self.entries.clear();
    }
}

} // verus!
