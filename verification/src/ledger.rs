//! The high-score ledger: the best games, best first.

use vstd::prelude::*;
use vstd::seq_lib::{to_multiset_build, to_multiset_insert};
use crate::record::{views, RecordView, ScoreRecord};

verus! {

/// How many records the ledger keeps.
pub const CAPACITY: usize = 5;

/// Whether no record scores higher than one before it.
pub open spec fn sorted_desc(s: Seq<RecordView>) -> bool {
    forall|i: int, j: int| 0 <= i <= j < s.len() ==> s[i].points >= s[j].points
}

/// How many records at the front of `s` score at least `points`.
pub open spec fn leading_at_least(s: Seq<RecordView>, points: nat) -> nat
    decreases s.len(),
{
    if s.len() == 0 || s[0].points < points {
        0
    } else {
        1 + leading_at_least(s.drop_first(), points)
    }
}

/// `s` with `r` put behind the leading records that score at least as much.
pub open spec fn placed(s: Seq<RecordView>, r: RecordView) -> Seq<RecordView> {
    s.insert(leading_at_least(s, r.points) as int, r)
}

/// `s` ordered by score, highest first, records of equal score in the order
/// they had in `s`: each record in turn is put behind those already placed
/// that score at least as much.
pub open spec fn stable_sort_desc(s: Seq<RecordView>) -> Seq<RecordView>
    decreases s.len(),
{
    if s.len() == 0 {
        s
    } else {
        placed(stable_sort_desc(s.drop_last()), s.last())
    }
}

/// The test for a record to score exactly `points`.
pub open spec fn scores(points: nat) -> spec_fn(RecordView) -> bool {
    |r: RecordView| r.points == points
}

/// The records of `s` that score exactly `points`, in the order they have in
/// `s`.
pub open spec fn scoring(s: Seq<RecordView>, points: nat) -> Seq<RecordView> {
    s.filter(scores(points))
}

/// Whether a full ledger `s` turns `r` away: `r` scores less than the lowest
/// record kept.
pub open spec fn turned_away(s: Seq<RecordView>, r: RecordView) -> bool {
    s.len() >= CAPACITY && r.points < s.last().points
}

/// The records of `s` that stay when one more is let in: all of them while
/// there is room, all but the last otherwise.
pub open spec fn retained(s: Seq<RecordView>) -> Seq<RecordView> {
    if s.len() >= CAPACITY {
        s.drop_last()
    } else {
        s
    }
}

/// The ledger `s` after `r` was offered to it.
pub open spec fn inserted(s: Seq<RecordView>, r: RecordView) -> Seq<RecordView> {
    if turned_away(s, r) {
        s
    } else {
        stable_sort_desc(retained(s).push(r))
    }
}

/// The best `CAPACITY` records of `s`, best first.
pub open spec fn normalized(s: Seq<RecordView>) -> Seq<RecordView> {
    let sorted = stable_sort_desc(s);
    if sorted.len() > CAPACITY {
        sorted.take(CAPACITY as int)
    } else {
        sorted
    }
}

/// What a ledger must satisfy: best first, and no longer than `CAPACITY`.
pub open spec fn ledger_wf(s: Seq<RecordView>) -> bool {
    sorted_desc(s) && s.len() <= CAPACITY
}

/// The five records a ledger holds before any game was played.
pub open spec fn seed() -> Seq<RecordView> {
    seq![
        RecordView { name: "Tom"@, points: 250, moves: Seq::empty(), fruits: Seq::empty() },
        RecordView { name: "Tim"@, points: 200, moves: Seq::empty(), fruits: Seq::empty() },
        RecordView { name: "Jim"@, points: 150, moves: Seq::empty(), fruits: Seq::empty() },
        RecordView { name: "Kim"@, points: 50, moves: Seq::empty(), fruits: Seq::empty() },
        RecordView { name: "Dim"@, points: 10, moves: Seq::empty(), fruits: Seq::empty() },
    ]
}

/// The count of leading records is a position in `s`; every record before it
/// scores at least `points`, and the record at it, if there is one, scores less.
pub proof fn lemma_leading_at_least(s: Seq<RecordView>, points: nat)
    ensures
        leading_at_least(s, points) <= s.len(),
        forall|i: int| 0 <= i < leading_at_least(s, points) ==> (#[trigger] s[i]).points >= points,
        leading_at_least(s, points) < s.len() ==> s[leading_at_least(s, points) as int].points
            < points,
    decreases s.len(),
{
    if s.len() == 0 || s[0].points < points {
    } else {
        let rest = s.drop_first();
        lemma_leading_at_least(rest, points);
        let k = leading_at_least(rest, points) as int;
        assert forall|i: int| 0 <= i < k + 1 implies (#[trigger] s[i]).points >= points by {
            if i > 0 {
                assert(s[i] == rest[i - 1]);
            }
        }
        if k < rest.len() {
            assert(s[k + 1] == rest[k]);
        }
    }
}

/// The first position whose record scores less than `points`, with none
/// before it that does, is the count of leading records.
pub proof fn lemma_leading_found(s: Seq<RecordView>, points: nat, pos: int)
    requires
        0 <= pos <= s.len(),
        forall|i: int| 0 <= i < pos ==> (#[trigger] s[i]).points >= points,
        pos < s.len() ==> s[pos].points < points,
    ensures
        leading_at_least(s, points) == pos,
    decreases s.len(),
{
    if pos == 0 {
    } else {
        let rest = s.drop_first();
        assert(s[0].points >= points);
        assert forall|i: int| 0 <= i < pos - 1 implies (#[trigger] rest[i]).points >= points by {
            assert(rest[i] == s[i + 1]);
        }
        if pos - 1 < rest.len() {
            assert(rest[pos - 1] == s[pos]);
        }
        lemma_leading_found(rest, points, pos - 1);
    }
}

/// Placing a record into an ordered list leaves it ordered and one longer.
pub proof fn lemma_placed_is_sorted(s: Seq<RecordView>, r: RecordView)
    requires
        sorted_desc(s),
    ensures
        sorted_desc(placed(s, r)),
        placed(s, r).len() == s.len() + 1,
{
    lemma_leading_at_least(s, r.points);
    let k = leading_at_least(s, r.points) as int;
    let t = placed(s, r);
    s.insert_ensures(k, r);
    assert forall|i: int, j: int| 0 <= i <= j < t.len() implies t[i].points >= t[j].points by {
        if j < k {
            assert(t[i] == s[i] && t[j] == s[j]);
        } else if j == k {
            if i < k {
                assert(t[i] == s[i]);
            }
        } else {
            assert(t[j] == s[j - 1]);
            assert(s[k].points >= s[j - 1].points);
            if i < k {
                assert(t[i] == s[i]);
            } else if i > k {
                assert(t[i] == s[i - 1]);
            }
        }
    }
}

/// The ordered list is ordered, and as long as the list it was made from.
pub proof fn lemma_stable_sort_is_sorted(s: Seq<RecordView>)
    ensures
        sorted_desc(stable_sort_desc(s)),
        stable_sort_desc(s).len() == s.len(),
    decreases s.len(),
{
    if s.len() > 0 {
        lemma_stable_sort_is_sorted(s.drop_last());
        lemma_placed_is_sorted(stable_sort_desc(s.drop_last()), s.last());
    }
}

/// Ordering a list that is ordered already changes nothing.
pub proof fn lemma_stable_sort_of_sorted(s: Seq<RecordView>)
    requires
        sorted_desc(s),
    ensures
        stable_sort_desc(s) == s,
    decreases s.len(),
{
    if s.len() > 0 {
        let front = s.drop_last();
        lemma_stable_sort_of_sorted(front);
        lemma_leading_found(front, s.last().points, front.len() as int);
        assert(front.insert(front.len() as int, s.last()) =~= s);
    }
}

/// A new record goes into an ordered list behind every record that scores at
/// least as much, and the other records keep their places among themselves.
pub proof fn lemma_sort_after_push(s: Seq<RecordView>, r: RecordView)
    requires
        sorted_desc(s),
    ensures
        stable_sort_desc(s.push(r)) == placed(s, r),
{
    lemma_stable_sort_of_sorted(s);
    assert(s.push(r).drop_last() =~= s);
}

/// The ordered list holds the records of the list it was made from, each as
/// often as that list does.
pub proof fn lemma_stable_sort_is_permutation(s: Seq<RecordView>)
    ensures
        stable_sort_desc(s).to_multiset() == s.to_multiset(),
    decreases s.len(),
{
    if s.len() > 0 {
        let front = s.drop_last();
        let sorted = stable_sort_desc(front);
        lemma_stable_sort_is_permutation(front);
        lemma_leading_at_least(sorted, s.last().points);
        to_multiset_insert(sorted, leading_at_least(sorted, s.last().points) as int, s.last());
        to_multiset_build(front, s.last());
        assert(front.push(s.last()) =~= s);
    }
}

/// Placing a record into an ordered list puts it behind the records of its
/// own score and leaves the records of every score in their order.
pub proof fn lemma_placed_is_stable(s: Seq<RecordView>, r: RecordView, points: nat)
    requires
        sorted_desc(s),
    ensures
        scoring(placed(s, r), points) == if r.points == points {
            scoring(s, points).push(r)
        } else {
            scoring(s, points)
        },
{
    lemma_leading_at_least(s, r.points);
    let k = leading_at_least(s, r.points) as int;
    let before = s.subrange(0, k);
    let behind = s.subrange(k, s.len() as int);
    let test = scores(points);
    assert(s =~= before + behind);
    assert(placed(s, r) =~= before.push(r) + behind);
    Seq::filter_distributes_over_add(before, behind, test);
    Seq::filter_distributes_over_add(before.push(r), behind, test);
    before.lemma_filter_push(r, test);
    if r.points == points {
        assert forall|i: int| 0 <= i < behind.len() implies !test(#[trigger] behind[i]) by {
            assert(behind[i] == s[k + i]);
            assert(s[k].points >= s[k + i].points);
        }
        assert(behind.all(|x: RecordView| !test(x)));
        behind.lemma_all_neg_filter_empty(test);
        assert(behind.filter(test) =~= Seq::<RecordView>::empty());
        assert(before.filter(test) + behind.filter(test) =~= before.filter(test));
        assert(before.filter(test).push(r) + behind.filter(test) =~= before.filter(test).push(r));
    }
}

/// Ordering is stable: the records of any one score stand in the ordered list
/// in the order they had before.
pub proof fn lemma_stable_sort_is_stable(s: Seq<RecordView>, points: nat)
    ensures
        scoring(stable_sort_desc(s), points) == scoring(s, points),
    decreases s.len(),
{
    if s.len() > 0 {
        let front = s.drop_last();
        lemma_stable_sort_is_stable(front, points);
        lemma_stable_sort_is_sorted(front);
        lemma_placed_is_stable(stable_sort_desc(front), s.last(), points);
        front.lemma_filter_push(s.last(), scores(points));
        assert(front.push(s.last()) =~= s);
    }
}

/// What offering a record to a ledger comes to: a record that is let in
/// stands behind every record kept that scores at least as much, and the
/// records kept stay in their order.
pub proof fn lemma_inserted_places_record(s: Seq<RecordView>, r: RecordView)
    requires
        ledger_wf(s),
        !turned_away(s, r),
    ensures
        inserted(s, r) == placed(retained(s), r),
        inserted(s, r).len() == retained(s).len() + 1,
        inserted(s, r).remove(leading_at_least(retained(s), r.points) as int) == retained(s),
{
    let kept = retained(s);
    lemma_sort_after_push(kept, r);
    lemma_leading_at_least(kept, r.points);
    let k = leading_at_least(kept, r.points) as int;
    kept.insert_ensures(k, r);
    assert(kept.insert(k, r).remove(k) =~= kept);
}

/// Offering a record to a ledger leaves a ledger.
pub proof fn lemma_inserted_is_ledger(s: Seq<RecordView>, r: RecordView)
    requires
        ledger_wf(s),
    ensures
        ledger_wf(inserted(s, r)),
{
    if !turned_away(s, r) {
        lemma_stable_sort_is_sorted(retained(s).push(r));
    }
}

/// The best records of any list make a ledger.
pub proof fn lemma_normalized_is_ledger(s: Seq<RecordView>)
    ensures
        ledger_wf(normalized(s)),
{
    lemma_stable_sort_is_sorted(s);
}

/// Orders `records` by score, highest first; records of equal score keep the
/// order they came in.
pub fn sort_scores(records: &mut Vec<ScoreRecord>)
    ensures
        views(final(records)@) == stable_sort_desc(views(old(records)@)),
{
    let ghost given = records@;
    let n = records.len();
    let mut i: usize = 0;
    while i < n
        invariant
            i <= n,
            records@.len() == n,
            given.len() == n,
            views(records@.take(i as int)) == stable_sort_desc(views(given.take(i as int))),
            records@.skip(i as int) == given.skip(i as int),
        decreases n - i,
    {
        let ghost before = records@;
        let ghost done = views(before.take(i as int));
        assert(before[i as int] == before.skip(i as int)[0]);
        let r = records.remove(i);
        let ghost rest = records@;
        assert(r == given[i as int]);
        let mut pos: usize = 0;
        while pos < i && records[pos].points >= r.points
            invariant
                pos <= i,
                i < n,
                records@.len() == n - 1,
                forall|j: int| 0 <= j < pos ==> (#[trigger] records@[j]).points >= r.points,
            decreases i - pos,
        {
            pos += 1;
        }
        proof {
            assert(views(records@.take(i as int)) =~= done);
            assert forall|j: int| 0 <= j < pos implies (#[trigger] done[j]).points
                >= r@.points by {
                assert(done[j] == records@[j]@);
            }
            if pos < i {
                assert(done[pos as int] == records@[pos as int]@);
            }
            lemma_leading_found(done, r@.points, pos as int);
        }
        records.insert(pos, r);
        proof {
            let upto = given.take(i + 1);
            assert(views(upto).drop_last() =~= views(given.take(i as int)));
            assert(views(upto).last() == r@);
            assert(views(records@.take(i + 1)) =~= done.insert(pos as int, r@));
            let tail = records@.skip(i + 1);
            let goal = given.skip(i + 1);
            assert forall|k: int| 0 <= k < n - i - 1 implies #[trigger] tail[k] == goal[k] by {
                assert(records@[i + 1 + k] == rest[i + k]);
                assert(rest[i + k] == before[i + 1 + k]);
                assert(before[i + 1 + k] == before.skip(i as int)[k + 1]);
            }
            assert(tail =~= goal);
        }
        i += 1;
    }
    assert(records@.take(n as int) =~= records@);
    assert(given.take(n as int) =~= given);
}

/// The ranked list of the best games.
pub struct ScoreLedger {
    records: Vec<ScoreRecord>,
}

impl View for ScoreLedger {
    type V = Seq<RecordView>;

    closed spec fn view(&self) -> Seq<RecordView> {
        views(self.records@)
    }
}

impl ScoreLedger {
    /// A ledger without records.
    pub fn new() -> (ledger: ScoreLedger)
        ensures
            ledger@ == Seq::<RecordView>::empty(),
            ledger_wf(ledger@),
    {
        let ledger = ScoreLedger { records: Vec::new() };
        assert(ledger@ =~= Seq::<RecordView>::empty());
        ledger
    }

    /// The ledger of a first start: five made-up players with round scores.
    pub fn seeded() -> (ledger: ScoreLedger)
        ensures
            ledger@ == seed(),
            ledger_wf(ledger@),
    {
        let mut records: Vec<ScoreRecord> = Vec::new();
        records.push(ScoreRecord::new("Tom".to_owned(), 250));
        records.push(ScoreRecord::new("Tim".to_owned(), 200));
        records.push(ScoreRecord::new("Jim".to_owned(), 150));
        records.push(ScoreRecord::new("Kim".to_owned(), 50));
        records.push(ScoreRecord::new("Dim".to_owned(), 10));
        assert(views(records@) =~= seed());
        ScoreLedger { records }
    }

    /// The ledger made of the best `CAPACITY` of `records`.
    pub fn from_records(records: Vec<ScoreRecord>) -> (ledger: ScoreLedger)
        ensures
            ledger@ == normalized(views(records@)),
            ledger_wf(ledger@),
    {
        let mut records = records;
        let ghost given = views(records@);
        sort_scores(&mut records);
        let ghost sorted = records@;
        records.truncate(CAPACITY);
        proof {
            lemma_normalized_is_ledger(given);
            if sorted.len() > CAPACITY {
                assert(views(sorted.take(CAPACITY as int)) =~= views(sorted).take(CAPACITY as int));
            }
        }
        ScoreLedger { records }
    }

    /// The ledger to start with, and whether it has to be stored right away.
    /// With a stored list, the ledger is made of its best records and nothing
    /// needs storing. Without one, the ledger is the seeded one, and it is to
    /// be stored at once.
    pub fn load_or_seed(stored: Option<Vec<ScoreRecord>>) -> (r: (ScoreLedger, bool))
        ensures
            ledger_wf(r.0@),
            match stored {
                Some(list) => r.0@ == normalized(views(list@)) && !r.1,
                None => r.0@ == seed() && r.1,
            },
    {
        match stored {
            Some(list) => (ScoreLedger::from_records(list), false),
            None => (ScoreLedger::seeded(), true),
        }
    }

    /// Offers `record` to the ledger and tells whether it was let in.
    ///
    /// A full ledger turns away a record that scores less than its lowest,
    /// and drops its lowest for any other. The record let in is ranked by
    /// score, behind the records that score as much.
    pub fn insert(&mut self, record: ScoreRecord) -> (let_in: bool)
        ensures
            final(self)@ == inserted(old(self)@, record@),
            let_in == !turned_away(old(self)@, record@),
            ledger_wf(old(self)@) ==> ledger_wf(final(self)@),
    {
        let n = self.records.len();
        if n >= CAPACITY {
            assert(old(self)@.last() == self.records@[n - 1]@);
            if record.points < self.records[n - 1].points {
                return false;
            }
            self.records.pop();
            assert(views(self.records@) =~= old(self)@.drop_last());
        }
        let ghost kept = views(self.records@);
        self.records.push(record);
        assert(views(self.records@) =~= kept.push(record@));
        sort_scores(&mut self.records);
        proof {
            if ledger_wf(old(self)@) {
                lemma_inserted_is_ledger(old(self)@, record@);
            }
        }
        true
    }

    /// The number of records kept.
    pub fn len(&self) -> (n: usize)
        ensures
            n == self@.len(),
    {
        self.records.len()
    }

    /// The record of rank `i`, the best having rank 0.
    pub fn get(&self, i: usize) -> (r: Option<&ScoreRecord>)
        ensures
            match r {
                Some(record) => i < self@.len() && record@ == self@[i as int],
                None => i >= self@.len(),
            },
    {
        if i < self.records.len() {
            Some(&self.records[i])
        } else {
            None
        }
    }

    /// All records, best first.
    pub fn records(&self) -> (all: &Vec<ScoreRecord>)
        ensures
            views(all@) == self@,
    {
        &self.records
    }

    /// Copies of the best `n` records, best first; of all records if there are
    /// fewer.
    pub fn top_n(&self, n: usize) -> (top: Vec<ScoreRecord>)
        ensures
            views(top@) == self@.take(if n <= self@.len() { n as int } else { self@.len() as int }),
    {
        let count = if n <= self.records.len() { n } else { self.records.len() };
        let mut top: Vec<ScoreRecord> = Vec::new();
        let mut i: usize = 0;
        while i < count
            invariant
                i <= count <= self.records.len(),
                views(top@) == views(self.records@).take(i as int),
            decreases count - i,
        {
            let ghost copied = views(top@);
            let copy = self.records[i].duplicate();
            top.push(copy);
            assert(views(top@) =~= copied.push(copy@));
            assert(views(top@) =~= views(self.records@).take(i + 1));
            i += 1;
        }
        top
    }
}

} // verus!
