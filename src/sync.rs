use vstd::prelude::*;
use crate::error::RunError;
use crate::loader::ChannelTimeline;

verus! {

/// Something that carries a position in a timeline.
pub trait SequenceIndexed {
    spec fn seq_index(&self) -> int;

    fn sequence_index(&self) -> (r: usize)
        ensures
            r == self.seq_index(),
    ;
}

broadcast use {vstd::seq_lib::to_multiset_build, vstd::seq_lib::to_multiset_contains, vstd::multiset::group_multiset_axioms};

/// `s` with `x` placed after every item whose index is not above its own.
pub open spec fn insert_by_index<T: SequenceIndexed>(s: Seq<T>, x: T) -> Seq<T>
    decreases s.len(),
{
    if s.len() == 0 {
        seq![x]
    } else if s.last().seq_index() <= x.seq_index() {
        s.push(x)
    } else {
        insert_by_index(s.drop_last(), x).push(s.last())
    }
}

/// The items of `s` in ascending index order; items with equal indices keep their order.
pub open spec fn sorted_by_index<T: SequenceIndexed>(s: Seq<T>) -> Seq<T>
    decreases s.len(),
{
    if s.len() == 0 {
        Seq::empty()
    } else {
        insert_by_index(sorted_by_index(s.drop_last()), s.last())
    }
}

pub open spec fn ascending<T: SequenceIndexed>(s: Seq<T>) -> bool {
    forall|i: int, j: int| 0 <= i < j < s.len() ==> s[i].seq_index() <= s[j].seq_index()
}

/// The shortest length among the timelines (`0` when there are none).
pub open spec fn common_length(ts: Seq<ChannelTimeline>) -> nat
    decreases ts.len(),
{
    if ts.len() == 0 {
        0
    } else if ts.len() == 1 {
        ts[0].frames@.len()
    } else {
        let m = common_length(ts.drop_last());
        if ts.last().frames@.len() < m {
            ts.last().frames@.len()
        } else {
            m
        }
    }
}

proof fn lemma_insert_at<T: SequenceIndexed>(s: Seq<T>, x: T, pos: int)
    requires
        0 <= pos <= s.len(),
        pos == 0 || s[pos - 1].seq_index() <= x.seq_index(),
        forall|t: int| pos <= t < s.len() ==> s[t].seq_index() > x.seq_index(),
    ensures
        insert_by_index(s, x) == s.insert(pos, x),
    decreases s.len() - pos,
{
    if pos < s.len() {
        lemma_insert_at(s.drop_last(), x, pos);
        assert(s.drop_last().insert(pos, x).push(s.last()) =~= s.insert(pos, x));
    } else if s.len() == 0 {
        assert(s.insert(pos, x) =~= seq![x]);
    } else {
        assert(s.insert(pos, x) =~= s.push(x));
    }
}

proof fn lemma_insert_ascending<T: SequenceIndexed>(s: Seq<T>, x: T)
    requires
        ascending(s),
    ensures
        ascending(insert_by_index(s, x)),
        insert_by_index(s, x).to_multiset() == s.to_multiset().insert(x),
        insert_by_index(s, x).len() == s.len() + 1,
    decreases s.len(),
{
    if s.len() > 0 && s.last().seq_index() > x.seq_index() {
        let d = s.drop_last();
        let r = insert_by_index(d, x);
        lemma_insert_ascending(d, x);
        assert(d.push(s.last()) =~= s);
        assert(r.push(s.last()).to_multiset() =~= s.to_multiset().insert(x));
        assert forall|i: int| 0 <= i < r.len() implies r[i].seq_index() <= s.last().seq_index() by {
            assert(r.contains(r[i]));
            assert(r.to_multiset().count(r[i]) > 0);
            assert(d.to_multiset().insert(x).count(r[i]) > 0);
            if r[i] != x {
                assert(d.to_multiset().count(r[i]) > 0);
                let j = choose|j: int| 0 <= j < d.len() && d[j] == r[i];
                assert(s[j] == d[j]);
            }
        }
    }
}

/// Sorting keeps every frame and yields ascending indices.
pub proof fn lemma_sorted_by_index<T: SequenceIndexed>(s: Seq<T>)
    ensures
        ascending(sorted_by_index(s)),
        sorted_by_index(s).to_multiset() == s.to_multiset(),
        sorted_by_index(s).len() == s.len(),
    decreases s.len(),
{
    if s.len() > 0 {
        lemma_sorted_by_index(s.drop_last());
        lemma_insert_ascending(sorted_by_index(s.drop_last()), s.last());
        assert(s.drop_last().push(s.last()) =~= s);
    }
}

/// Stable sort by index.
pub fn sort_by_index<T: SequenceIndexed>(items: Vec<T>) -> (r: Vec<T>)
    ensures
        r@ == sorted_by_index(items@),
{
    let ghost orig = items@;
    let n = items.len();
    let mut rest = items;
    let mut out: Vec<T> = Vec::new();
    let mut k: usize = 0;
    while k < n
        invariant
            n == orig.len(),
            k <= n,
            rest@ == orig.subrange(k as int, n as int),
            out@ == sorted_by_index(orig.subrange(0, k as int)),
        decreases n - k,
    {
        proof {
            lemma_sorted_by_index(orig.subrange(0, k as int));
        }
        let x = rest.remove(0);
        let mut pos = out.len();
        while pos > 0
            invariant
                pos <= out@.len(),
                forall|t: int| pos <= t < out@.len() ==> out@[t].seq_index() > x.seq_index(),
            ensures
                pos <= out@.len(),
                pos == 0 || out@[pos - 1].seq_index() <= x.seq_index(),
                forall|t: int| pos <= t < out@.len() ==> out@[t].seq_index() > x.seq_index(),
            decreases pos,
        {
            if out[pos - 1].sequence_index() <= x.sequence_index() {
                break;
            }
            pos = pos - 1;
        }
        proof {
            lemma_insert_at(out@, x, pos as int);
            assert(orig.subrange(0, k + 1).drop_last() =~= orig.subrange(0, k as int));
        }
        out.insert(pos, x);
        k = k + 1;
    }
    assert(orig.subrange(0, n as int) =~= orig);
    out
}

/// Sorts every timeline by index and cuts all of them to the shortest one's length.
/// Fails, naming the first empty channel, if any channel has no frame.
pub fn synchronize(timelines: Vec<ChannelTimeline>) -> (r: Result<Vec<ChannelTimeline>, RunError>)
    ensures
        r is Err <==> exists|c: int| 0 <= c < timelines@.len() && timelines@[c].frames@.len() == 0,
        r is Err ==> exists|c: int|
            0 <= c < timelines@.len() && timelines@[c].frames@.len() == 0 && (forall|d: int|
                0 <= d < c ==> timelines@[d].frames@.len() > 0) && r->Err_0 == (
            RunError::EmptyChannelTimeline { channel: timelines@[c].channel }),
        forall|c: int|
            0 <= c < timelines@.len() && #[trigger] timelines@[c].frames@.len() == 0 && (forall|d: int|
                0 <= d < c ==> timelines@[d].frames@.len() > 0) ==> r == Err::<
                Vec<ChannelTimeline>,
                RunError,
            >(RunError::EmptyChannelTimeline { channel: timelines@[c].channel }),
        r is Ok ==> r->Ok_0@.len() == timelines@.len(),
        r is Ok ==> forall|c: int|
            0 <= c < timelines@.len() ==> {
                let t = #[trigger] r->Ok_0@[c];
                &&& t.channel == timelines@[c].channel
                &&& t.frames@ == sorted_by_index(timelines@[c].frames@).take(
                    common_length(timelines@) as int,
                )
                &&& t.frames@.len() == common_length(timelines@)
                &&& ascending(t.frames@)
            },
{
    let ghost orig = timelines@;
    let n = timelines.len();
    let mut common: usize = 0;
    let mut c: usize = 0;
    while c < n
        invariant
            n == orig.len(),
            timelines@ == orig,
            c <= n,
            forall|d: int| 0 <= d < c ==> orig[d].frames@.len() > 0,
            common == common_length(orig.subrange(0, c as int)),
            forall|d: int| 0 <= d < c ==> common <= orig[d].frames@.len(),
        decreases n - c,
    {
        assert(orig.subrange(0, c + 1).drop_last() =~= orig.subrange(0, c as int));
        let len = timelines[c].frames.len();
        if len == 0 {
            return Err(RunError::EmptyChannelTimeline { channel: timelines[c].channel.clone() });
        }
        if c == 0 || len < common {
            common = len;
        }
        c = c + 1;
    }
    assert(orig.subrange(0, n as int) =~= orig);
    let mut rest = timelines;
    let mut out: Vec<ChannelTimeline> = Vec::new();
    let mut k: usize = 0;
    while k < n
        invariant
            n == orig.len(),
            k <= n,
            common == common_length(orig),
            forall|d: int| 0 <= d < n ==> common <= orig[d].frames@.len(),
            rest@ == orig.subrange(k as int, n as int),
            out@.len() == k,
            forall|d: int|
                0 <= d < k ==> {
                    let t = #[trigger] out@[d];
                    &&& t.channel == orig[d].channel
                    &&& t.frames@ == sorted_by_index(orig[d].frames@).take(common as int)
                    &&& t.frames@.len() == common
                    &&& ascending(t.frames@)
                },
        decreases n - k,
    {
        let t = rest.remove(0);
        proof {
            lemma_sorted_by_index(orig[k as int].frames@);
        }
        let mut frames = sort_by_index(t.frames);
        frames.truncate(common);
        out.push(ChannelTimeline { channel: t.channel, frames });
        k = k + 1;
    }
    Ok(out)
}

} // verus!
