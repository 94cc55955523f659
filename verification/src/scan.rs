//! Cutting a sequence at each occurrence of one item.

use vstd::prelude::*;

verus! {

/// The number of items before the first `stop`, or the length of `items` where
/// `stop` does not occur.
pub open spec fn until<T>(items: Seq<T>, stop: T) -> nat
    decreases items.len(),
{
    if items.len() == 0 || items[0] == stop {
        0
    } else {
        1 + until(items.drop_first(), stop)
    }
}

/// `until` stays within the sequence, passes no `stop`, and ends on one unless
/// it ends at the end.
pub proof fn lemma_until<T>(items: Seq<T>, stop: T)
    ensures
        until(items, stop) <= items.len(),
        forall|j: int| 0 <= j < until(items, stop) ==> items[j] != stop,
        until(items, stop) < items.len() ==> items[until(items, stop) as int] == stop,
    decreases items.len(),
{
    if items.len() != 0 && items[0] != stop {
        let rest = items.drop_first();
        lemma_until(rest, stop);
        assert forall|j: int| 0 <= j < until(items, stop) implies items[j] != stop by {
            if j > 0 {
                assert(items[j] == rest[j - 1]);
            }
        }
        assert(until(items, stop) < items.len() ==> items[until(items, stop) as int] == rest[until(
            rest,
            stop,
        ) as int]);
    }
}

/// A position with no `stop` before it, which holds one or is the end of the
/// sequence, is where `until` ends.
pub proof fn lemma_until_is<T>(items: Seq<T>, stop: T, end: int)
    requires
        0 <= end <= items.len(),
        forall|j: int| 0 <= j < end ==> items[j] != stop,
        end < items.len() ==> items[end] == stop,
    ensures
        until(items, stop) == end,
{
    lemma_until(items, stop);
}

/// The pieces of `items` between the occurrences of `stop`: what stands
/// before the first `stop`, then the pieces of what follows it. A sequence
/// without `stop` is one piece, so there is always at least one, and an empty
/// sequence is one empty piece.
pub open spec fn pieces<T>(items: Seq<T>, stop: T) -> Seq<Seq<T>>
    decreases items.len(),
{
    let end = until(items, stop) as int;
    if end >= items.len() {
        seq![items]
    } else {
        seq![items.take(end)] + pieces(items.skip(end + 1), stop)
    }
}

/// There is at least one piece.
pub proof fn lemma_pieces_exist<T>(items: Seq<T>, stop: T)
    ensures
        pieces(items, stop).len() >= 1,
{
}

/// One step of cutting. `done` pieces were cut and `start` is where the next
/// one begins; with a `stop` at `at` and none before it, the next piece is what
/// stands between the two, and the pieces after it are those of what follows
/// `at`.
pub proof fn lemma_piece_step<T>(items: Seq<T>, stop: T, done: int, start: int, at: int)
    requires
        0 <= start <= at < items.len(),
        items[at] == stop,
        forall|j: int| start <= j < at ==> items[j] != stop,
        0 <= done < pieces(items, stop).len(),
        pieces(items, stop).skip(done) == pieces(items.skip(start), stop),
    ensures
        done + 1 < pieces(items, stop).len(),
        pieces(items, stop)[done] == items.subrange(start, at),
        pieces(items, stop).skip(done + 1) == pieces(items.skip(at + 1), stop),
{
    let all = pieces(items, stop);
    let rest = items.skip(start);
    let tail = pieces(items.skip(at + 1), stop);
    lemma_until_is(rest, stop, at - start);
    lemma_pieces_exist(items.skip(at + 1), stop);
    assert(rest.take(at - start) =~= items.subrange(start, at));
    assert(rest.skip(at - start + 1) =~= items.skip(at + 1));
    assert(all.skip(done) == seq![items.subrange(start, at)] + tail);
    assert(all.skip(done).len() == 1 + tail.len());
    assert(all[done] == all.skip(done)[0]);
    assert(all.skip(done + 1) =~= all.skip(done).skip(1));
}

/// The end of cutting. With no `stop` from `start` on, what is left is the
/// last piece.
pub proof fn lemma_last_piece<T>(items: Seq<T>, stop: T, done: int, start: int)
    requires
        0 <= start <= items.len(),
        forall|j: int| start <= j < items.len() ==> items[j] != stop,
        0 <= done < pieces(items, stop).len(),
        pieces(items, stop).skip(done) == pieces(items.skip(start), stop),
    ensures
        pieces(items, stop).len() == done + 1,
        pieces(items, stop)[done] == items.subrange(start, items.len() as int),
{
    let all = pieces(items, stop);
    let rest = items.skip(start);
    lemma_until_is(rest, stop, items.len() - start);
    assert(rest =~= items.subrange(start, items.len() as int));
    assert(all.skip(done) == seq![rest]);
    assert(all.skip(done).len() == 1);
    assert(all[done] == all.skip(done)[0]);
}

} // verus!
