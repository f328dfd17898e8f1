use vstd::prelude::*;

use crate::writer::{fits, held_after_write};

verus! {

/// The chunks joined end to end, first chunk first.
pub open spec fn joined(chunks: Seq<Seq<u8>>) -> Seq<u8>
    decreases chunks.len(),
{
    if chunks.len() == 0 {
        Seq::empty()
    } else {
        joined(chunks.drop_last()) + chunks.last()
    }
}

/// What the buffer holds after writing each chunk in turn onto `held`,
/// every write succeeding.
pub open spec fn held_after_writes(held: Seq<u8>, chunks: Seq<Seq<u8>>) -> Seq<u8>
    decreases chunks.len(),
{
    if chunks.len() == 0 {
        held
    } else {
        held_after_write(held_after_writes(held, chunks.drop_last()), chunks.last())
    }
}

/// Writes whose lengths add up, with what was held, to less than
/// `CAPACITY` all take the path that calls no sink, and after each of them
/// the buffer holds what was held followed by every byte written so far.
pub proof fn lemma_accumulation(held: Seq<u8>, chunks: Seq<Seq<u8>>)
    requires
        held.len() + joined(chunks).len() < crate::writer::CAPACITY,
    ensures
        forall|i: int|
            0 <= i < chunks.len() ==> fits(
                #[trigger] held_after_writes(held, chunks.take(i)).len(),
                chunks[i].len(),
            ),
        forall|i: int|
            0 <= i <= chunks.len() ==> #[trigger] held_after_writes(held, chunks.take(i)) == held
                + joined(chunks.take(i)),
    decreases chunks.len(),
{
    if chunks.len() > 0 {
        let front = chunks.drop_last();
        assert(joined(chunks) == joined(front) + chunks.last());
        lemma_accumulation(held, front);
        assert forall|i: int| 0 <= i <= chunks.len() implies #[trigger] held_after_writes(
            held,
            chunks.take(i),
        ) == held + joined(chunks.take(i)) && (i < chunks.len() ==> fits(
            held_after_writes(held, chunks.take(i)).len(),
            chunks[i].len(),
        )) by {
            if i < chunks.len() {
                assert(chunks.take(i) =~= front.take(i));
                assert(held_after_writes(held, front.take(i)) == held + joined(front.take(i)));
                lemma_joined_prefix(front, i);
            } else {
                assert(chunks.take(i) =~= chunks);
                assert(chunks.drop_last() =~= front.take(front.len() as int));
                assert(held_after_writes(held, front.take(front.len() as int)) == held + joined(
                    front.take(front.len() as int),
                ));
                assert(front.take(front.len() as int) =~= front);
                assert(held_after_writes(held, front) + chunks.last() =~= held + joined(chunks));
            }
        }
    }
}

/// A prefix of the chunks, with the next chunk after it, is no longer than
/// all of them joined.
proof fn lemma_joined_prefix(chunks: Seq<Seq<u8>>, i: int)
    requires
        0 <= i <= chunks.len(),
    ensures
        joined(chunks.take(i)).len() + (if i < chunks.len() {
            chunks[i].len()
        } else {
            0
        }) <= joined(chunks).len(),
    decreases chunks.len(),
{
    if chunks.len() > 0 && i < chunks.len() {
        let front = chunks.drop_last();
        assert(joined(chunks) == joined(front) + chunks.last());
        if i < front.len() {
            lemma_joined_prefix(front, i);
            assert(chunks.take(i) =~= front.take(i));
            assert(front[i] == chunks[i]);
        } else {
            assert(chunks.take(i) =~= front);
        }
    } else {
        assert(chunks.take(i) =~= chunks);
    }
}

} // verus!
