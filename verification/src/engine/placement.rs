//! Room in the ring: why few enough warriors always find their starts.
use vstd::prelude::*;
use vstd::arithmetic::div_mod::lemma_fundamental_div_mod_converse;
use crate::engine::corebuilder::{fits, gap_spec, too_close_spec};

verus! {

/// The number of cells below `upto` that are too close to a start at
/// `offset`.
pub open spec fn close_count(offset: int, separation: int, n: int, upto: int) -> int
    decreases upto,
{
    if upto <= 0 {
        0
    } else {
        close_count(offset, separation, n, upto - 1) + if too_close_spec(
            upto - 1,
            offset,
            separation,
            n,
        ) {
            1int
        } else {
            0int
        }
    }
}

/// The number of cells below `upto` that are too close to one of `offsets`.
pub open spec fn taken_count(offsets: Seq<usize>, separation: int, n: int, upto: int) -> int
    decreases upto,
{
    if upto <= 0 {
        0
    } else {
        taken_count(offsets, separation, n, upto - 1) + if fits(upto - 1, offsets, separation, n) {
            0int
        } else {
            1int
        }
    }
}

/// The number of cells below `upto` that lie between `low` and `high`, both
/// counted in.
pub open spec fn window_count(low: int, high: int, upto: int) -> int {
    let top = if upto <= high + 1 {
        upto
    } else {
        high + 1
    };
    let bottom = if low < 0 {
        0
    } else {
        low
    };
    if bottom < top {
        top - bottom
    } else {
        0
    }
}

/// The gap from one cell of the ring to another, without the modulus.
pub proof fn lemma_gap(from: int, to: int, n: int)
    requires
        0 <= from < n,
        0 <= to < n,
    ensures
        gap_spec(from, to, n) == if from <= to {
            to - from
        } else {
            to - from + n
        },
{
    if from <= to {
        lemma_fundamental_div_mod_converse(to - from, n, 0, to - from);
    } else {
        lemma_fundamental_div_mod_converse(to - from, n, -1, to - from + n);
    }
}

/// The cells that are too close to a start lie in three windows: around the
/// start, at the end of the core and at its beginning.
pub proof fn lemma_close_windows(address: int, offset: int, separation: int, n: int)
    requires
        0 <= address < n,
        0 <= offset < n,
    ensures
        too_close_spec(address, offset, separation, n) <==> (offset - separation <= address
            <= offset + separation) || offset + n - separation <= address || address <= offset
            + separation - n,
{
    lemma_gap(address, offset, n);
    lemma_gap(offset, address, n);
}

/// The cells too close to a start are no more than the cells of its three
/// windows.
pub proof fn lemma_close_count_in_windows(offset: int, separation: int, n: int, upto: int)
    requires
        0 <= offset < n,
        0 <= upto <= n,
    ensures
        close_count(offset, separation, n, upto) <= window_count(
            offset - separation,
            offset + separation,
            upto,
        ) + window_count(offset + n - separation, n - 1, upto) + window_count(
            0,
            offset + separation - n,
            upto,
        ),
    decreases upto,
{
    if upto > 0 {
        lemma_close_count_in_windows(offset, separation, n, upto - 1);
        lemma_close_windows(upto - 1, offset, separation, n);
    }
}

/// No more than `2 * separation + 1` cells are too close to a start.
pub proof fn lemma_close_count(offset: int, separation: int, n: int)
    requires
        0 <= offset < n,
        0 <= separation,
    ensures
        close_count(offset, separation, n, n) <= 2 * separation + 1,
{
    lemma_close_count_in_windows(offset, separation, n, n);
}

/// One more start takes no more cells than are too close to it.
pub proof fn lemma_taken_count_grows(
    offsets: Seq<usize>,
    offset: usize,
    separation: int,
    n: int,
    upto: int,
)
    ensures
        taken_count(offsets.push(offset), separation, n, upto) <= taken_count(
            offsets,
            separation,
            n,
            upto,
        ) + close_count(offset as int, separation, n, upto),
    decreases upto,
{
    if upto > 0 {
        lemma_taken_count_grows(offsets, offset, separation, n, upto - 1);
        let more = offsets.push(offset);
        if fits(upto - 1, offsets, separation, n) && !too_close_spec(
            upto - 1,
            offset as int,
            separation,
            n,
        ) {
            assert forall|i: int| 0 <= i < more.len() implies !too_close_spec(
                upto - 1,
                (#[trigger] more[i]) as int,
                separation,
                n,
            ) by {
                if i < offsets.len() {
                    assert(more[i] == offsets[i]);
                }
            }
        }
    }
}

/// Starts take no more than `2 * separation + 1` cells each.
pub proof fn lemma_taken_count(offsets: Seq<usize>, separation: int, n: int)
    requires
        0 <= separation,
        forall|i: int| 0 <= i < offsets.len() ==> (#[trigger] offsets[i]) < n,
    ensures
        taken_count(offsets, separation, n, n) <= offsets.len() * (2 * separation + 1),
    decreases offsets.len(),
{
    if offsets.len() == 0 {
        lemma_none_taken(offsets, separation, n, n);
        assert(offsets.len() * (2 * separation + 1) == 0) by (nonlinear_arith)
            requires
                offsets.len() == 0,
        ;
    } else {
        let fewer = offsets.drop_last();
        lemma_taken_count(fewer, separation, n);
        lemma_taken_count_grows(fewer, offsets.last(), separation, n, n);
        assert(fewer.push(offsets.last()) =~= offsets);
        lemma_close_count(offsets.last() as int, separation, n);
        assert(offsets.len() * (2 * separation + 1) == fewer.len() * (2 * separation + 1) + (2
            * separation + 1)) by (nonlinear_arith)
            requires
                offsets.len() == fewer.len() + 1,
        ;
    }
}

/// Without starts no cell is taken.
pub proof fn lemma_none_taken(offsets: Seq<usize>, separation: int, n: int, upto: int)
    requires
        offsets.len() == 0,
    ensures
        taken_count(offsets, separation, n, upto) == 0,
    decreases upto,
{
    if upto > 0 {
        lemma_none_taken(offsets, separation, n, upto - 1);
    }
}

/// Where every cell below `upto` is taken, that many cells are taken.
pub proof fn lemma_all_taken(offsets: Seq<usize>, separation: int, n: int, upto: int)
    requires
        0 <= upto,
        forall|address: int| 0 <= address < upto ==> !#[trigger] fits(
            address,
            offsets,
            separation,
            n,
        ),
    ensures
        taken_count(offsets, separation, n, upto) == upto,
    decreases upto,
{
    if upto > 0 {
        lemma_all_taken(offsets, separation, n, upto - 1);
    }
}

/// Starts that are few enough leave a cell that is far enough from all of
/// them: with `2 * separation + 1` cells for each start and a core of more
/// cells than that, there is room for one more.
pub proof fn lemma_room_left(offsets: Seq<usize>, separation: int, n: int)
    requires
        0 <= separation,
        forall|i: int| 0 <= i < offsets.len() ==> (#[trigger] offsets[i]) < n,
        offsets.len() * (2 * separation + 1) < n,
    ensures
        exists|address: int| 0 <= address < n && #[trigger] fits(address, offsets, separation, n),
{
    lemma_taken_count(offsets, separation, n);
    if forall|address: int| 0 <= address < n ==> !#[trigger] fits(address, offsets, separation, n) {
        lemma_all_taken(offsets, separation, n, n);
    }
}

} // verus!
