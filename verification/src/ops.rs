//! Pure operations over an ordered list of items and a cursor index:
//! move the selection up or down, and transfer the selected item to the
//! end of another list.

use vstd::prelude::*;

verus! {

/// Cursor position after moving the selection one row up: decrement when the
/// list is non-empty and the cursor is not already on the first row.
pub open spec fn move_up_spec(len: nat, cursor: nat) -> nat {
    if len > 0 && cursor > 0 {
        (cursor - 1) as nat
    } else {
        cursor
    }
}

/// Cursor position after moving the selection one row down: increment when
/// the cursor is not already on the last row of a non-empty list.
pub open spec fn move_down_spec(len: nat, cursor: nat) -> nat {
    if cursor + 1 < len {
        (cursor + 1) as nat
    } else {
        cursor
    }
}

/// The source list after a transfer: the selected item is removed when the
/// cursor is a valid index, and the rest keep their relative order.
pub open spec fn transfer_src_spec<T>(src: Seq<T>, cursor: nat) -> Seq<T> {
    if cursor < src.len() {
        src.remove(cursor as int)
    } else {
        src
    }
}

/// The destination list after a transfer: the selected item of the source is
/// appended at the end when the cursor is a valid index.
pub open spec fn transfer_dst_spec<T>(dst: Seq<T>, src: Seq<T>, cursor: nat) -> Seq<T> {
    if cursor < src.len() {
        dst.push(src[cursor as int])
    } else {
        dst
    }
}

/// The source cursor after a transfer: unchanged while it still lands inside
/// the shortened list, otherwise clamped to the new last index, saturating
/// at 0 when the list became empty.
pub open spec fn transfer_cursor_spec<T>(src: Seq<T>, cursor: nat) -> nat {
    if cursor < src.len() {
        let new_len = (src.len() - 1) as nat;
        if cursor < new_len {
            cursor
        } else if new_len == 0 {
            0
        } else {
            (new_len - 1) as nat
        }
    } else {
        cursor
    }
}

/// Move the selection one row up; a no-op on the first row or on an empty
/// list. Never wraps and never fails.
pub fn list_up(list: &Vec<String>, list_curr: &mut usize)
    ensures
        *final(list_curr) == move_up_spec(list@.len(), *old(list_curr) as nat),
{
    if list.len() > 0 && *list_curr > 0 {
        *list_curr = *list_curr - 1;
    }
}

/// Move the selection one row down; a no-op on the last row or on an empty
/// list. Never wraps and never fails.
pub fn list_down(list: &Vec<String>, list_curr: &mut usize)
    ensures
        *final(list_curr) == move_down_spec(list@.len(), *old(list_curr) as nat),
{
    if list.len() > 0 && *list_curr < list.len() - 1 {
        *list_curr = *list_curr + 1;
    }
}

/// Move the item under the source cursor to the end of the destination list,
/// then clamp the source cursor back into bounds; a no-op when the cursor is
/// past the end of the source (in particular on an empty source).
pub fn list_transfer(list_dst: &mut Vec<String>, list_src: &mut Vec<String>, list_src_curr: &mut usize)
    ensures
        final(list_dst)@ == transfer_dst_spec(old(list_dst)@, old(list_src)@, *old(list_src_curr) as nat),
        final(list_src)@ == transfer_src_spec(old(list_src)@, *old(list_src_curr) as nat),
        *final(list_src_curr) == transfer_cursor_spec(old(list_src)@, *old(list_src_curr) as nat),
{
    if *list_src_curr < list_src.len() {
        let item = list_src.remove(*list_src_curr);
        list_dst.push(item);
        if *list_src_curr >= list_src.len() {
            if list_src.len() == 0 {
                *list_src_curr = 0;
            } else {
                *list_src_curr = list_src.len() - 1;
            }
        }
    }
}

/// Moving the selection down and then up returns it to where it started;
/// when the start was already the last row, moving down is itself a no-op.
pub proof fn lemma_down_then_up(len: nat, cursor: nat)
    requires
        len > 0,
        cursor < len,
    ensures
        cursor + 1 < len ==> move_up_spec(len, move_down_spec(len, cursor)) == cursor,
        cursor + 1 == len ==> move_down_spec(len, cursor) == cursor,
{
}

/// Moving up on the first row is a no-op; moving down on the last row is a
/// no-op; on an empty list both are no-ops whatever the cursor holds.
pub proof fn lemma_moves_no_op(len: nat, cursor: nat)
    ensures
        move_up_spec(len, 0) == 0,
        cursor + 1 >= len ==> move_down_spec(len, cursor) == cursor,
        len == 0 ==> move_up_spec(len, cursor) == cursor,
        len == 0 ==> move_down_spec(len, cursor) == cursor,
{
}

/// A transfer at a valid cursor shortens the source by one and lengthens the
/// destination by one; the removed item becomes the destination's new last
/// element, the destination's old elements stay in place, and the remaining
/// source items keep their relative order.
pub proof fn lemma_transfer_moves_item<T>(dst: Seq<T>, src: Seq<T>, cursor: nat)
    requires
        cursor < src.len(),
    ensures
        transfer_src_spec(src, cursor).len() == src.len() - 1,
        transfer_dst_spec(dst, src, cursor).len() == dst.len() + 1,
        transfer_dst_spec(dst, src, cursor).last() == src[cursor as int],
        forall|i: int| 0 <= i < dst.len() ==> transfer_dst_spec(dst, src, cursor)[i] == dst[i],
        forall|i: int| 0 <= i < cursor ==> transfer_src_spec(src, cursor)[i] == src[i],
        forall|i: int|
            cursor <= i < src.len() - 1 ==> transfer_src_spec(src, cursor)[i] == src[i + 1],
{
}

/// How the source cursor settles after a transfer at a valid index: when the
/// removal empties the list it becomes 0; while it still points inside the
/// shortened list it is unchanged; when it pointed at the removed last item
/// of a longer list it clamps to the new last index.
pub proof fn lemma_transfer_cursor_clamps<T>(src: Seq<T>, cursor: nat)
    requires
        cursor < src.len(),
    ensures
        src.len() == 1 ==> transfer_cursor_spec(src, cursor) == 0,
        cursor + 1 < src.len() ==> transfer_cursor_spec(src, cursor) == cursor,
        src.len() > 1 && cursor + 1 == src.len() ==> transfer_cursor_spec(src, cursor) == src.len()
            - 2,
{
}

/// A transfer whose source is empty changes nothing: both lists and the
/// cursor keep their values.
pub proof fn lemma_transfer_empty_no_op<T>(dst: Seq<T>, src: Seq<T>, cursor: nat)
    requires
        src.len() == 0,
    ensures
        transfer_src_spec(src, cursor) == src,
        transfer_dst_spec(dst, src, cursor) == dst,
        transfer_cursor_spec(src, cursor) == cursor,
{
}

} // verus!
