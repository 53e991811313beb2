use vstd::prelude::*;

verus! {

/// The cursor invariant of a list of `len` items: an index into the list
/// when it is non-empty, and 0 when it is empty.
pub open spec fn cursor_ok(len: nat, cur: nat) -> bool {
    if len == 0 {
        cur == 0
    } else {
        cur < len
    }
}

/// The cursor after an item was taken out, in a list now `len` long.
pub open spec fn repaired_cursor(cur: nat, len: nat) -> nat {
    if len == 0 {
        0
    } else if cur >= len {
        (len - 1) as nat
    } else {
        cur
    }
}

/// Moves the cursor one item up; at the top it stays.
pub fn list_up(list_curr: &mut usize)
    ensures
        *final(list_curr) == if *old(list_curr) > 0 {
            (*old(list_curr) - 1) as usize
        } else {
            *old(list_curr)
        },
{
    if *list_curr > 0 {
        *list_curr -= 1;
    }
}

/// Moves the cursor one item down; at the last item it stays.
pub fn list_down(list: &Vec<String>, list_curr: &mut usize)
    ensures
        *final(list_curr) == if *old(list_curr) + 1 < list.len() {
            (*old(list_curr) + 1) as usize
        } else {
            *old(list_curr)
        },
{
    if list.len() > 0 && *list_curr < list.len() - 1 {
        *list_curr += 1;
    }
}

/// Moves the item under the source cursor to the end of the destination
/// list, keeping the order of the items left behind, and pulls the source
/// cursor back onto the list where it would point past its end. Where the
/// cursor is not on an item, nothing changes.
pub fn list_transfer(list_dst: &mut Vec<String>, list_src: &mut Vec<String>, list_src_curr: &mut usize)
    ensures
        *old(list_src_curr) < old(list_src).len() ==> {
            let cur = *old(list_src_curr) as int;
            &&& final(list_src)@ == old(list_src)@.remove(cur)
            &&& final(list_dst)@ == old(list_dst)@.push(old(list_src)@[cur])
            &&& *final(list_src_curr) == repaired_cursor(
                cur as nat,
                (old(list_src).len() - 1) as nat,
            )
        },
        *old(list_src_curr) >= old(list_src).len() ==> {
            &&& final(list_src)@ == old(list_src)@
            &&& final(list_dst)@ == old(list_dst)@
            &&& *final(list_src_curr) == *old(list_src_curr)
        },
{
    if *list_src_curr < list_src.len() {
        let item = list_src.remove(*list_src_curr);
        list_dst.push(item);
        if *list_src_curr >= list_src.len() && list_src.len() > 0 {
            *list_src_curr = list_src.len() - 1;
        }
    }
}

} // verus!
