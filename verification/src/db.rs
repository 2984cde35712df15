//! Helpers for building SQL statements; the database itself is an outside
//! collaborator and is driven from the surrounding application.

use vstd::prelude::*;

verus! {

/// A row identifier in the backing store.
pub type RowId = i64;

/// The placeholder list for `count` bound variables: `?` repeated with
/// comma separators, empty for zero.
pub open spec fn repeat_vars_spec(count: int) -> Seq<char>
    decreases count,
{
    if count <= 0 {
        Seq::empty()
    } else if count == 1 {
        seq!['?']
    } else {
        repeat_vars_spec(count - 1) + seq![',', '?']
    }
}

/// Builds the placeholder list, pinned to [`repeat_vars_spec`].
pub fn repeat_vars(count: usize) -> (r: String)
    ensures
        r@ == repeat_vars_spec(count as int),
{
    let mut out = String::new();
    if count == 0 {
        proof {
            assert(out@ =~= repeat_vars_spec(0));
        }
        return out;
    }
    crate::text::push_char(&mut out, '?');
    proof {
        assert(out@ =~= repeat_vars_spec(1));
    }
    let mut i: usize = 1;
    while i < count
        invariant
            1 <= i <= count,
            out@ == repeat_vars_spec(i as int),
        decreases count - i,
    {
        crate::text::push_char(&mut out, ',');
        crate::text::push_char(&mut out, '?');
        proof {
            assert(out@ =~= repeat_vars_spec(i as int) + seq![',', '?']);
        }
        i += 1;
    }
    out
}

} // verus!
