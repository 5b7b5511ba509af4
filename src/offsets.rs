use vstd::prelude::*;

use arrow_buffer::NullBuffer;

use crate::error::GeoError;

verus! {

/// Arrow's validity bitmap, held opaque; `null_bits` names what it holds.
#[verifier::external_type_specification]
#[verifier::external_body]
pub struct ExNullBuffer(NullBuffer);

/// The validity bits that a null buffer holds, one per row, `true` where the
/// row holds a value.
pub uninterp spec fn null_bits(b: NullBuffer) -> Seq<bool>;

/// Relies on `NullBuffer::len`: the number of bits.
pub assume_specification[ NullBuffer::len ](b: &NullBuffer) -> (r: usize)
    ensures
        r == null_bits(*b).len(),
;

/// Relies on `NullBuffer::is_valid`: bit `idx`, which must exist (the call
/// asserts it does).
pub assume_specification[ NullBuffer::is_valid ](b: &NullBuffer, idx: usize) -> (r: bool)
    requires
        idx < null_bits(*b).len(),
    ensures
        r == null_bits(*b)[idx as int],
;

/// Relies on `NullBuffer::from(Vec<bool>)`: one bit per element, in order,
/// set where the element is `true`.
#[verifier::external_body]
pub(crate) fn null_buffer_from_bits(bits: Vec<bool>) -> (r: NullBuffer)
    ensures
        null_bits(r) == bits@,
{
    NullBuffer::from(bits)
}

/// An offset buffer over a child buffer of `child_len` items: at least one
/// entry, non-decreasing, and its last entry is the child's length.
pub open spec fn offsets_valid(o: Seq<usize>, child_len: int) -> bool {
    &&& o.len() >= 1
    &&& forall|i: int, j: int| 0 <= i <= j < o.len() ==> o[i] <= o[j]
    &&& o[o.len() - 1] == child_len
}

/// The items of group `i`: from `o[i]` up to, not including, `o[i + 1]`.
pub open spec fn group<T>(items: Seq<T>, o: Seq<usize>, i: int) -> Seq<T> {
    items.subrange(o[i] as int, o[i + 1] as int)
}

/// All groups that an offset buffer delimits, in order.
pub open spec fn groups<T>(items: Seq<T>, o: Seq<usize>) -> Seq<Seq<T>> {
    Seq::new((o.len() - 1) as nat, |i: int| group(items, o, i))
}

/// A validity buffer, when present, has one bit per row.
pub open spec fn nulls_valid(nulls: Option<NullBuffer>, rows: int) -> bool {
    match nulls {
        Some(v) => null_bits(v).len() == rows,
        None => true,
    }
}

/// Whether row `i` holds a value; an absent validity buffer means every row does.
pub open spec fn row_valid(nulls: Option<NullBuffer>, i: int) -> bool {
    match nulls {
        Some(v) => null_bits(v)[i],
        None => true,
    }
}

/// The validity bit of each of `n` rows.
pub open spec fn validity_of(nulls: Option<NullBuffer>, n: int) -> Seq<bool> {
    match nulls {
        Some(v) => null_bits(v),
        None => Seq::new(n as nat, |i: int| true),
    }
}

/// Rows that hold a group where the validity bit is set, and nothing elsewhere.
pub open spec fn rows_of<T>(valid: Seq<bool>, gs: Seq<T>) -> Seq<Option<T>> {
    Seq::new(gs.len(), |i: int| if valid[i] { Some(gs[i]) } else { None })
}

/// One more row with one more validity bit.
pub proof fn lemma_rows_push<T>(valid: Seq<bool>, gs: Seq<T>, b: bool, g: T)
    requires
        valid.len() == gs.len(),
    ensures
        rows_of(valid.push(b), gs.push(g)) == rows_of(valid, gs).push(
            if b {
                Some(g)
            } else {
                None
            },
        ),
{
    assert(rows_of(valid.push(b), gs.push(g)) =~= rows_of(valid, gs).push(
        if b {
            Some(g)
        } else {
            None
        },
    ));
}

/// Adjacent entries never decrease, and the last one bounds the child buffer.
pub proof fn lemma_offsets_monotone(o: Seq<usize>, child_len: int, i: int)
    requires
        offsets_valid(o, child_len),
        0 <= i < o.len() - 1,
    ensures
        o[i] <= o[i + 1],
        o[i + 1] <= child_len,
        o[o.len() - 1] == child_len,
{
}

/// Appending items to the child buffer leaves every group as it was.
pub proof fn lemma_groups_extend_items<T>(items: Seq<T>, extra: Seq<T>, o: Seq<usize>)
    requires
        offsets_valid(o, items.len() as int),
    ensures
        groups(items + extra, o) == groups(items, o),
{
    assert forall|i: int| 0 <= i < o.len() - 1 implies group(items + extra, o, i) == group(
        items,
        o,
        i,
    ) by {
        assert(o[i] <= o[i + 1] <= o[o.len() - 1]);
        assert(group(items + extra, o, i) =~= group(items, o, i));
    }
    assert(groups(items + extra, o) =~= groups(items, o));
}

/// Appending an offset closes one more group.
pub proof fn lemma_groups_push<T>(items: Seq<T>, o: Seq<usize>, n: usize)
    requires
        o.len() >= 1,
    ensures
        groups(items, o.push(n)) == groups(items, o).push(
            items.subrange(o[o.len() - 1] as int, n as int),
        ),
{
    assert(groups(items, o.push(n)) =~= groups(items, o).push(
        items.subrange(o[o.len() - 1] as int, n as int),
    ));
}

/// Appending the end of the child buffer keeps an offset buffer valid.
pub proof fn lemma_offsets_push(o: Seq<usize>, old_len: int, new_len: usize)
    requires
        offsets_valid(o, old_len),
        old_len <= new_len,
    ensures
        offsets_valid(o.push(new_len), new_len as int),
{
}

/// Returns whether `offsets` is a valid offset buffer over `child_len` items.
pub fn check_offsets(offsets: &Vec<usize>, child_len: usize) -> (r: bool)
    ensures
        r == offsets_valid(offsets@, child_len as int),
{
    let n = offsets.len();
    if n == 0 {
        return false;
    }
    let mut i: usize = 1;
    while i < n
        invariant
            1 <= i <= n,
            n == offsets@.len(),
            forall|a: int, b: int| 0 <= a <= b < i ==> offsets@[a] <= offsets@[b],
        decreases n - i,
    {
        if offsets[i - 1] > offsets[i] {
            return false;
        }
        assert forall|a: int, b: int| 0 <= a <= b < i + 1 implies offsets@[a] <= offsets@[b] by {
            if b == i as int && a < b {
                assert(offsets@[a] <= offsets@[i - 1]);
            }
        }
        i = i + 1;
    }
    offsets[n - 1] == child_len
}

/// Fails when a validity buffer does not have one bit per row.
pub fn check_nulls(nulls: &Option<NullBuffer>, expected_len: usize) -> (r: Result<(), GeoError>)
    ensures
        r is Ok <==> nulls_valid(*nulls, expected_len as int),
        r matches Err(e) ==> e == GeoError::MalformedBuffer,
{
    match nulls {
        Some(v) => {
            if v.len() != expected_len {
                Err(GeoError::MalformedBuffer)
            } else {
                Ok(())
            }
        },
        None => Ok(()),
    }
}

/// Whether row `i` holds a value.
pub fn is_row_valid(nulls: &Option<NullBuffer>, i: usize) -> (r: bool)
    requires
        nulls matches Some(v) ==> i < null_bits(*v).len(),
    ensures
        r == row_valid(*nulls, i as int),
{
    match nulls {
        Some(v) => v.is_valid(i),
        None => true,
    }
}

} // verus!
