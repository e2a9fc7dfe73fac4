//! The row order of the process table.
//!
//! Rows are compared by the active key and, where two keys are equal, by
//! process id. Text keys are compared byte by byte in their UTF-8 encoding.
//! Sorting is stable: rows that compare equal keep their relative order.

use crate::model::views;
use crate::model::BrtProcess;
use crate::model::Record;
use crate::order::Order;
use vstd::prelude::*;
use vstd::string::*;
use vstd::utf8::encode_utf8;

verus! {

/// Lexicographic order on byte strings: whether `a` is at most `b`.
pub open spec fn bytes_le(a: Seq<u8>, b: Seq<u8>) -> bool
    decreases a.len(),
{
    if a.len() == 0 {
        true
    } else if b.len() == 0 {
        false
    } else if a[0] != b[0] {
        a[0] < b[0]
    } else {
        bytes_le(a.drop_first(), b.drop_first())
    }
}

/// Lexicographic order on texts, by the bytes of their UTF-8 encoding.
pub open spec fn text_le(a: Seq<char>, b: Seq<char>) -> bool {
    bytes_le(encode_utf8(a), encode_utf8(b))
}

/// Whether a row with text key `a` and process id `p` may stand before a row
/// with text key `b` and process id `q`: its key is strictly smaller, or the
/// keys are equal and its process id is not larger.
pub open spec fn text_key_precedes(a: Seq<char>, p: int, b: Seq<char>, q: int) -> bool {
    !text_le(b, a) || (text_le(a, b) && p <= q)
}

/// Whether a row with numeric key `a` and process id `p` may stand before a
/// row with numeric key `b` and process id `q`.
pub open spec fn number_key_precedes(a: int, p: int, b: int, q: int) -> bool {
    a < b || (a == b && p <= q)
}

/// Whether `a` may stand before `b` in a table sorted by `order`.
pub open spec fn precedes(a: Record, b: Record, order: Order) -> bool {
    match order {
        Order::Pid => a.pid <= b.pid,
        Order::Name => text_key_precedes(a.program, a.pid, b.program, b.pid),
        Order::Command => text_key_precedes(a.command, a.pid, b.command, b.pid),
        Order::NumberOfThreads => number_key_precedes(
            a.number_of_threads,
            a.pid,
            b.number_of_threads,
            b.pid,
        ),
        Order::Cpu => number_key_precedes(a.cpu as int, a.pid, b.cpu as int, b.pid),
    }
}

/// Whether every row may stand before its successor.
pub open spec fn is_sorted(rows: Seq<Record>, order: Order) -> bool {
    forall|i: int| 0 <= i < rows.len() - 1 ==> precedes(#[trigger] rows[i], rows[i + 1], order)
}

/// A sorted sequence with one more row: the row goes behind the last row
/// that may stand before it.
pub open spec fn inserted(sorted: Seq<Record>, row: Record, order: Order) -> Seq<Record>
    decreases sorted.len(),
{
    if sorted.len() == 0 || precedes(sorted.last(), row, order) {
        sorted.push(row)
    } else {
        inserted(sorted.drop_last(), row, order).push(sorted.last())
    }
}

/// The rows in sorted order, rows that compare equal in the order they had.
pub open spec fn sorted_rows(rows: Seq<Record>, order: Order) -> Seq<Record>
    decreases rows.len(),
{
    if rows.len() == 0 {
        rows
    } else {
        inserted(sorted_rows(rows.drop_last(), order), rows.last(), order)
    }
}

/// Of two rows, one may always stand before the other.
pub proof fn lemma_precedes_total(a: Record, b: Record, order: Order)
    ensures
        precedes(a, b, order) || precedes(b, a, order),
{
}

/// Of two byte strings, one is at most the other.
pub proof fn lemma_bytes_le_total(a: Seq<u8>, b: Seq<u8>)
    ensures
        bytes_le(a, b) || bytes_le(b, a),
    decreases a.len(),
{
    if a.len() > 0 && b.len() > 0 && a[0] == b[0] {
        lemma_bytes_le_total(a.drop_first(), b.drop_first());
    }
}

/// Every byte string is at most itself.
pub proof fn lemma_bytes_le_reflexive(a: Seq<u8>)
    ensures
        bytes_le(a, a),
    decreases a.len(),
{
    if a.len() > 0 {
        lemma_bytes_le_reflexive(a.drop_first());
    }
}

/// The order on byte strings is transitive.
pub proof fn lemma_bytes_le_transitive(a: Seq<u8>, b: Seq<u8>, c: Seq<u8>)
    requires
        bytes_le(a, b),
        bytes_le(b, c),
    ensures
        bytes_le(a, c),
    decreases a.len(),
{
    if a.len() > 0 && b.len() > 0 && c.len() > 0 && a[0] == b[0] && b[0] == c[0] {
        lemma_bytes_le_transitive(a.drop_first(), b.drop_first(), c.drop_first());
    }
}

/// Two byte strings that are each at most the other are the same.
pub proof fn lemma_bytes_le_antisymmetric(a: Seq<u8>, b: Seq<u8>)
    requires
        bytes_le(a, b),
        bytes_le(b, a),
    ensures
        a == b,
    decreases a.len(),
{
    if a.len() > 0 && b.len() > 0 {
        lemma_bytes_le_antisymmetric(a.drop_first(), b.drop_first());
        assert(a =~= seq![a[0]] + a.drop_first());
        assert(b =~= seq![b[0]] + b.drop_first());
    } else {
        assert(a =~= b);
    }
}

/// Every row may stand before itself.
pub proof fn lemma_precedes_reflexive(a: Record, order: Order)
    ensures
        precedes(a, a, order),
{
    lemma_bytes_le_reflexive(encode_utf8(a.program));
    lemma_bytes_le_reflexive(encode_utf8(a.command));
}

/// If `a` may stand before `b` and `b` before `c`, then `a` may stand before
/// `c`.
pub proof fn lemma_precedes_transitive(a: Record, b: Record, c: Record, order: Order)
    requires
        precedes(a, b, order),
        precedes(b, c, order),
    ensures
        precedes(a, c, order),
{
    match order {
        Order::Name => lemma_text_key_transitive(
            a.program,
            a.pid,
            b.program,
            b.pid,
            c.program,
            c.pid,
        ),
        Order::Command => lemma_text_key_transitive(
            a.command,
            a.pid,
            b.command,
            b.pid,
            c.command,
            c.pid,
        ),
        _ => {},
    }
}

/// The order by a text key and then by process id is transitive.
pub proof fn lemma_text_key_transitive(
    a: Seq<char>,
    p: int,
    b: Seq<char>,
    q: int,
    c: Seq<char>,
    r: int,
)
    requires
        text_key_precedes(a, p, b, q),
        text_key_precedes(b, q, c, r),
    ensures
        text_key_precedes(a, p, c, r),
{
    let x = encode_utf8(a);
    let y = encode_utf8(b);
    let z = encode_utf8(c);
    lemma_bytes_le_total(x, y);
    lemma_bytes_le_total(y, z);
    if bytes_le(z, x) {
        if bytes_le(x, y) {
            lemma_bytes_le_transitive(z, x, y);
        }
        if bytes_le(y, z) {
            lemma_bytes_le_transitive(y, z, x);
        }
    }
    if bytes_le(x, y) && bytes_le(y, z) {
        lemma_bytes_le_transitive(x, y, z);
    }
}

/// In a sorted sequence every row may stand before every later row.
pub proof fn lemma_sorted_pairwise(rows: Seq<Record>, order: Order, i: int, j: int)
    requires
        is_sorted(rows, order),
        0 <= i <= j < rows.len(),
    ensures
        precedes(rows[i], rows[j], order),
    decreases j - i,
{
    if i == j {
        lemma_precedes_reflexive(rows[i], order);
    } else {
        lemma_sorted_pairwise(rows, order, i, j - 1);
        assert(precedes(rows[j - 1], rows[j - 1 + 1], order));
        lemma_precedes_transitive(rows[i], rows[j - 1], rows[j], order);
    }
}

/// Where the new row lands: behind position `at`, which is the end of the
/// longest prefix whose last row may stand before the new one.
pub proof fn lemma_inserted_at(sorted: Seq<Record>, row: Record, order: Order, at: int)
    requires
        0 <= at <= sorted.len(),
        at > 0 ==> precedes(sorted[at - 1], row, order),
        forall|k: int| at <= k < sorted.len() ==> !precedes(#[trigger] sorted[k], row, order),
    ensures
        inserted(sorted, row, order) == sorted.take(at).push(row) + sorted.skip(at),
    decreases sorted.len(),
{
    if at == sorted.len() {
        assert(sorted.take(at) =~= sorted);
        assert(inserted(sorted, row, order) =~= sorted.take(at).push(row) + sorted.skip(at));
    } else {
        let shorter = sorted.drop_last();
        assert(!precedes(sorted[sorted.len() - 1], row, order));
        lemma_inserted_at(shorter, row, order, at);
        assert(shorter.take(at) =~= sorted.take(at));
        assert(inserted(sorted, row, order) =~= sorted.take(at).push(row) + sorted.skip(at));
    }
}

/// Inserting adds exactly the new row.
pub proof fn lemma_inserted_rows(sorted: Seq<Record>, row: Record, order: Order)
    ensures
        inserted(sorted, row, order).len() == sorted.len() + 1,
        inserted(sorted, row, order).to_multiset() == sorted.to_multiset().insert(row),
    decreases sorted.len(),
{
    broadcast use vstd::seq_lib::group_to_multiset_ensures;

    if sorted.len() == 0 || precedes(sorted.last(), row, order) {
    } else {
        let shorter = sorted.drop_last();
        lemma_inserted_rows(shorter, row, order);
        assert(sorted =~= shorter.push(sorted.last()));
        assert(inserted(sorted, row, order).to_multiset() =~= sorted.to_multiset().insert(row));
    }
}

/// Inserting into a sorted sequence leaves it sorted.
pub proof fn lemma_inserted_sorted(sorted: Seq<Record>, row: Record, order: Order)
    requires
        is_sorted(sorted, order),
    ensures
        is_sorted(inserted(sorted, row, order), order),
    decreases sorted.len(),
{
    if sorted.len() == 0 || precedes(sorted.last(), row, order) {
        let result = sorted.push(row);
        assert forall|i: int| 0 <= i < result.len() - 1 implies precedes(
            #[trigger] result[i],
            result[i + 1],
            order,
        ) by {
            if i < sorted.len() - 1 {
                assert(precedes(sorted[i], sorted[i + 1], order));
            }
        }
    } else {
        let shorter = sorted.drop_last();
        let last = sorted.last();
        assert forall|i: int| 0 <= i < shorter.len() - 1 implies precedes(
            #[trigger] shorter[i],
            shorter[i + 1],
            order,
        ) by {
            assert(precedes(sorted[i], sorted[i + 1], order));
        }
        lemma_inserted_sorted(shorter, row, order);
        lemma_inserted_rows(shorter, row, order);
        let inner = inserted(shorter, row, order);
        lemma_inserted_last(shorter, row, order);
        lemma_precedes_total(last, row, order);
        if shorter.len() > 0 {
            assert(precedes(sorted[sorted.len() - 2], sorted[sorted.len() - 2 + 1], order));
        }
        let result = inner.push(last);
        assert forall|i: int| 0 <= i < result.len() - 1 implies precedes(
            #[trigger] result[i],
            result[i + 1],
            order,
        ) by {
            if i < inner.len() - 1 {
                assert(precedes(inner[i], inner[i + 1], order));
            }
        }
    }
}

/// The last row after an insertion is the new row or the old last row.
pub proof fn lemma_inserted_last(sorted: Seq<Record>, row: Record, order: Order)
    ensures
        inserted(sorted, row, order).len() == sorted.len() + 1,
        inserted(sorted, row, order).last() == row || (sorted.len() > 0 && inserted(
            sorted,
            row,
            order,
        ).last() == sorted.last()),
    decreases sorted.len(),
{
    lemma_inserted_rows(sorted, row, order);
}

/// Sorting yields a sorted rearrangement of the rows.
pub proof fn lemma_sorted_rows_sorted(rows: Seq<Record>, order: Order)
    ensures
        is_sorted(sorted_rows(rows, order), order),
        sorted_rows(rows, order).len() == rows.len(),
        sorted_rows(rows, order).to_multiset() == rows.to_multiset(),
    decreases rows.len(),
{
    broadcast use vstd::seq_lib::group_to_multiset_ensures;

    if rows.len() > 0 {
        let shorter = rows.drop_last();
        lemma_sorted_rows_sorted(shorter, order);
        lemma_inserted_sorted(sorted_rows(shorter, order), rows.last(), order);
        lemma_inserted_rows(sorted_rows(shorter, order), rows.last(), order);
        assert(rows =~= shorter.push(rows.last()));
    }
}

/// Sorting leaves a sorted sequence as it is.
pub proof fn lemma_sorted_rows_fixed(rows: Seq<Record>, order: Order)
    requires
        is_sorted(rows, order),
    ensures
        sorted_rows(rows, order) == rows,
    decreases rows.len(),
{
    if rows.len() > 0 {
        let shorter = rows.drop_last();
        assert forall|i: int| 0 <= i < shorter.len() - 1 implies precedes(
            #[trigger] shorter[i],
            shorter[i + 1],
            order,
        ) by {
            assert(precedes(rows[i], rows[i + 1], order));
        }
        lemma_sorted_rows_fixed(shorter, order);
        if shorter.len() > 0 {
            assert(precedes(rows[rows.len() - 2], rows[rows.len() - 2 + 1], order));
        }
        assert(rows =~= shorter.push(rows.last()));
    }
}

/// Sorting a second time by the same key changes nothing.
pub proof fn lemma_sort_idempotent(rows: Seq<Record>, order: Order)
    ensures
        sorted_rows(sorted_rows(rows, order), order) == sorted_rows(rows, order),
{
    lemma_sorted_rows_sorted(rows, order);
    lemma_sorted_rows_fixed(sorted_rows(rows, order), order);
}

/// Compares two texts byte by byte.
pub fn str_le(a: &str, b: &str) -> (le: bool)
    ensures
        le == text_le(a@, b@),
{
    let x = a.as_bytes();
    let y = b.as_bytes();
    let mut i: usize = 0;
    proof {
        assert(x@.skip(0) =~= x@);
        assert(y@.skip(0) =~= y@);
    }
    while i < x.len() && i < y.len()
        invariant
            i <= x@.len(),
            i <= y@.len(),
            x@ == encode_utf8(a@),
            y@ == encode_utf8(b@),
            bytes_le(x@, y@) == bytes_le(x@.skip(i as int), y@.skip(i as int)),
        decreases x@.len() - i,
    {
        if x[i] != y[i] {
            return x[i] < y[i];
        }
        proof {
            assert(x@.skip(i as int).drop_first() =~= x@.skip(i + 1));
            assert(y@.skip(i as int).drop_first() =~= y@.skip(i + 1));
        }
        i = i + 1;
    }
    i == x.len()
}

/// Decides whether row `a` may stand before row `b`.
pub fn row_precedes(a: &BrtProcess, b: &BrtProcess, order: Order) -> (before: bool)
    ensures
        before == precedes(a@, b@, order),
{
    match order {
        Order::Pid => a.pid <= b.pid,
        Order::Name => !str_le(b.program.as_str(), a.program.as_str()) || (str_le(
            a.program.as_str(),
            b.program.as_str(),
        ) && a.pid <= b.pid),
        Order::Command => !str_le(b.command.as_str(), a.command.as_str()) || (str_le(
            a.command.as_str(),
            b.command.as_str(),
        ) && a.pid <= b.pid),
        Order::NumberOfThreads => a.number_of_threads < b.number_of_threads || (
        a.number_of_threads == b.number_of_threads && a.pid <= b.pid),
        Order::Cpu => a.cpu < b.cpu || (a.cpu == b.cpu && a.pid <= b.pid),
    }
}

/// Sorts the rows in place and follows one of them: `followed` is the index
/// of a row before the call, the result its index afterwards.
pub fn sort_rows(rows: &mut Vec<BrtProcess>, order: Order, followed: usize) -> (moved: usize)
    ensures
        views(final(rows)@) == sorted_rows(views(old(rows)@), order),
        is_sorted(views(final(rows)@), order),
        final(rows)@.len() == old(rows)@.len(),
        final(rows)@.to_multiset() == old(rows)@.to_multiset(),
        followed < old(rows)@.len() ==> moved < old(rows)@.len() && final(rows)@[moved as int]
            == old(rows)@[followed as int],
        followed >= old(rows)@.len() ==> moved == followed,
{
    let n: usize = rows.len();
    let mut moved: usize = followed;
    let mut i: usize = 0;
    while i < n
        invariant
            i <= n,
            n == rows@.len(),
            n == old(rows)@.len(),
            views(rows@).take(i as int) == sorted_rows(views(old(rows)@).take(i as int), order),
            rows@.skip(i as int) == old(rows)@.skip(i as int),
            rows@.to_multiset() == old(rows)@.to_multiset(),
            followed < n ==> moved < n && rows@[moved as int] == old(rows)@[followed as int],
            followed >= n ==> moved == followed,
        decreases n - i,
    {
        let ghost before = rows@;
        let mut at: usize = i;
        while at > 0 && !row_precedes(&rows[at - 1], &rows[i], order)
            invariant
                at <= i < n,
                n == rows@.len(),
                rows@ == before,
                forall|k: int|
                    at <= k < i ==> !precedes(#[trigger] views(before)[k], before[i as int]@, order),
            decreases at,
        {
            at = at - 1;
        }
        if at < i {
            let row = rows.remove(i);
            rows.insert(at, row);
            if moved == i {
                moved = at;
            } else if at <= moved && moved < i {
                moved = moved + 1;
            }
        }
        proof {
            broadcast use vstd::seq_lib::group_to_multiset_ensures;

            let prefix = views(before).take(i as int);
            let row = before[i as int]@;
            assert(rows@ =~= before.take(at as int).push(before[i as int]) + before.subrange(
                at as int,
                i as int,
            ) + before.skip(i + 1));
            assert(views(old(rows)@).take(i + 1).drop_last() =~= views(old(rows)@).take(i as int));
            assert(before[i as int] == before.skip(i as int)[0]);
            assert(views(old(rows)@).take(i + 1).last() == row);
            assert forall|k: int| at <= k < prefix.len() implies !precedes(
                #[trigger] prefix[k],
                row,
                order,
            ) by {
                assert(prefix[k] == views(before)[k]);
            }
            if at > 0 {
                assert(prefix[at - 1] == before[at - 1]@);
            }
            lemma_inserted_at(prefix, row, order, at as int);
            assert(views(rows@).take(i + 1) =~= prefix.take(at as int).push(row) + prefix.skip(
                at as int,
            ));
            assert forall|k: int| i + 1 <= k < n implies #[trigger] rows@[k] == old(rows)@[k] by {
                assert(before.skip(i as int)[k - i] == old(rows)@.skip(i as int)[k - i]);
            }
            assert(rows@.skip(i + 1) =~= old(rows)@.skip(i + 1));
            assert(rows@.to_multiset() =~= before.to_multiset()) by {
                if at < i {
                    let removed = before.remove(i as int);
                    let taken = before[i as int];
                    assert(rows@ =~= removed.insert(at as int, taken));
                    assert(rows@.remove(at as int) =~= removed);
                    assert(rows@[at as int] == taken);
                    assert(before.contains(taken));
                    assert(rows@.contains(taken));
                    assert(removed.to_multiset() == before.to_multiset().remove(taken));
                    assert(removed.to_multiset() == rows@.to_multiset().remove(taken));
                } else {
                    assert(rows@ =~= before);
                }
            }
        }
        i = i + 1;
    }
    proof {
        assert(views(rows@).take(n as int) =~= views(rows@));
        assert(views(old(rows)@).take(n as int) =~= views(old(rows)@));
        lemma_sorted_rows_sorted(views(old(rows)@), order);
    }
    moved
}

} // verus!
