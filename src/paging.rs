use vstd::prelude::*;

verus! {

/// A table row with a numeric key (the primary key, or the owner's key for
/// rows that belong to one).
pub trait Row: Sized {
    spec fn row_id(&self) -> u64;

    fn id_of(&self) -> (r: u64)
        ensures
            r == self.row_id(),
    ;

    fn duplicate(&self) -> (r: Self)
        ensures
            r == *self,
    ;
}

/// First index of the window that `offset` rows are skipped to.
pub open spec fn window_start(len: int, offset: int) -> int {
    if offset < len {
        offset
    } else {
        len
    }
}

/// At most `limit` rows of `s`, after the first `offset` rows.
pub open spec fn page<T>(s: Seq<T>, limit: int, offset: int) -> Seq<T> {
    let start = window_start(s.len() as int, offset);
    let end = if start + limit < s.len() {
        start + limit
    } else {
        s.len() as int
    };
    s.subrange(start, end)
}

/// The rows of `s` whose key differs from `id`, in their order.
pub open spec fn without_id<T: Row>(s: Seq<T>, id: u64) -> Seq<T>
    decreases s.len(),
{
    if s.len() == 0 {
        s
    } else {
        let rest = without_id(s.drop_last(), id);
        if s.last().row_id() == id {
            rest
        } else {
            rest.push(s.last())
        }
    }
}

/// Copies the window of at most `limit` rows that starts after `offset` rows.
pub fn page_of<T: Row>(rows: &Vec<T>, limit: i64, offset: i64) -> (r: Vec<T>)
    requires
        limit >= 0,
        offset >= 0,
    ensures
        r@ == page(rows@, limit as int, offset as int),
{
    let len = rows.len();
    let start: usize = if (offset as u64) < (len as u64) {
        offset as usize
    } else {
        len
    };
    let end: usize = if (limit as u64) < ((len - start) as u64) {
        start + limit as usize
    } else {
        len
    };
    let mut out: Vec<T> = Vec::new();
    let mut i: usize = start;
    while i < end
        invariant
            start <= i <= end <= len == rows@.len(),
            out@ == rows@.subrange(start as int, i as int),
        decreases end - i,
    {
        out.push(rows[i].duplicate());
        i = i + 1;
        assert(out@ =~= rows@.subrange(start as int, i as int));
    }
    out
}

/// Copies every row.
pub fn copy_all<T: Row>(rows: &Vec<T>) -> (r: Vec<T>)
    ensures
        r@ == rows@,
{
    let mut out: Vec<T> = Vec::new();
    let mut i: usize = 0;
    while i < rows.len()
        invariant
            i <= rows@.len(),
            out@ == rows@.take(i as int),
        decreases rows@.len() - i,
    {
        out.push(rows[i].duplicate());
        i = i + 1;
        assert(out@ =~= rows@.take(i as int));
    }
    assert(rows@.take(i as int) =~= rows@);
    out
}

/// Removes every row whose key is `id`; returns how many were removed.
pub fn delete_by_id<T: Row>(rows: &mut Vec<T>, id: u64) -> (n: usize)
    ensures
        final(rows)@ == without_id(old(rows)@, id),
        n == old(rows)@.len() - final(rows)@.len(),
{
    let mut kept: Vec<T> = Vec::new();
    let mut i: usize = 0;
    while i < rows.len()
        invariant
            i <= rows@.len(),
            kept@ == without_id(rows@.take(i as int), id),
            kept@.len() <= i,
        decreases rows@.len() - i,
    {
        assert(rows@.take(i as int + 1).drop_last() =~= rows@.take(i as int));
        if rows[i].id_of() != id {
            kept.push(rows[i].duplicate());
        }
        i = i + 1;
    }
    assert(rows@.take(i as int) =~= rows@);
    let n = rows.len() - kept.len();
    *rows = kept;
    n
}

/// Every row left by a delete is a row of `s`.
pub proof fn lemma_without_id_from<T: Row>(s: Seq<T>, id: u64)
    ensures
        forall|k: int| 0 <= k < without_id(s, id).len() ==> s.contains(#[trigger] without_id(s, id)[k]),
    decreases s.len(),
{
    if s.len() > 0 {
        let prev = without_id(s.drop_last(), id);
        lemma_without_id_from(s.drop_last(), id);
        assert forall|k: int| 0 <= k < without_id(s, id).len() implies s.contains(
            #[trigger] without_id(s, id)[k],
        ) by {
            if k < prev.len() {
                assert(without_id(s, id)[k] == prev[k]);
                let j = choose|j: int| 0 <= j < s.drop_last().len() && s.drop_last()[j] == prev[k];
                assert(s[j] == s.drop_last()[j]);
            } else {
                assert(s[s.len() - 1] == s.last());
            }
        }
    }
}

/// A delete keeps keys in strictly ascending order.
pub proof fn lemma_without_id_ascending<T: Row>(s: Seq<T>, id: u64)
    requires
        forall|i: int, j: int| 0 <= i < j < s.len() ==> s[i].row_id() < s[j].row_id(),
    ensures
        forall|i: int, j: int|
            0 <= i < j < without_id(s, id).len() ==> without_id(s, id)[i].row_id() < without_id(
                s,
                id,
            )[j].row_id(),
    decreases s.len(),
{
    if s.len() > 0 {
        let d = s.drop_last();
        assert forall|i: int, j: int| 0 <= i < j < d.len() implies d[i].row_id() < d[j].row_id() by {
            assert(d[i] == s[i] && d[j] == s[j]);
        }
        lemma_without_id_ascending(d, id);
        lemma_without_id_from(d, id);
        let prev = without_id(d, id);
        let w = without_id(s, id);
        assert forall|i: int, j: int| 0 <= i < j < w.len() implies w[i].row_id() < w[j].row_id() by {
            if j < prev.len() {
                assert(w[i] == prev[i] && w[j] == prev[j]);
            } else {
                assert(w[i] == prev[i]);
                assert(d.contains(prev[i]));
                let m = choose|m: int| 0 <= m < d.len() && d[m] == prev[i];
                assert(s[m] == d[m]);
                assert(w[j] == s[s.len() - 1]);
            }
        }
    }
}

/// Deleting a key that no row holds removes nothing.
pub proof fn lemma_delete_absent<T: Row>(s: Seq<T>, id: u64)
    requires
        forall|k: int| 0 <= k < s.len() ==> #[trigger] s[k].row_id() != id,
    ensures
        without_id(s, id) == s,
    decreases s.len(),
{
    if s.len() > 0 {
        lemma_delete_absent(s.drop_last(), id);
        assert(s.drop_last().push(s.last()) =~= s);
    }
}

/// A page never holds more than `limit` rows, and its k-th row is the row
/// `offset + k` of the whole sequence.
pub proof fn lemma_page_window<T>(s: Seq<T>, limit: int, offset: int)
    requires
        limit >= 0,
        offset >= 0,
    ensures
        page(s, limit, offset).len() <= limit,
        page(s, limit, offset).len() == if offset >= s.len() {
            0
        } else if offset + limit <= s.len() {
            limit
        } else {
            s.len() - offset
        },
        forall|k: int|
            0 <= k < page(s, limit, offset).len() ==> #[trigger] page(s, limit, offset)[k] == s[offset
                + k],
{
}

} // verus!
