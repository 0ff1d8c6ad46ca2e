use vstd::prelude::*;

verus! {

/// A table row: it has a surrogate key and can be copied exactly.
pub trait Row: Sized {
    /// The row's surrogate key.
    spec fn row_id(&self) -> i32;

    fn id(&self) -> (id: i32)
        ensures
            id == self.row_id(),
    ;

    fn duplicate(&self) -> (copy: Self)
        ensures
            copy == *self,
    ;
}

/// Copies an optional string.
pub(crate) fn duplicate_text(text: &Option<String>) -> (copy: Option<String>)
    ensures
        copy == *text,
{
    match text {
        Some(s) => Some(s.clone()),
        None => None,
    }
}

/// Whether some row of `rows` has the key `id`.
pub open spec fn has_id<R: Row>(rows: Seq<R>, id: i32) -> bool {
    exists|i: int| 0 <= i < rows.len() && (#[trigger] rows[i]).row_id() == id
}

/// Whether the first row with the key `id` stands at place `at`.
pub open spec fn is_first<R: Row>(rows: Seq<R>, id: i32, at: int) -> bool {
    &&& 0 <= at < rows.len()
    &&& rows[at].row_id() == id
    &&& forall|j: int| 0 <= j < at ==> (#[trigger] rows[j]).row_id() != id
}

/// The place of the first row with the key `id`. Where keys ascend it is
/// the only one.
pub open spec fn index_of<R: Row>(rows: Seq<R>, id: i32) -> int {
    choose|at: int| is_first(rows, id, at)
}

/// Keys grow along the table: rows stand in the order in which they were
/// made, and no key occurs twice.
pub open spec fn ids_ascend<R: Row>(rows: Seq<R>) -> bool {
    forall|i: int, j: int|
        0 <= i < j < rows.len() ==> (#[trigger] rows[i]).row_id() < (#[trigger] rows[j]).row_id()
}

/// Every key is positive and below `next`, the key that the next row gets.
pub open spec fn ids_below<R: Row>(rows: Seq<R>, next: int) -> bool {
    forall|i: int| 0 <= i < rows.len() ==> 1 <= (#[trigger] rows[i]).row_id() < next
}

/// The first row with the key `id`, if there is one.
pub open spec fn lookup<R: Row>(rows: Seq<R>, id: i32) -> Option<R> {
    if has_id(rows, id) {
        Some(rows[index_of(rows, id)])
    } else {
        None
    }
}

/// The table without its first row with the key `id`.
pub open spec fn without<R: Row>(rows: Seq<R>, id: i32) -> Seq<R> {
    if has_id(rows, id) {
        rows.remove(index_of(rows, id))
    } else {
        rows
    }
}

/// The first row with a key is found at one place only.
pub proof fn lemma_first_is_index<R: Row>(rows: Seq<R>, id: i32, at: int)
    requires
        is_first(rows, id, at),
    ensures
        has_id(rows, id),
        index_of(rows, id) == at,
        lookup(rows, id) == Some(rows[at]),
        without(rows, id) == rows.remove(at),
{
    let chosen = index_of(rows, id);
    assert(is_first(rows, id, chosen));
    if chosen < at {
        assert(rows[chosen].row_id() != id);
    } else if at < chosen {
        assert(rows[at].row_id() != id);
    }
}

/// Among the rows up to place `at`, where a row with the key `id` stands,
/// one is the first with that key.
pub proof fn lemma_some_is_first<R: Row>(rows: Seq<R>, id: i32, at: int) -> (first: int)
    requires
        0 <= at < rows.len(),
        rows[at].row_id() == id,
    ensures
        0 <= first <= at,
        is_first(rows, id, first),
    decreases at,
{
    if exists|j: int| 0 <= j < at && (#[trigger] rows[j]).row_id() == id {
        let j = choose|j: int| 0 <= j < at && (#[trigger] rows[j]).row_id() == id;
        lemma_some_is_first(rows, id, j)
    } else {
        at
    }
}

/// Where keys ascend, a row with the key `id` is the first and only one.
pub proof fn lemma_index_of_unique<R: Row>(rows: Seq<R>, id: i32, at: int)
    requires
        ids_ascend(rows),
        0 <= at < rows.len(),
        rows[at].row_id() == id,
    ensures
        is_first(rows, id, at),
        has_id(rows, id),
        index_of(rows, id) == at,
        lookup(rows, id) == Some(rows[at]),
        without(rows, id) == rows.remove(at),
{
    assert forall|j: int| 0 <= j < at implies (#[trigger] rows[j]).row_id() != id by {
        assert(rows[j].row_id() < rows[at].row_id());
    }
    lemma_first_is_index(rows, id, at);
}

/// A row that is found has the key that was asked for, and stands in the table.
pub proof fn lemma_lookup_found<R: Row>(rows: Seq<R>, id: i32)
    requires
        has_id(rows, id),
    ensures
        is_first(rows, id, index_of(rows, id)),
        lookup(rows, id).unwrap().row_id() == id,
        rows.contains(lookup(rows, id).unwrap()),
{
    let some = choose|i: int| 0 <= i < rows.len() && (#[trigger] rows[i]).row_id() == id;
    let first = lemma_some_is_first(rows, id, some);
    lemma_first_is_index(rows, id, first);
}

/// The place of the row with the key `id`, by a scan from the front.
pub(crate) fn position<R: Row>(rows: &Vec<R>, id: i32) -> (place: Option<usize>)
    ensures
        match place {
            Some(at) => is_first(rows@, id, at as int) && lookup(rows@, id) == Some(rows[at as int]),
            None => !has_id(rows@, id) && lookup(rows@, id).is_none(),
        },
{
    let mut i: usize = 0;
    while i < rows.len()
        invariant
            i <= rows.len(),
            forall|j: int| 0 <= j < i ==> (#[trigger] rows[j]).row_id() != id,
        decreases rows.len() - i,
    {
        if rows[i].id() == id {
            proof {
                lemma_first_is_index(rows@, id, i as int);
            }
            return Some(i);
        }
        i += 1;
    }
    None
}

/// A copy of the rows from `start` up to `end`.
pub(crate) fn copy_range<R: Row>(rows: &Vec<R>, start: usize, end: usize) -> (copy: Vec<R>)
    requires
        start <= end <= rows.len(),
    ensures
        copy@ == rows@.subrange(start as int, end as int),
{
    let mut copy: Vec<R> = Vec::new();
    let mut i: usize = start;
    while i < end
        invariant
            start <= i <= end <= rows.len(),
            copy@ == rows@.subrange(start as int, i as int),
        decreases end - i,
    {
        copy.push(rows[i].duplicate());
        assert(rows@.subrange(start as int, i as int).push(rows[i as int]) =~= rows@.subrange(
            start as int,
            i + 1,
        ));
        i += 1;
    }
    copy
}

} // verus!
