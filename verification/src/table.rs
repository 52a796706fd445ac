//! A verified model of the article table: the effect each CRUD statement
//! built by this crate is expected to have on the stored rows.
//!
//! The model mirrors the engine's semantics — engine-assigned ids, a
//! caller-supplied timestamp standing for the engine's clock, partial
//! updates that keep absent fields, and absence reported as `None` rather
//! than an error — so those semantics can be stated and proved.

use vstd::prelude::*;
use crate::article::{Article, ArticleView, PartialArticle, PartialArticleView};

verus! {

/// The mathematical state of the table: its rows in storage order, the
/// next id the engine will assign, and the id assigned by the most recent
/// insert (zero before any insert).
#[verifier::ext_equal]
pub struct TableModel {
    pub rows: Seq<ArticleView>,
    pub next_id: int,
    pub last_insert: int,
}

impl TableModel {
    /// Ids are engine-assigned: positive, below the next free id, and
    /// unique across rows.
    pub open spec fn wf(self) -> bool {
        &&& 1 <= self.next_id
        &&& 0 <= self.last_insert < self.next_id
        &&& forall|i: int|
            0 <= i < self.rows.len() ==> 1 <= (#[trigger] self.rows[i]).id < self.next_id
        &&& forall|i: int, j: int|
            0 <= i < j < self.rows.len() ==> (#[trigger] self.rows[i]).id != (#[trigger] self.rows[j]).id
    }
}

/// The supplied value when present, the stored one otherwise.
pub open spec fn or_keep(o: Option<Seq<char>>, cur: Seq<char>) -> Seq<char> {
    match o {
        Some(s) => s,
        None => cur,
    }
}

/// The supplied value when present, the empty string otherwise.
pub open spec fn or_empty(o: Option<Seq<char>>) -> Seq<char> {
    or_keep(o, Seq::empty())
}

/// One row after a partial update: supplied fields overwritten, absent
/// fields kept, `updated` stamped with the clock value, id and `created`
/// untouched.
pub open spec fn spec_updated_row(r: ArticleView, p: PartialArticleView, now: Seq<char>) -> ArticleView {
    ArticleView {
        id: r.id,
        text: or_keep(p.text, r.text),
        title: or_keep(p.title, r.title),
        created: r.created,
        updated: now,
    }
}

/// The rows after a partial update of the row with the given id.
pub open spec fn spec_update_rows(
    rows: Seq<ArticleView>,
    p: PartialArticleView,
    id: int,
    now: Seq<char>,
) -> Seq<ArticleView> {
    rows.map_values(|r: ArticleView| (if r.id == id { spec_updated_row(r, p, now) } else { r }))
}

/// A freshly inserted row: both timestamps carry the same clock value.
pub open spec fn spec_new_row(p: PartialArticleView, now: Seq<char>, id: int) -> ArticleView {
    ArticleView {
        id: id,
        text: or_empty(p.text),
        title: or_empty(p.title),
        created: now,
        updated: now,
    }
}

/// The table after an insert: the new row appended, the next id advanced,
/// and the assigned id recorded for the last-insert-id lookup.
pub open spec fn spec_create(m: TableModel, p: PartialArticleView, now: Seq<char>) -> TableModel {
    TableModel {
        rows: m.rows.push(spec_new_row(p, now, m.next_id)),
        next_id: m.next_id + 1,
        last_insert: m.next_id,
    }
}

/// The predicate a row must meet to survive a delete of the given id.
pub open spec fn keeps(id: int) -> spec_fn(ArticleView) -> bool {
    |r: ArticleView| r.id != id
}

/// The rows after deleting the row with the given id, in unchanged order.
pub open spec fn spec_delete_rows(rows: Seq<ArticleView>, id: int) -> Seq<ArticleView> {
    rows.filter(keeps(id))
}

/// A delete keeps the surviving ids engine-assigned: still within the
/// range the engine has handed out, and still pairwise distinct.
proof fn lemma_delete_rows_ids(rows: Seq<ArticleView>, id: int, bound: int)
    requires
        forall|i: int| 0 <= i < rows.len() ==> 1 <= (#[trigger] rows[i]).id < bound,
        forall|i: int, j: int|
            0 <= i < j < rows.len() ==> (#[trigger] rows[i]).id != (#[trigger] rows[j]).id,
    ensures
        spec_delete_rows(rows, id).len() <= rows.len(),
        forall|i: int|
            0 <= i < spec_delete_rows(rows, id).len() ==> 1 <= (#[trigger] spec_delete_rows(
                rows,
                id,
            )[i]).id < bound,
        forall|i: int, j: int|
            0 <= i < j < spec_delete_rows(rows, id).len() ==> (#[trigger] spec_delete_rows(
                rows,
                id,
            )[i]).id != (#[trigger] spec_delete_rows(rows, id)[j]).id,
    decreases rows.len(),
{
    reveal(Seq::filter);
    if rows.len() > 0 {
        let pre = rows.drop_last();
        let last = rows.last();
        assert(forall|i: int| 0 <= i < pre.len() ==> #[trigger] pre[i] == rows[i]);
        lemma_delete_rows_ids(pre, id, bound);
        let f = spec_delete_rows(pre, id);
        if keeps(id)(last) {
            assert(spec_delete_rows(rows, id) == f.push(last));
            assert forall|k: int| 0 <= k < f.len() implies (#[trigger] f[k]).id != last.id by {
                assert(f.contains(f[k]));
                pre.lemma_filter_contains_rev(keeps(id), f[k]);
                let m = choose|m: int| 0 <= m < pre.len() && pre[m] == f[k];
                assert(rows[m].id != rows[rows.len() - 1].id);
            }
        } else {
            assert(spec_delete_rows(rows, id) == f);
        }
    }
}

/// The first row carrying the given id, if any.
pub open spec fn spec_find(rows: Seq<ArticleView>, id: int) -> Option<ArticleView>
    decreases rows.len(),
{
    if rows.len() == 0 {
        None
    } else if rows[0].id == id {
        Some(rows[0])
    } else {
        spec_find(rows.skip(1), id)
    }
}

/// The views of stored rows, in storage order.
pub open spec fn rows_view(rows: Seq<Article>) -> Seq<ArticleView> {
    rows.map_values(|a: Article| a@)
}

/// Appending a row appends its view.
proof fn lemma_rows_view_push(rows: Seq<Article>, c: Article)
    ensures
        rows_view(rows.push(c)) == rows_view(rows).push(c@),
{
    assert(rows_view(rows).len() == rows.len());
    assert(rows_view(rows.push(c)).len() == rows.len() + 1);
    assert forall|k: int| 0 <= k < rows.len() + 1 implies
        rows_view(rows.push(c))[k] == rows_view(rows).push(c@)[k] by {
        assert(rows_view(rows.push(c))[k] == rows.push(c)[k]@);
    }
    assert(rows_view(rows.push(c)) =~~= rows_view(rows).push(c@));
}

/// An in-memory article table with the engine's observable behaviour.
#[derive(Debug)]
pub struct ArticleTable {
    pub rows: Vec<Article>,
    pub next_id: i64,
    pub last_insert: i64,
}

impl View for ArticleTable {
    type V = TableModel;

    open spec fn view(&self) -> TableModel {
        TableModel {
            rows: rows_view(self.rows@),
            next_id: self.next_id as int,
            last_insert: self.last_insert as int,
        }
    }
}

impl ArticleTable {
    /// An empty table; the first insert will be assigned id 1.
    pub fn new() -> (t: ArticleTable)
        ensures
            t@.rows == Seq::<ArticleView>::empty(),
            t@.next_id == 1,
            t@.last_insert == 0,
            t@.wf(),
    {
        let t = ArticleTable { rows: Vec::new(), next_id: 1, last_insert: 0 };
        proof {
            assert(t@.rows =~= Seq::<ArticleView>::empty());
        }
        t
    }

    /// Inserts a new row built from the payload, with both timestamps set
    /// to the supplied clock value, and returns the engine-assigned id.
    pub fn create(&mut self, p: &PartialArticle, now: &str) -> (id: i64)
        requires
            old(self)@.wf(),
            old(self)@.next_id < i64::MAX,
        ensures
            id as int == old(self)@.next_id,
            final(self)@ == spec_create(old(self)@, p@, now@),
            final(self)@.wf(),
    {
        let id = self.next_id;
        let row = Article {
            id,
            text: match &p.text {
                Some(s) => s.clone(),
                None => String::new(),
            },
            title: match &p.title {
                Some(s) => s.clone(),
                None => String::new(),
            },
            created: now.to_owned(),
            updated: now.to_owned(),
        };
        proof {
            assert(row@ == spec_new_row(p@, now@, old(self)@.next_id));
        }
        self.rows.push(row);
        self.next_id = self.next_id + 1;
        self.last_insert = id;
        proof {
            assert(final(self)@.rows =~= spec_create(old(self)@, p@, now@).rows);
            assert(final(self)@ == spec_create(old(self)@, p@, now@));
        }
        id
    }

    /// Returns every row, in storage order.
    pub fn all(&self) -> (r: Vec<Article>)
        ensures
            rows_view(r@) == self@.rows,
    {
        let mut out: Vec<Article> = Vec::new();
        let mut i: usize = 0;
        while i < self.rows.len()
            invariant
                i <= self.rows@.len(),
                rows_view(out@) =~~= self@.rows.take(i as int),
            decreases self.rows@.len() - i,
        {
            let ghost pre = out@;
            let c = self.rows[i].clone();
            let ghost gc = c;
            out.push(c);
            i = i + 1;
            proof {
                lemma_rows_view_push(pre, gc);
                assert(self@.rows.take(i as int - 1).push(gc@) =~= self@.rows.take(i as int));
            }
        }
        proof {
            assert(self@.rows.take(self.rows@.len() as int) =~= self@.rows);
        }
        out
    }

    /// The id assigned by the most recent insert on this table.
    pub fn last_id(&self) -> (r: i64)
        ensures
            r as int == self@.last_insert,
    {
        self.last_insert
    }

    /// Returns the row with the given id, or `None` — not an error — when
    /// no row carries it.
    pub fn find_by_id(&self, id: i64) -> (r: Option<Article>)
        ensures
            match r {
                Some(a) => spec_find(self@.rows, id as int) == Some(a@),
                None => spec_find(self@.rows, id as int) is None,
            },
    {
        proof {
            assert(self@.rows.skip(0) =~= self@.rows);
        }
        let mut i: usize = 0;
        while i < self.rows.len()
            invariant
                i <= self.rows@.len(),
                spec_find(self@.rows, id as int) == spec_find(self@.rows.skip(i as int), id as int),
            decreases self.rows@.len() - i,
        {
            if self.rows[i].id == id {
                proof {
                    assert(self@.rows.skip(i as int)[0] == self@.rows[i as int]);
                }
                return Some(self.rows[i].clone());
            }
            proof {
                assert(self@.rows.skip(i as int)[0] == self@.rows[i as int]);
                assert(self@.rows.skip(i as int).skip(1) =~= self@.rows.skip(i as int + 1));
            }
            i = i + 1;
        }
        proof {
            assert(self@.rows.skip(i as int).len() == 0);
        }
        None
    }

    /// Applies a partial update to the row with the given id: supplied
    /// fields overwrite their columns, absent fields keep the stored
    /// value, `updated` takes the supplied clock value, and id and
    /// `created` never change. Returns the number of rows affected:
    /// one when the id is present, zero when it is not.
    pub fn update_by_id(&mut self, p: &PartialArticle, id: i64, now: &str) -> (n: usize)
        requires
            old(self)@.wf(),
        ensures
            final(self)@.rows == spec_update_rows(old(self)@.rows, p@, id as int, now@),
            final(self)@.next_id == old(self)@.next_id,
            final(self)@.last_insert == old(self)@.last_insert,
            final(self)@.wf(),
            n <= 1,
            n == 1 <==> exists|i: int|
                0 <= i < old(self)@.rows.len() && (#[trigger] old(self)@.rows[i]).id == id as int,
    {
        let ghost target = spec_update_rows(self@.rows, p@, id as int, now@);
        let mut out: Vec<Article> = Vec::new();
        let mut n: usize = 0;
        let mut i: usize = 0;
        while i < self.rows.len()
            invariant
                i <= self.rows@.len(),
                self@.wf(),
                target == spec_update_rows(self@.rows, p@, id as int, now@),
                rows_view(out@) =~~= target.take(i as int),
                n <= 1,
                n == 1 <==> exists|j: int|
                    0 <= j < i && (#[trigger] self@.rows[j]).id == id as int,
            decreases self.rows@.len() - i,
        {
            let row = &self.rows[i];
            proof {
                assert(self@.rows[i as int] == self.rows@[i as int]@);
            }
            let c: Article = if row.id == id {
                proof {
                    if exists|j: int| 0 <= j < i && (#[trigger] self@.rows[j]).id == id as int {
                        let j = choose|j: int|
                            0 <= j < i && (#[trigger] self@.rows[j]).id == id as int;
                        assert(self@.rows[j].id == self@.rows[i as int].id);
                        assert(false);
                    }
                }
                n = 1;
                Article {
                    id: row.id,
                    text: match &p.text {
                        Some(s) => s.clone(),
                        None => row.text.clone(),
                    },
                    title: match &p.title {
                        Some(s) => s.clone(),
                        None => row.title.clone(),
                    },
                    created: row.created.clone(),
                    updated: now.to_owned(),
                }
            } else {
                row.clone()
            };
            let ghost pre = out@;
            let ghost gc = c;
            proof {
                assert(gc@ == target[i as int]);
            }
            out.push(c);
            i = i + 1;
            proof {
                lemma_rows_view_push(pre, gc);
                assert(target.take(i as int - 1).push(target[i as int - 1]) =~= target.take(
                    i as int,
                ));
            }
        }
        proof {
            assert(target.take(self.rows@.len() as int) =~= target);
        }
        self.rows = out;
        proof {
            assert(final(self)@.rows == target);
            assert forall|i: int| 0 <= i < final(self)@.rows.len() implies (#[trigger] final(self)@.rows[i]).id == old(self)@.rows[i].id by {
                assert(target[i] == (if old(self)@.rows[i].id == id as int { spec_updated_row(old(self)@.rows[i], p@, now@) } else { old(self)@.rows[i] }));
            }
        }
        n
    }

    /// Deletes the row with the given id, leaving the other rows in their
    /// order. Returns the number of rows affected: one when the id is
    /// present, zero — with the table unchanged and no error — when not.
    pub fn delete_by_id(&mut self, id: i64) -> (n: usize)
        requires
            old(self)@.wf(),
        ensures
            final(self)@.rows == spec_delete_rows(old(self)@.rows, id as int),
            final(self)@.next_id == old(self)@.next_id,
            final(self)@.last_insert == old(self)@.last_insert,
            final(self)@.wf(),
            n as int == old(self)@.rows.len() - final(self)@.rows.len(),
            n <= 1,
            n == 1 <==> exists|i: int|
                0 <= i < old(self)@.rows.len() && (#[trigger] old(self)@.rows[i]).id == id as int,
    {
        let mut out: Vec<Article> = Vec::new();
        let mut n: usize = 0;
        let mut i: usize = 0;
        while i < self.rows.len()
            invariant
                i <= self.rows@.len(),
                self@.wf(),
                rows_view(out@) =~~= self@.rows.take(i as int).filter(keeps(id as int)),
                n as int == i - out@.len(),
                n <= 1,
                n == 1 <==> exists|j: int|
                    0 <= j < i && (#[trigger] self@.rows[j]).id == id as int,
            decreases self.rows@.len() - i,
        {
            let row = &self.rows[i];
            proof {
                assert(self@.rows[i as int] == self.rows@[i as int]@);
            }
            if row.id == id {
                proof {
                    if exists|j: int| 0 <= j < i && (#[trigger] self@.rows[j]).id == id as int {
                        let j = choose|j: int|
                            0 <= j < i && (#[trigger] self@.rows[j]).id == id as int;
                        assert(self@.rows[j].id == self@.rows[i as int].id);
                        assert(false);
                    }
                }
                n = 1;
                proof {
                    let t1 = self@.rows.take(i as int + 1);
                    assert(t1.drop_last() =~= self@.rows.take(i as int));
                    assert(t1.last() == self@.rows[i as int]);
                    reveal(Seq::filter);
                    assert(rows_view(out@) =~~= t1.filter(keeps(id as int)));
                }
            } else {
                let c = row.clone();
                let ghost pre = out@;
                let ghost gc = c;
                out.push(c);
                proof {
                    lemma_rows_view_push(pre, gc);
                    let t1 = self@.rows.take(i as int + 1);
                    assert(t1.drop_last() =~= self@.rows.take(i as int));
                    assert(t1.last() == self@.rows[i as int]);
                    reveal(Seq::filter);
                    assert(rows_view(out@) =~~= t1.filter(keeps(id as int)));
                }
            }
            i = i + 1;
        }
        proof {
            assert(self@.rows.take(self@.rows.len() as int) =~= self@.rows);
        }
        self.rows = out;
        proof {
            assert(final(self)@.rows == spec_delete_rows(old(self)@.rows, id as int));
            lemma_delete_rows_ids(old(self)@.rows, id as int, old(self)@.next_id);
        }
        n
    }
}


} // verus!
