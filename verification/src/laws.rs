//! Guarantees that relate several operations of the article table, stated
//! over the table model and proved once for every input.

use vstd::prelude::*;
use crate::article::{ArticleView, PartialArticleView};
use crate::table::{
    spec_create, spec_delete_rows, spec_find, spec_new_row, spec_update_rows, keeps, TableModel,
};

verus! {

/// Lexicographic order on timestamp strings; ISO-8601 timestamps in one
/// format compare chronologically this way.
pub open spec fn str_le(a: Seq<char>, b: Seq<char>) -> bool
    decreases a.len(),
{
    if a.len() == 0 {
        true
    } else if b.len() == 0 {
        false
    } else if a[0] == b[0] {
        str_le(a.skip(1), b.skip(1))
    } else {
        (a[0] as u32) < (b[0] as u32)
    }
}

/// An update whose payload carries only `text` changes no row's `title`,
/// no id and no `created`; the matched row's `updated` takes the supplied
/// clock value, so it moves no earlier whenever the clock does not.
pub proof fn lemma_update_text_only(
    rows: Seq<ArticleView>,
    p: PartialArticleView,
    id: int,
    now: Seq<char>,
)
    requires
        p.title is None,
    ensures
        spec_update_rows(rows, p, id, now).len() == rows.len(),
        forall|i: int|
            0 <= i < rows.len() ==> (#[trigger] spec_update_rows(rows, p, id, now)[i]).title
                == rows[i].title,
        forall|i: int|
            0 <= i < rows.len() ==> (#[trigger] spec_update_rows(rows, p, id, now)[i]).id
                == rows[i].id,
        forall|i: int|
            0 <= i < rows.len() ==> (#[trigger] spec_update_rows(rows, p, id, now)[i]).created
                == rows[i].created,
        forall|i: int|
            0 <= i < rows.len() && rows[i].id == id ==> (#[trigger] spec_update_rows(
                rows,
                p,
                id,
                now,
            )[i]).updated == now,
        forall|i: int|
            0 <= i < rows.len() && rows[i].id == id && str_le(rows[i].updated, now) ==> str_le(
                rows[i].updated,
                (#[trigger] spec_update_rows(rows, p, id, now)[i]).updated,
            ),
{
}

/// An update whose payload carries neither field changes only the matched
/// row's `updated`, which takes the supplied clock value; every other
/// field of every row stays as stored.
pub proof fn lemma_update_empty_payload(
    rows: Seq<ArticleView>,
    p: PartialArticleView,
    id: int,
    now: Seq<char>,
)
    requires
        p.text is None,
        p.title is None,
    ensures
        spec_update_rows(rows, p, id, now).len() == rows.len(),
        forall|i: int|
            0 <= i < rows.len() && rows[i].id != id ==> #[trigger] spec_update_rows(
                rows,
                p,
                id,
                now,
            )[i] == rows[i],
        forall|i: int|
            0 <= i < rows.len() && rows[i].id == id ==> #[trigger] spec_update_rows(
                rows,
                p,
                id,
                now,
            )[i] == (ArticleView { updated: now, ..rows[i] }),
{
}

/// Deleting an id that no row carries affects zero rows and is no error:
/// the rows come out exactly as they were.
pub proof fn lemma_delete_absent(rows: Seq<ArticleView>, id: int)
    requires
        forall|i: int| 0 <= i < rows.len() ==> (#[trigger] rows[i]).id != id,
    ensures
        spec_delete_rows(rows, id) == rows,
    decreases rows.len(),
{
    reveal(Seq::filter);
    if rows.len() > 0 {
        let pre = rows.drop_last();
        assert(forall|i: int| 0 <= i < pre.len() ==> #[trigger] pre[i] == rows[i]);
        lemma_delete_absent(pre, id);
        assert(keeps(id)(rows.last()));
        assert(spec_delete_rows(rows, id) == pre.push(rows.last()));
        assert(pre.push(rows.last()) =~= rows);
    }
}

/// Finding an id that no row carries yields an absent result, not an
/// error.
pub proof fn lemma_find_absent(rows: Seq<ArticleView>, id: int)
    requires
        forall|i: int| 0 <= i < rows.len() ==> (#[trigger] rows[i]).id != id,
    ensures
        spec_find(rows, id) is None,
    decreases rows.len(),
{
    if rows.len() > 0 {
        let rest = rows.skip(1);
        assert(forall|i: int| 0 <= i < rest.len() ==> #[trigger] rest[i] == rows[i + 1]);
        lemma_find_absent(rest, id);
    }
}

/// An id is findable exactly when some row carries it, and the row found
/// carries that id and is one of the stored rows.
pub proof fn lemma_find_exists(rows: Seq<ArticleView>, id: int)
    ensures
        (spec_find(rows, id) is Some) <==> exists|i: int|
            0 <= i < rows.len() && (#[trigger] rows[i]).id == id,
        spec_find(rows, id) matches Some(r) ==> r.id == id && rows.contains(r),
    decreases rows.len(),
{
    if rows.len() > 0 {
        if rows[0].id == id {
            assert(rows[0].id == id);
        } else {
            let rest = rows.skip(1);
            assert(forall|i: int| 0 <= i < rest.len() ==> #[trigger] rest[i] == rows[i + 1]);
            lemma_find_exists(rest, id);
            if spec_find(rows, id) is Some {
                let k = choose|k: int| 0 <= k < rest.len() && (#[trigger] rest[k]).id == id;
                assert(rows[k + 1].id == id);
                let r = spec_find(rows, id)->Some_0;
                let m = choose|m: int| 0 <= m < rest.len() && rest[m] == r;
                assert(rows[m + 1] == r);
            } else {
                if exists|i: int| 0 <= i < rows.len() && (#[trigger] rows[i]).id == id {
                    let k = choose|k: int| 0 <= k < rows.len() && (#[trigger] rows[k]).id == id;
                    assert(rest[k - 1].id == id);
                    assert(false);
                }
            }
        }
    }
}

/// Appending a row whose id no other row carries makes that id findable,
/// and it resolves to exactly that row.
proof fn lemma_find_push_fresh(rows: Seq<ArticleView>, r: ArticleView)
    requires
        forall|i: int| 0 <= i < rows.len() ==> (#[trigger] rows[i]).id != r.id,
    ensures
        spec_find(rows.push(r), r.id) == Some(r),
    decreases rows.len(),
{
    let s = rows.push(r);
    if rows.len() == 0 {
        assert(s[0] == r);
    } else {
        assert(s[0] == rows[0]);
        let rest = rows.skip(1);
        assert(forall|i: int| 0 <= i < rest.len() ==> #[trigger] rest[i] == rows[i + 1]);
        assert(s.skip(1) =~= rest.push(r));
        lemma_find_push_fresh(rest, r);
    }
}

/// Round trip: after an insert into a well-formed table, the id reported
/// by the last-insert-id lookup finds a row holding exactly the submitted
/// fields, whose `created` equals its `updated`.
pub proof fn lemma_create_then_find(m: TableModel, p: PartialArticleView, now: Seq<char>)
    requires
        m.wf(),
    ensures
        spec_create(m, p, now).last_insert == m.next_id,
        spec_find(spec_create(m, p, now).rows, spec_create(m, p, now).last_insert) == Some(
            spec_new_row(p, now, m.next_id),
        ),
        spec_new_row(p, now, m.next_id).created == spec_new_row(p, now, m.next_id).updated,
{
    lemma_find_push_fresh(m.rows, spec_new_row(p, now, m.next_id));
}

/// A run of inserts: each entry pairs a payload with the clock value the
/// engine reads for it.
pub open spec fn spec_create_all(
    m: TableModel,
    ps: Seq<(PartialArticleView, Seq<char>)>,
) -> TableModel
    decreases ps.len(),
{
    if ps.len() == 0 {
        m
    } else {
        spec_create_all(spec_create(m, ps[0].0, ps[0].1), ps.skip(1))
    }
}

/// Listing after a run of inserts yields exactly one row per insert on
/// top of what was already stored.
pub proof fn lemma_list_after_creates(m: TableModel, ps: Seq<(PartialArticleView, Seq<char>)>)
    ensures
        spec_create_all(m, ps).rows.len() == m.rows.len() + ps.len(),
    decreases ps.len(),
{
    if ps.len() > 0 {
        lemma_list_after_creates(spec_create(m, ps[0].0, ps[0].1), ps.skip(1));
    }
}

} // verus!
