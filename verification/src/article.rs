//! The article record, its partial write-intent payload, and the
//! construction of parameterized query descriptors for each CRUD operation.

use vstd::prelude::*;
use crate::query::{Param, ParamView, QueryDescriptor};
use crate::route::{dec_rep_i64, push_dec};
use vstd::string::StringExecFns;

verus! {

/// A persisted article row. `id` is assigned by the storage engine on
/// insert; `created` is set once at creation and immutable thereafter;
/// `updated` is refreshed on every write.
#[derive(Debug)]
pub struct Article {
    pub id: i64,
    pub text: String,
    pub title: String,
    pub created: String,
    pub updated: String,
}

/// The mathematical value of an article row.
#[verifier::ext_equal]
pub struct ArticleView {
    pub id: int,
    pub text: Seq<char>,
    pub title: Seq<char>,
    pub created: Seq<char>,
    pub updated: Seq<char>,
}

impl View for Article {
    type V = ArticleView;

    open spec fn view(&self) -> ArticleView {
        ArticleView {
            id: self.id as int,
            text: self.text@,
            title: self.title@,
            created: self.created@,
            updated: self.updated@,
        }
    }
}

impl Clone for Article {
    fn clone(&self) -> (r: Self)
        ensures
            r@ == self@,
    {
        Article {
            id: self.id,
            text: self.text.clone(),
            title: self.title.clone(),
            created: self.created.clone(),
            updated: self.updated.clone(),
        }
    }
}

/// A write-intent payload: each field overwrites the stored column when
/// present and leaves it unchanged when absent.
#[derive(Debug)]
pub struct PartialArticle {
    pub text: Option<String>,
    pub title: Option<String>,
}

/// The mathematical value of a write-intent payload.
#[verifier::ext_equal]
pub struct PartialArticleView {
    pub text: Option<Seq<char>>,
    pub title: Option<Seq<char>>,
}

impl View for PartialArticle {
    type V = PartialArticleView;

    open spec fn view(&self) -> PartialArticleView {
        PartialArticleView {
            text: match self.text {
                Some(s) => Some(s@),
                None => None,
            },
            title: match self.title {
                Some(s) => Some(s@),
                None => None,
            },
        }
    }
}

impl Default for PartialArticle {
    /// A payload that requests no field change.
    fn default() -> (r: Self)
        ensures
            r@.text is None,
            r@.title is None,
    {
        PartialArticle { text: None, title: None }
    }
}

impl Clone for PartialArticle {
    fn clone(&self) -> (r: Self)
        ensures
            r@ == self@,
    {
        PartialArticle {
            text: clone_opt_text(&self.text),
            title: clone_opt_text(&self.title),
        }
    }
}

/// Clones an optional text field, preserving presence and contents.
fn clone_opt_text(t: &Option<String>) -> (r: Option<String>)
    ensures
        match *t {
            Some(s) => r matches Some(c) && c@ == s@,
            None => r is None,
        },
{
    match t {
        Some(s) => Some(s.clone()),
        None => None,
    }
}

/// A nullable text parameter carrying this payload field's view.
fn text_param(t: &Option<String>) -> (p: Param)
    ensures
        p@ == (ParamView::OptText(
            match *t {
                Some(s) => Some(s@),
                None => None,
            },
        )),
{
    Param::OptText(clone_opt_text(t))
}

impl PartialArticle {
    /// The partial-update statement for the row with the given id: each
    /// supplied field overwrites its column, an absent field leaves the
    /// stored value in place, and `updated` is refreshed by the engine.
    pub fn update_by_id(&self, id: i64) -> (q: QueryDescriptor)
        ensures
            q@.sql == "UPDATE articles SET text = COALESCE(?, text), title = COALESCE(?, title), updated = DATETIME('now') WHERE id = ?"@,
            q@.params == seq![
                ParamView::OptText(self@.text),
                ParamView::OptText(self@.title),
                ParamView::Int(id as int),
            ],
    {
        let mut params: Vec<Param> = Vec::new();
        params.push(text_param(&self.text));
        params.push(text_param(&self.title));
        params.push(Param::Int(id));
        let q = QueryDescriptor {
            sql: "UPDATE articles SET text = COALESCE(?, text), title = COALESCE(?, title), updated = DATETIME('now') WHERE id = ?".to_owned(),
            params,
        };
        proof {
            assert(q@.params =~= seq![
                ParamView::OptText(self@.text),
                ParamView::OptText(self@.title),
                ParamView::Int(id as int),
            ]);
        }
        q
    }

    /// The insert statement for a new row: binds `text` and `title`
    /// positionally and lets the engine set `created` and `updated` to the
    /// same current timestamp and assign the id.
    pub fn create(&self) -> (q: QueryDescriptor)
        ensures
            q@.sql == "INSERT INTO articles (text, title, created, updated) VALUES (?, ?, DATETIME('now'), DATETIME('now'))"@,
            q@.params == seq![
                ParamView::OptText(self@.text),
                ParamView::OptText(self@.title),
            ],
    {
        let mut params: Vec<Param> = Vec::new();
        params.push(text_param(&self.text));
        params.push(text_param(&self.title));
        let q = QueryDescriptor {
            sql: "INSERT INTO articles (text, title, created, updated) VALUES (?, ?, DATETIME('now'), DATETIME('now'))".to_owned(),
            params,
        };
        proof {
            assert(q@.params =~= seq![
                ParamView::OptText(self@.text),
                ParamView::OptText(self@.title),
            ]);
        }
        q
    }
}

impl Article {
    /// The statement that selects every article row, order unspecified.
    pub fn all() -> (q: QueryDescriptor)
        ensures
            q@.sql == "SELECT * FROM articles"@,
            q@.params == Seq::<ParamView>::empty(),
    {
        let q = QueryDescriptor { sql: "SELECT * FROM articles".to_owned(), params: Vec::new() };
        proof {
            assert(q@.params =~= Seq::<ParamView>::empty());
        }
        q
    }

    /// The statement that reads the id auto-assigned by the most recent
    /// insert on the current connection. Meaningful only on the same
    /// connection as that insert, with no interleaved insert on it.
    pub fn last_id() -> (q: QueryDescriptor)
        ensures
            q@.sql == "SELECT last_insert_rowid()"@,
            q@.params == Seq::<ParamView>::empty(),
    {
        let q = QueryDescriptor { sql: "SELECT last_insert_rowid()".to_owned(), params: Vec::new() };
        proof {
            assert(q@.params =~= Seq::<ParamView>::empty());
        }
        q
    }

    /// The statement that selects the row with exactly the given id;
    /// it yields zero or one row, and absence is not an error.
    pub fn find_by_id(id: i64) -> (q: QueryDescriptor)
        ensures
            q@.sql == "SELECT * FROM articles WHERE id = ?"@,
            q@.params == seq![ParamView::Int(id as int)],
    {
        let mut params: Vec<Param> = Vec::new();
        params.push(Param::Int(id));
        let q = QueryDescriptor { sql: "SELECT * FROM articles WHERE id = ?".to_owned(), params };
        proof {
            assert(q@.params =~= seq![ParamView::Int(id as int)]);
        }
        q
    }

    /// The canonical route of this article, `/articles/{id}`.
    pub fn as_route(&self) -> (r: String)
        ensures
            r@ == "/articles/"@ + dec_rep_i64(self@.id),
    {
        let mut s = String::from_str("/articles/");
        if self.id < 0 {
            s.append("-");
            let mag: u64 = if self.id == i64::MIN {
                9223372036854775808u64
            } else {
                (-self.id) as u64
            };
            proof {
                reveal_strlit("-");
            }
            push_dec(mag, &mut s);
        } else {
            push_dec(self.id as u64, &mut s);
        }
        proof {
            assert(s@ =~= "/articles/"@ + dec_rep_i64(self@.id));
        }
        s
    }

    /// The statement that deletes the row with exactly the given id;
    /// it affects at most one row, and zero when no row matches.
    pub fn delete_by_id(id: i64) -> (q: QueryDescriptor)
        ensures
            q@.sql == "DELETE FROM articles WHERE id = ?"@,
            q@.params == seq![ParamView::Int(id as int)],
    {
        let mut params: Vec<Param> = Vec::new();
        params.push(Param::Int(id));
        let q = QueryDescriptor { sql: "DELETE FROM articles WHERE id = ?".to_owned(), params };
        proof {
            assert(q@.params =~= seq![ParamView::Int(id as int)]);
        }
        q
    }
}

} // verus!
