//! The descriptors run against a real SQLite engine, in memory.

use article_repo::{Article, Param, PartialArticle, QueryDescriptor};
use sqlx::{Connection, Row, SqliteConnection};

fn to_query(
    d: QueryDescriptor,
) -> sqlx::query::Query<'static, sqlx::Sqlite, sqlx::sqlite::SqliteArguments> {
    let mut q = sqlx::query(sqlx::AssertSqlSafe(d.sql));
    for p in d.params {
        q = match p {
            Param::Int(i) => q.bind(i),
            Param::OptText(t) => q.bind(t),
        };
    }
    q
}

fn block_on<F: std::future::Future>(f: F) -> F::Output {
    tokio::runtime::Builder::new_current_thread()
        .enable_all()
        .build()
        .unwrap()
        .block_on(f)
}

async fn setup() -> SqliteConnection {
    let mut conn = SqliteConnection::connect("sqlite::memory:").await.unwrap();
    sqlx::raw_sql(
        "CREATE TABLE articles (id INTEGER PRIMARY KEY AUTOINCREMENT, \
         text TEXT, title TEXT, created TEXT, updated TEXT)",
    )
    .execute(&mut conn)
    .await
    .unwrap();
    conn
}

fn payload(text: Option<&str>, title: Option<&str>) -> PartialArticle {
    PartialArticle {
        text: text.map(|s| s.to_string()),
        title: title.map(|s| s.to_string()),
    }
}

#[test]
fn engine_create_then_find_round_trip() {
    block_on(async {
        let mut conn = setup().await;
        let p = payload(Some("hello"), Some("hi"));
        to_query(p.create()).execute(&mut conn).await.unwrap();
        let row = to_query(Article::last_id()).fetch_one(&mut conn).await.unwrap();
        let id: i64 = row.get(0);
        let found = to_query(Article::find_by_id(id))
            .fetch_optional(&mut conn)
            .await
            .unwrap()
            .expect("created row must be found");
        let text: String = found.get("text");
        let title: String = found.get("title");
        let created: String = found.get("created");
        let updated: String = found.get("updated");
        assert_eq!(text, "hello");
        assert_eq!(title, "hi");
        assert_eq!(created, updated);
    });
}

#[test]
fn engine_update_text_only_keeps_title() {
    block_on(async {
        let mut conn = setup().await;
        to_query(payload(Some("old"), Some("title")).create())
            .execute(&mut conn)
            .await
            .unwrap();
        let row = to_query(Article::last_id()).fetch_one(&mut conn).await.unwrap();
        let id: i64 = row.get(0);
        let res = to_query(payload(Some("new"), None).update_by_id(id))
            .execute(&mut conn)
            .await
            .unwrap();
        assert_eq!(res.rows_affected(), 1);
        let found = to_query(Article::find_by_id(id))
            .fetch_one(&mut conn)
            .await
            .unwrap();
        let text: String = found.get("text");
        let title: String = found.get("title");
        let created: String = found.get("created");
        let updated: String = found.get("updated");
        assert_eq!(text, "new");
        assert_eq!(title, "title");
        assert!(created <= updated);
    });
}

#[test]
fn engine_delete_nonexistent_id_affects_zero_rows() {
    block_on(async {
        let mut conn = setup().await;
        let res = to_query(Article::delete_by_id(12345))
            .execute(&mut conn)
            .await
            .expect("deleting an absent id must not error");
        assert_eq!(res.rows_affected(), 0);
    });
}

#[test]
fn engine_find_nonexistent_id_is_absent_not_error() {
    block_on(async {
        let mut conn = setup().await;
        let found = to_query(Article::find_by_id(7))
            .fetch_optional(&mut conn)
            .await
            .expect("finding an absent id must not error");
        assert!(found.is_none());
    });
}

#[test]
fn engine_listing_after_n_creates_returns_n_rows() {
    block_on(async {
        let mut conn = setup().await;
        for k in 0..4 {
            let body = format!("body {}", k);
            to_query(payload(Some(&body), None).create())
                .execute(&mut conn)
                .await
                .unwrap();
        }
        let rows = to_query(Article::all()).fetch_all(&mut conn).await.unwrap();
        assert_eq!(rows.len(), 4);
    });
}
