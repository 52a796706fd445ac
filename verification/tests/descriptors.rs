use article_repo::{Article, Param, PartialArticle};

#[test]
fn update_descriptor_sql_and_params() {
    let p = PartialArticle { text: Some("body".to_string()), title: None };
    let q = p.update_by_id(7);
    assert_eq!(
        q.sql,
        "UPDATE articles SET text = COALESCE(?, text), title = COALESCE(?, title), updated = DATETIME('now') WHERE id = ?"
    );
    assert_eq!(q.params.len(), 3);
    match &q.params[0] {
        Param::OptText(Some(s)) => assert_eq!(s, "body"),
        other => panic!("unexpected text parameter: {:?}", other),
    }
    match &q.params[1] {
        Param::OptText(None) => {}
        other => panic!("unexpected title parameter: {:?}", other),
    }
    match &q.params[2] {
        Param::Int(i) => assert_eq!(*i, 7),
        other => panic!("unexpected id parameter: {:?}", other),
    }
}

#[test]
fn create_descriptor_sql_and_params() {
    let p = PartialArticle {
        text: Some("hello".to_string()),
        title: Some("hi".to_string()),
    };
    let q = p.create();
    assert_eq!(
        q.sql,
        "INSERT INTO articles (text, title, created, updated) VALUES (?, ?, DATETIME('now'), DATETIME('now'))"
    );
    assert_eq!(q.params.len(), 2);
    match &q.params[0] {
        Param::OptText(Some(s)) => assert_eq!(s, "hello"),
        other => panic!("unexpected text parameter: {:?}", other),
    }
    match &q.params[1] {
        Param::OptText(Some(s)) => assert_eq!(s, "hi"),
        other => panic!("unexpected title parameter: {:?}", other),
    }
}

#[test]
fn all_descriptor_has_no_params() {
    let q = Article::all();
    assert_eq!(q.sql, "SELECT * FROM articles");
    assert!(q.params.is_empty());
}

#[test]
fn last_id_descriptor_has_no_params() {
    let q = Article::last_id();
    assert_eq!(q.sql, "SELECT last_insert_rowid()");
    assert!(q.params.is_empty());
}

#[test]
fn find_descriptor_binds_id() {
    let q = Article::find_by_id(42);
    assert_eq!(q.sql, "SELECT * FROM articles WHERE id = ?");
    assert_eq!(q.params.len(), 1);
    match &q.params[0] {
        Param::Int(i) => assert_eq!(*i, 42),
        other => panic!("unexpected id parameter: {:?}", other),
    }
}

#[test]
fn delete_descriptor_binds_id() {
    let q = Article::delete_by_id(-3);
    assert_eq!(q.sql, "DELETE FROM articles WHERE id = ?");
    assert_eq!(q.params.len(), 1);
    match &q.params[0] {
        Param::Int(i) => assert_eq!(*i, -3),
        other => panic!("unexpected id parameter: {:?}", other),
    }
}

#[test]
fn default_payload_requests_no_change() {
    let p = PartialArticle::default();
    assert!(p.text.is_none());
    assert!(p.title.is_none());
}

#[test]
fn as_route_positive_and_negative_ids() {
    let a = Article {
        id: 7,
        text: String::new(),
        title: String::new(),
        created: String::new(),
        updated: String::new(),
    };
    assert_eq!(a.as_route(), "/articles/7");
    let b = Article { id: 1203, ..a };
    assert_eq!(b.as_route(), "/articles/1203");
    let c = Article { id: -45, ..b };
    assert_eq!(c.as_route(), "/articles/-45");
    let d = Article { id: 0, ..c };
    assert_eq!(d.as_route(), "/articles/0");
    let e = Article { id: i64::MIN, ..d };
    assert_eq!(e.as_route(), "/articles/-9223372036854775808");
}
