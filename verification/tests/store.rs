use shi::query::delete;
use shi::query::insert;
use shi::query::query;
use shi::query::QueryShape;
use shi::store::History;
use shi::store::HistoryStore;

fn entry(id: usize, command: &str, path: &str) -> History {
    History {
        id,
        command: command.to_string(),
        time: "2024-01-01 00:00:00".to_string(),
        path: path.to_string(),
    }
}

fn fill(store: &mut HistoryStore, commands: &[(&str, &str)]) -> Vec<usize> {
    commands
        .iter()
        .map(|(command, path)| {
            insert(
                store,
                command.to_string(),
                "2024-01-01 00:00:00".to_string(),
                path.to_string(),
            )
            .unwrap()
        })
        .collect()
}

#[test]
fn empty_store_insert_then_query_all() {
    let mut store = HistoryStore::new();
    assert_eq!(store.len(), 0);
    let id = insert(
        &mut store,
        "echo hi".to_string(),
        "2024-01-01 00:00:00".to_string(),
        "/home/u".to_string(),
    )
    .unwrap();
    assert_eq!(id, 1);
    let rows = query(&store, &QueryShape::All).unwrap();
    assert_eq!(rows.len(), 1);
    assert_eq!(rows[0].id, 1);
    assert_eq!(rows[0].command, "echo hi");
    assert_eq!(rows[0].path, "/home/u");
}

#[test]
fn append_ids_grow_and_recent_returns_newest_first() {
    let mut store = HistoryStore::new();
    let ids = fill(&mut store, &[("ls -la", "/tmp"), ("pwd", "/tmp")]);
    assert!(ids[1] > ids[0]);
    let rows = query(&store, &QueryShape::Recent(Some(2))).unwrap();
    assert_eq!(rows.len(), 2);
    assert_eq!(rows[0].command, "pwd");
    assert_eq!(rows[1].command, "ls -la");
    assert!(rows[0].id > rows[1].id);
}

#[test]
fn recent_zero_is_empty_and_limit_is_never_exceeded() {
    let mut store = HistoryStore::new();
    fill(&mut store, &[("a", "/"), ("b", "/"), ("c", "/"), ("d", "/")]);
    let none = query(&store, &QueryShape::Recent(Some(0))).unwrap();
    assert!(none.is_empty());
    let two = query(&store, &QueryShape::Recent(Some(2))).unwrap();
    assert_eq!(two.len(), 2);
    assert_eq!(two[0].command, "d");
    assert_eq!(two[1].command, "c");
    let plenty = query(&store, &QueryShape::Recent(Some(100))).unwrap();
    assert_eq!(plenty.len(), 4);
}

#[test]
fn unspecified_limit_defaults_to_fifty() {
    let mut store = HistoryStore::new();
    for i in 0..60 {
        insert(
            &mut store,
            format!("command {}", i),
            "2024-01-01 00:00:00".to_string(),
            "/".to_string(),
        )
        .unwrap();
    }
    let rows = query(&store, &QueryShape::Recent(None)).unwrap();
    assert_eq!(rows.len(), 50);
    assert_eq!(rows[0].command, "command 59");
    assert_eq!(rows[49].command, "command 10");
}

#[test]
fn filter_by_command_is_case_sensitive_substring() {
    let mut store = HistoryStore::new();
    fill(
        &mut store,
        &[
            ("git status", "/repo"),
            ("cargo build", "/repo"),
            ("git push", "/repo"),
            ("GIT LOG", "/repo"),
        ],
    );
    let rows = query(&store, &QueryShape::ByCommand("git".to_string(), None)).unwrap();
    assert_eq!(rows.len(), 2);
    assert_eq!(rows[0].command, "git push");
    assert_eq!(rows[1].command, "git status");
    let all = query(&store, &QueryShape::ByCommand("".to_string(), None)).unwrap();
    assert_eq!(all.len(), 4);
}

#[test]
fn filter_by_path_respects_limit() {
    let mut store = HistoryStore::new();
    fill(
        &mut store,
        &[
            ("a", "/home/u/work"),
            ("b", "/tmp"),
            ("c", "/home/u"),
            ("d", "/home/u/play"),
        ],
    );
    let rows = query(&store, &QueryShape::ByPath("/home/u".to_string(), Some(2))).unwrap();
    assert_eq!(rows.len(), 2);
    assert_eq!(rows[0].command, "d");
    assert_eq!(rows[1].command, "c");
}

#[test]
fn quotes_in_command_and_path_are_matched_verbatim() {
    let mut store = HistoryStore::new();
    fill(
        &mut store,
        &[
            ("echo 'it''s fine'", "/od'd path"),
            ("echo plain", "/plain"),
        ],
    );
    let rows = query(&store, &QueryShape::ByCommand("'it''s".to_string(), None)).unwrap();
    assert_eq!(rows.len(), 1);
    assert_eq!(rows[0].command, "echo 'it''s fine'");
    let by_path = query(&store, &QueryShape::ByPath("d'd".to_string(), None)).unwrap();
    assert_eq!(by_path.len(), 1);
    assert_eq!(by_path[0].command, "echo 'it''s fine'");
    let none = query(&store, &QueryShape::ByCommand("\"".to_string(), None)).unwrap();
    assert!(none.is_empty());
}

#[test]
fn delete_missing_id_is_a_no_op() {
    let mut store = HistoryStore::new();
    fill(&mut store, &[("a", "/"), ("b", "/")]);
    let report = delete(&mut store, &vec![99]);
    assert_eq!(report, vec![(99, false)]);
    let rows = query(&store, &QueryShape::All).unwrap();
    assert_eq!(rows.len(), 2);
    assert_eq!(rows[0].command, "b");
    assert_eq!(rows[1].command, "a");
}

#[test]
fn delete_existing_id_removes_exactly_that_row() {
    let mut store = HistoryStore::new();
    let ids = fill(&mut store, &[("a", "/"), ("b", "/"), ("c", "/")]);
    let report = delete(&mut store, &vec![ids[1]]);
    assert_eq!(report, vec![(ids[1], true)]);
    let rows = query(&store, &QueryShape::All).unwrap();
    assert_eq!(rows.len(), 2);
    assert_eq!(rows[0].command, "c");
    assert_eq!(rows[1].command, "a");
    let again = delete(&mut store, &vec![ids[1]]);
    assert_eq!(again, vec![(ids[1], false)]);
    assert_eq!(store.len(), 2);
}

#[test]
fn delete_reports_each_requested_id_in_order() {
    let mut store = HistoryStore::new();
    let ids = fill(&mut store, &[("a", "/"), ("b", "/")]);
    let report = delete(&mut store, &vec![ids[0], 77, ids[1], ids[0]]);
    assert_eq!(
        report,
        vec![(ids[0], true), (77, false), (ids[1], true), (ids[0], false)]
    );
    assert_eq!(store.len(), 0);
}

#[test]
fn clear_drops_everything_and_restarts_ids() {
    let mut store = HistoryStore::new();
    fill(&mut store, &[("a", "/"), ("b", "/")]);
    shi::query::clear(&mut store).unwrap();
    assert_eq!(store.len(), 0);
    let id = insert(
        &mut store,
        "fresh".to_string(),
        "2024-01-01 00:00:00".to_string(),
        "/".to_string(),
    )
    .unwrap();
    assert_eq!(id, 1);
}

#[test]
fn from_rows_accepts_ascending_rows_and_continues_ids() {
    let rows = vec![entry(10, "a", "/"), entry(11, "b", "/"), entry(12, "c", "/")];
    let mut store = HistoryStore::from_rows(rows).unwrap();
    let id = insert(
        &mut store,
        "d".to_string(),
        "2024-01-01 00:00:00".to_string(),
        "/".to_string(),
    )
    .unwrap();
    assert_eq!(id, 13);
    let recent = query(&store, &QueryShape::Recent(Some(2))).unwrap();
    assert_eq!(recent[0].command, "d");
    assert_eq!(recent[1].command, "c");
}

#[test]
fn from_rows_rejects_unordered_or_zero_ids() {
    assert!(HistoryStore::from_rows(vec![entry(2, "a", "/"), entry(1, "b", "/")]).is_none());
    assert!(HistoryStore::from_rows(vec![entry(3, "a", "/"), entry(3, "b", "/")]).is_none());
    assert!(HistoryStore::from_rows(vec![entry(0, "a", "/")]).is_none());
    assert!(HistoryStore::from_rows(vec![entry(usize::MAX, "a", "/")]).is_none());
    assert!(HistoryStore::from_rows(Vec::new()).is_some());
}

#[test]
fn history_new_is_the_empty_entry() {
    let h = History::new();
    assert_eq!(h.id, 0);
    assert_eq!(h.command, "");
    assert_eq!(h.time, "");
    assert_eq!(h.path, "");
}
