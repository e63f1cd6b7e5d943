use shi::error::ShiError;
use shi::link::to_base32;
use shi::select::begin_selection;
use shi::select::SelectionController;
use shi::select::SelectionOutcome;
use shi::store::History;

fn entry(id: usize, command: &str) -> History {
    History {
        id,
        command: command.to_string(),
        time: "2024-01-01 00:00:00".to_string(),
        path: "/".to_string(),
    }
}

/// Three rows as a query returns them: most recent (highest id) first.
fn three_rows_descending() -> Vec<History> {
    vec![entry(12, "newest"), entry(11, "middle"), entry(10, "oldest")]
}

fn configured() -> SelectionController {
    SelectionController::new(Some("wl-copy".to_string()))
}

#[test]
fn ranks_count_down_from_the_oldest_row() {
    let ranked = begin_selection(three_rows_descending());
    assert_eq!(ranked.len(), 3);
    assert_eq!(ranked[0].entry.id, 10);
    assert_eq!(ranked[0].link, "3");
    assert_eq!(ranked[1].entry.id, 11);
    assert_eq!(ranked[1].link, "2");
    assert_eq!(ranked[2].entry.id, 12);
    assert_eq!(ranked[2].link, "1");
}

#[test]
fn rank_one_selects_the_most_recent_row() {
    let ranked = begin_selection(three_rows_descending());
    let outcome = configured().resolve_selection(&to_base32(1), &ranked);
    match outcome {
        SelectionOutcome::Copied(command) => assert_eq!(command, "newest"),
        _ => panic!("rank 1 must copy the most recent command"),
    }
}

#[test]
fn each_rank_selects_its_row() {
    let ranked = begin_selection(three_rows_descending());
    let controller = configured();
    let expected = [(1, "newest"), (2, "middle"), (3, "oldest")];
    for (rank, command) in expected {
        match controller.resolve_selection(&to_base32(rank), &ranked) {
            SelectionOutcome::Copied(copied) => assert_eq!(copied, command),
            _ => panic!("an in-range rank must copy"),
        }
    }
}

#[test]
fn out_of_range_rank_selects_nothing() {
    let ranked = begin_selection(three_rows_descending());
    let controller = configured();
    assert!(matches!(
        controller.resolve_selection("4", &ranked),
        SelectionOutcome::NoMatch
    ));
    assert!(matches!(
        controller.resolve_selection("0", &ranked),
        SelectionOutcome::NoMatch
    ));
    assert!(matches!(
        controller.resolve_selection("zzz", &ranked),
        SelectionOutcome::NoMatch
    ));
}

#[test]
fn empty_input_aborts_with_no_copy() {
    let ranked = begin_selection(three_rows_descending());
    let controller = configured();
    assert!(matches!(
        controller.resolve_selection("", &ranked),
        SelectionOutcome::Aborted(ShiError::Input)
    ));
    assert!(matches!(
        controller.resolve_selection("   \t ", &ranked),
        SelectionOutcome::Aborted(ShiError::Input)
    ));
}

#[test]
fn malformed_token_aborts_as_a_parse_error() {
    let ranked = begin_selection(three_rows_descending());
    let controller = configured();
    assert!(matches!(
        controller.resolve_selection("not a link", &ranked),
        SelectionOutcome::Aborted(ShiError::ParseInt)
    ));
    assert!(matches!(
        controller.resolve_selection("!?", &ranked),
        SelectionOutcome::Aborted(ShiError::ParseInt)
    ));
}

#[test]
fn surrounding_whitespace_is_trimmed_before_decoding() {
    let ranked = begin_selection(three_rows_descending());
    let controller = configured();
    match controller.resolve_selection("  2 \n", &ranked) {
        SelectionOutcome::Copied(command) => assert_eq!(command, "middle"),
        _ => panic!("a padded token must still resolve"),
    }
}

#[test]
fn without_a_copy_program_a_hit_only_hints() {
    let ranked = begin_selection(three_rows_descending());
    let controller = SelectionController::new(None);
    match controller.resolve_selection("1", &ranked) {
        SelectionOutcome::CopySkipped(hint) => assert!(hint.contains("SHI_CLIP")),
        _ => panic!("without configuration nothing may be copied"),
    }
}

#[test]
fn selection_over_an_empty_result_set_never_copies() {
    let ranked = begin_selection(Vec::new());
    assert!(ranked.is_empty());
    let controller = configured();
    assert!(matches!(
        controller.resolve_selection("1", &ranked),
        SelectionOutcome::NoMatch
    ));
}

#[test]
fn error_messages_name_each_failure() {
    assert_eq!(ShiError::ParseInt.message(), "Cannot parse input as link.");
    assert_eq!(ShiError::Input.message(), "Exit.");
    assert_eq!(ShiError::Copy.message(), "Cannot connect to the clipboard.");
    assert_eq!(ShiError::Db("no such table".to_string()).message(), "no such table");
    assert_eq!(ShiError::Io("broken pipe".to_string()).message(), "broken pipe");
}
