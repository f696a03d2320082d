use anki_tui::anki::{CardInfo, ReviewEntry};
use anki_tui::stats::{
    fmt_days, fmt_local, fmt_revlog_ivl, local_or_unknown, plural, stats_plan, Cell, ReviewKind,
};

fn text(c: Cell) -> String {
    match c {
        Cell::Text(s) => s,
        other => panic!("not text: {}", describe(&other)),
    }
}

fn describe(c: &Cell) -> String {
    match c {
        Cell::Text(s) => format!("Text({s})"),
        Cell::Date(ms, long) => format!("Date({ms},{long})"),
        Cell::Months(d) => format!("Months({d})"),
        Cell::Years(d) => format!("Years({d})"),
        Cell::Hours(s) => format!("Hours({s})"),
        Cell::Duration(ms, v) => format!("Duration({ms},{v})"),
    }
}

#[test]
fn day_intervals() {
    assert_eq!(text(fmt_days(0)), "new");
    assert_eq!(text(fmt_days(-3)), "new");
    assert_eq!(text(fmt_days(1)), "1 day");
    assert_eq!(text(fmt_days(29)), "29 days");
    assert!(matches!(fmt_days(30), Cell::Months(30)));
    assert!(matches!(fmt_days(364), Cell::Months(364)));
    assert!(matches!(fmt_days(365), Cell::Years(365)));
}

#[test]
fn revlog_intervals() {
    assert_eq!(text(fmt_revlog_ivl(-1)), "1 second");
    assert_eq!(text(fmt_revlog_ivl(-59)), "59 seconds");
    assert_eq!(text(fmt_revlog_ivl(-60)), "1 minute");
    assert_eq!(text(fmt_revlog_ivl(-600)), "10 minutes");
    assert!(matches!(fmt_revlog_ivl(-3600), Cell::Hours(3600)));
    assert_eq!(text(fmt_revlog_ivl(3)), "3 days");
    assert_eq!(plural(1), "");
    assert_eq!(plural(0), "s");
}

#[test]
fn review_kinds() {
    assert_eq!(ReviewKind::from_code(0), ReviewKind::Learn);
    assert_eq!(ReviewKind::from_code(1), ReviewKind::Review);
    assert_eq!(ReviewKind::from_code(2), ReviewKind::Relearn);
    assert_eq!(ReviewKind::from_code(3), ReviewKind::Filtered);
    assert_eq!(ReviewKind::from_code(9), ReviewKind::Review);
    assert_eq!(ReviewKind::Relearn.label(), "Relearn");
    assert_eq!(ReviewKind::Filtered.label(), "Filtered");
}

#[test]
fn local_dates_are_formatted() {
    let day = fmt_local(0, false);
    assert_eq!(day.len(), 10);
    assert!(day.starts_with("19"));
    let long = fmt_local(1_700_000_000_000, true);
    assert!(long.contains(" @ "));
    let b = day.as_bytes();
    assert!(b[4] == b'-' && b[7] == b'-' && day.chars().filter(|c| c.is_ascii_digit()).count() == 8);
    let l = long.as_bytes();
    assert_eq!(l.len(), 18);
    assert_eq!(l[15], b':');
    assert_eq!(local_or_unknown(None), "?");
    assert_eq!(local_or_unknown(Some("2024-01-02".to_string())), "2024-01-02");
}

fn info(queue: i64, interval: i64, factor: i64) -> CardInfo {
    CardInfo {
        deck_name: "Deck".to_string(),
        model_name: "Basic".to_string(),
        note: 1000,
        factor,
        interval,
        reps: 3,
        lapses: 1,
        queue,
    }
}

fn entry(id: i64, ivl: i64, time: i64, kind: i64) -> ReviewEntry {
    ReviewEntry { id, ease: 3, ivl, time, kind }
}

#[test]
fn stats_rows_and_history() {
    let reviews = vec![entry(5000, 2, 3000, 1), entry(2000, -600, 1000, 0)];
    let plan = stats_plan(42, info(2, 2, 2500), reviews).expect("fits");
    let labels: Vec<&str> = plan.rows.iter().map(|(l, _)| l.as_str()).collect();
    assert_eq!(
        labels,
        vec![
            "Added", "First Review", "Latest Review", "Due", "Interval", "Ease", "Reviews",
            "Lapses", "Average Time", "Total Time", "Note Type", "Deck", "Card ID", "Note ID"
        ]
    );
    let cells: Vec<String> = plan.rows.iter().map(|(_, c)| describe(c)).collect();
    assert_eq!(cells[0], "Date(1000,false)");
    assert_eq!(cells[1], "Date(2000,false)");
    assert_eq!(cells[2], "Date(5000,false)");
    assert_eq!(cells[3], format!("Date({},false)", 5000 + 2 * 86_400_000));
    assert_eq!(cells[4], "Text(2 days)");
    assert_eq!(cells[5], "Text(250%)");
    assert_eq!(cells[6], "Text(3)");
    assert_eq!(cells[8], "Duration(2000,true)");
    assert_eq!(cells[9], "Duration(4000,true)");
    assert_eq!(cells[12], "Text(42)");
    assert_eq!(cells[13], "Text(1000)");
    // Newest first.
    assert_eq!(plan.history.len(), 2);
    assert_eq!(plan.history[0].at, 5000);
    assert_eq!(plan.history[1].at, 2000);
    assert_eq!(plan.history[1].kind, ReviewKind::Learn);
    assert_eq!(describe(&plan.history[1].interval), "Text(10 minutes)");
}

#[test]
fn stats_without_reviews() {
    let plan = stats_plan(7, info(0, 0, 0), vec![]).expect("fits");
    let labels: Vec<&str> = plan.rows.iter().map(|(l, _)| l.as_str()).collect();
    assert_eq!(
        labels,
        vec!["Added", "Interval", "Reviews", "Lapses", "Note Type", "Deck", "Card ID", "Note ID"]
    );
    assert!(plan.history.is_empty());
}

#[test]
fn stats_average_rounds_toward_zero() {
    let reviews = vec![entry(1, 1, -5, 1), entry(2, 1, 0, 1)];
    let plan = stats_plan(1, info(0, 0, 0), reviews).expect("fits");
    let avg = plan.rows.iter().find(|(l, _)| l == "Average Time").unwrap();
    assert_eq!(describe(&avg.1), "Duration(-2,true)");
}

#[test]
fn stats_overflow_is_refused() {
    let reviews = vec![entry(1, 1, i64::MAX, 1), entry(2, 1, 1, 1)];
    assert!(stats_plan(1, info(0, 0, 0), reviews).is_none());
    let reviews = vec![entry(1, i64::MIN, 1, 1)];
    assert!(stats_plan(1, info(0, 0, 0), reviews).is_none());
    let reviews = vec![entry(1, 1, 1, 1)];
    assert!(stats_plan(1, info(2, i64::MAX / 1000, 0), reviews).is_none());
}
