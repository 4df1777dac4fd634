use dsh_desktop::output::{
    flush_recent_output, reader_step, FlushPlan, ReadResult, ReadStep, RecentOutput,
    OUTPUT_LINES_CAP,
};

#[test]
fn the_latest_lines_are_kept() {
    let mut recent = RecentOutput::new();
    assert!(recent.lines().is_empty());
    for i in 0..205 {
        recent.record_dsh_output(&format!("line {i}"));
    }
    assert_eq!(OUTPUT_LINES_CAP, 200);
    assert_eq!(recent.lines().len(), 200);
    assert_eq!(recent.lines()[0], "line 5");
    assert_eq!(recent.lines()[199], "line 204");
}

#[test]
fn the_lines_are_written_under_a_heading() {
    let lines = vec!["one".to_string(), "".to_string(), "三".to_string()];
    match flush_recent_output(&lines) {
        FlushPlan::Write { text, count } => {
            assert_eq!(count, 3);
            assert_eq!(text, "--- 最近 3 行 DSH 输出 ---\none\n\n三\n");
        }
        other => panic!("{other:?}"),
    }
}

#[test]
fn no_output_is_not_written() {
    assert!(matches!(flush_recent_output(&Vec::new()), FlushPlan::Nothing));
}

#[test]
fn the_reader_stops_at_the_end_and_at_an_error() {
    match reader_step(ReadResult::Line { line: "x".to_string() }) {
        ReadStep::TakeIn { line } => assert_eq!(line, "x"),
        other => panic!("{other:?}"),
    }
    assert!(matches!(reader_step(ReadResult::End), ReadStep::Stop { report: None }));
    match reader_step(ReadResult::Failed { error: "e".to_string() }) {
        ReadStep::Stop { report } => assert_eq!(report.as_deref(), Some("e")),
        other => panic!("{other:?}"),
    }
}
