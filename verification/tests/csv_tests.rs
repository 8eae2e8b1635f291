use skytab_cli::csv::{csv_line, escape_csv_cell, render_records_csv};

fn unescape(cell: &str) -> String {
    if cell.len() >= 2 && cell.starts_with('"') && cell.ends_with('"') {
        cell[1..cell.len() - 1].replace("\"\"", "\"")
    } else {
        cell.to_string()
    }
}

#[test]
fn cells_are_quoted_only_when_needed() {
    assert_eq!(escape_csv_cell("plain"), "plain");
    assert_eq!(escape_csv_cell("a,b"), "\"a,b\"");
    assert_eq!(escape_csv_cell("say \"hi\""), "\"say \"\"hi\"\"\"");
    assert_eq!(escape_csv_cell("two\nlines"), "\"two\nlines\"");
    assert_eq!(escape_csv_cell("cr\r"), "\"cr\r\"");
    assert_eq!(escape_csv_cell(""), "");
}

#[test]
fn escaping_round_trips() {
    for cell in ["plain", "a,b", "\"", "\"\"x\"", "", "q\"q", "\n", "é,ü"] {
        assert_eq!(unescape(&escape_csv_cell(cell)), cell);
    }
}

#[test]
fn lines_and_records() {
    assert_eq!(
        csv_line(&vec!["a".to_string(), "b,c".to_string(), "".to_string()]),
        "a,\"b,c\","
    );
    let rows = vec![
        vec!["1".to_string(), "x".to_string()],
        vec!["2".to_string(), "y\"".to_string()],
    ];
    assert_eq!(render_records_csv(&["id", "v"], &rows), "id,v\n1,x\n2,\"y\"\"\"");
    assert_eq!(render_records_csv(&["id"], &Vec::new()), "id");
}
