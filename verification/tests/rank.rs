use funclens::{column_width, rank, table_row, Function};

fn f(lines: usize, name: &str, path: &str) -> Function {
    Function::new(lines, name, path)
}

fn summary(v: &[Function]) -> Vec<(usize, String, String)> {
    v.iter().map(|f| (f.lines, f.name.clone(), f.path.clone())).collect()
}

#[test]
fn longest_first_then_name_then_path() {
    let fs = vec![
        f(17, "main", "src/main.rs"),
        f(32, "extract", "src/scan.rs"),
        f(185, "build_registry", "src/language.rs"),
        f(17, "collect_code_rows", "src/scan.rs"),
        f(21, "functions_in_file", "src/scan.rs"),
        f(17, "main", "src/a.rs"),
    ];
    let shown = rank(&fs, 20);
    assert_eq!(
        summary(&shown),
        vec![
            (185, "build_registry".to_string(), "src/language.rs".to_string()),
            (32, "extract".to_string(), "src/scan.rs".to_string()),
            (21, "functions_in_file".to_string(), "src/scan.rs".to_string()),
            (17, "collect_code_rows".to_string(), "src/scan.rs".to_string()),
            (17, "main".to_string(), "src/a.rs".to_string()),
            (17, "main".to_string(), "src/main.rs".to_string()),
        ]
    );
}

#[test]
fn keeps_only_the_first_n() {
    let fs = vec![f(1, "a", "x"), f(3, "b", "x"), f(2, "c", "x"), f(5, "d", "x")];
    let shown = rank(&fs, 2);
    assert_eq!(summary(&shown), vec![(5, "d".into(), "x".into()), (3, "b".into(), "x".into())]);
    assert_eq!(rank(&fs, 0).len(), 0);
    assert_eq!(rank(&fs, 100).len(), 4);
    assert_eq!(rank(&vec![], 5).len(), 0);
}

#[test]
fn paths_are_ordered_by_components() {
    // As paths, "a/b" (components a, b) sorts before "a-b" ('/' is not a
    // character of a component), though as strings '-' < '/'.
    let fs = vec![f(4, "g", "a-b"), f(4, "g", "a/b")];
    let shown = rank(&fs, 10);
    assert_eq!(shown[0].path, "a/b");
    assert_eq!(shown[1].path, "a-b");
}

#[test]
fn equal_entries_keep_input_order() {
    // "a//b" and "a/b" are the same path.
    let fs = vec![f(4, "g", "a//b"), f(4, "g", "a/b")];
    let shown = rank(&fs, 10);
    assert_eq!(shown[0].path, "a//b");
    assert_eq!(shown[1].path, "a/b");
    let fs = vec![f(4, "g", "a/b"), f(4, "g", "a//b")];
    let shown = rank(&fs, 10);
    assert_eq!(shown[0].path, "a/b");
}

#[test]
fn a_larger_ranking_is_sorted() {
    let mut fs = Vec::new();
    for i in 0..200usize {
        fs.push(f((i * 37) % 23, &format!("n{}", (i * 11) % 7), &format!("p{}", i % 5)));
    }
    let shown = rank(&fs, 1000);
    assert_eq!(shown.len(), 200);
    for w in shown.windows(2) {
        let (a, b) = (&w[0], &w[1]);
        assert!(a.lines > b.lines || (a.lines == b.lines && (a.name < b.name || (a.name == b.name && a.path <= b.path))));
    }
}

#[test]
fn table_rows_right_align_the_counts() {
    let fs = vec![
        f(185, "build_registry", "src/language.rs"),
        f(32, "extract", "src/scan.rs"),
        f(17, "main", "src/main.rs"),
    ];
    let width = column_width(&fs);
    assert_eq!(width, 3);
    let rows: Vec<String> = fs.iter().map(|f| table_row(f, width)).collect();
    assert_eq!(rows[0], "185 build_registry src/language.rs");
    assert_eq!(rows[1], " 32 extract src/scan.rs");
    assert_eq!(rows[2], " 17 main src/main.rs");
    for f in &fs {
        assert_eq!(table_row(f, width), format!("{:>width$} {} {}", f.lines, f.name, f.path));
    }
}

#[test]
fn column_width_edge_cases() {
    assert_eq!(column_width(&vec![]), 0);
    assert_eq!(column_width(&vec![f(0, "z", "p")]), 1);
    assert_eq!(column_width(&vec![f(9, "a", "p"), f(10, "b", "p")]), 2);
    assert_eq!(column_width(&vec![f(1000000, "a", "p")]), 7);
    assert_eq!(table_row(&f(5, "a", "p"), 0), "5 a p");
    assert_eq!(funclens::table::decimal_string(usize::MAX), usize::MAX.to_string());
    assert_eq!(funclens::table::decimal_string(0), "0");
}
