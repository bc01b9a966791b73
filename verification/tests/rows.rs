use funclens::rows::{count_code_rows, physical_lines, FlatNode};

fn node(kind: &'static str, start_row: usize, end_row: usize, depth: usize) -> FlatNode {
    FlatNode { comment: kind.contains("comment"), start_row, end_row, depth }
}

#[test]
fn one_line_function_counts_one() {
    assert_eq!(physical_lines(7, 7), 1);
    assert_eq!(physical_lines(0, 4), 5);
    assert_eq!(physical_lines(10, 194), 185);
}

#[test]
fn comment_only_and_blank_rows_drop_out() {
    // fn b() {        row 0
    //     // c        row 1
    //     let x = 1;  row 2
    //                 row 3
    // }               row 4
    let nodes = vec![
        node("function_item", 0, 4, 0),
        node("fn", 0, 0, 1),
        node("identifier", 0, 0, 1),
        node("parameters", 0, 0, 1),
        node("(", 0, 0, 2),
        node(")", 0, 0, 2),
        node("block", 0, 4, 1),
        node("{", 0, 0, 2),
        node("line_comment", 1, 1, 2),
        node("let_declaration", 2, 2, 2),
        node("let", 2, 2, 3),
        node("identifier", 2, 2, 3),
        node("=", 2, 2, 3),
        node("integer_literal", 2, 2, 3),
        node(";", 2, 2, 3),
        node("}", 4, 4, 2),
    ];
    assert_eq!(count_code_rows(&nodes), 3);
}

#[test]
fn brace_only_rows_remain() {
    let nodes = vec![
        node("block", 0, 2, 0),
        node("{", 0, 0, 1),
        node("}", 2, 2, 1),
    ];
    assert_eq!(count_code_rows(&nodes), 2);
}

#[test]
fn extra_nodes_and_their_subtrees_are_skipped() {
    let mut doc = node("doc", 1, 3, 1);
    doc.comment = true;
    let nodes = vec![
        node("function", 0, 4, 0),
        node("kw", 0, 0, 1),
        doc,
        node("word", 2, 2, 2),
        node("word", 3, 3, 2),
        node("end", 4, 4, 1),
    ];
    assert_eq!(count_code_rows(&nodes), 2);
}

#[test]
fn comment_kinds_hide_their_subtrees() {
    let nodes = vec![
        node("function", 0, 5, 0),
        node("block_comment", 1, 3, 1),
        node("text", 2, 2, 2),
        node("deeper", 3, 3, 3),
        node("stmt", 4, 4, 1),
        node("tok", 4, 4, 2),
        node("tok", 5, 5, 1),
    ];
    assert_eq!(count_code_rows(&nodes), 2);
}

#[test]
fn multi_row_tokens_count_every_row() {
    let nodes = vec![node("function", 0, 6, 0), node("string_literal", 1, 4, 1), node("}", 6, 6, 1)];
    assert_eq!(count_code_rows(&nodes), 5);
}

#[test]
fn a_leaf_definition_counts_its_own_rows() {
    assert_eq!(count_code_rows(&vec![node("x", 3, 4, 0)]), 2);
    let mut comment = node("comment", 3, 4, 0);
    comment.comment = true;
    assert_eq!(count_code_rows(&vec![comment]), 0);
    assert_eq!(count_code_rows(&vec![]), 0);
}
