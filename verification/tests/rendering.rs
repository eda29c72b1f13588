use shard_placement::{distribute, DotGraph, DumpToJava};

#[test]
fn java_array_of_three_nodes() {
    let m = distribute(3, 3, 10, false).unwrap();
    assert_eq!(
        m.to_java(),
        "new int[][]{\n\tnew int[]{10, 11, 12},\n\tnew int[]{11, 12, 10},\n\tnew int[]{12, 10, 11}\n}\n"
    );
}

#[test]
fn java_array_without_slots() {
    let m = distribute(0, 2, 0, false).unwrap();
    assert_eq!(m.to_java(), "new int[][]{\n\tnew int[]{},\n\tnew int[]{}\n}\n");
}

#[test]
fn table_of_three_nodes() {
    let m = distribute(3, 3, 10, false).unwrap();
    assert_eq!(
        m.table(),
        "** Shard Distribution ::\n  N-0 N-1 N-2 \n1 <10> <11> <12> \n2 [11] [12] [10] \n3 [12] [10] [11] \n     3   3   3  \n"
    );
}

#[test]
fn table_pads_to_the_width_of_the_cell_count() {
    let m = distribute(9, 4, 0, false).unwrap();
    assert_eq!(
        m.table(),
        "** Shard Distribution ::\n   N-00 N-01 N-02 N-03 \n1  < 0> < 1> < 2> < 3> \n2  [ 1] [ 2] [ 3] [ 0] \n3  [ 2] [ 3] [ 0] [ 1] \n4  < 4> < 5> < 6> < 7> \n5  [ 6] [ 7] [ 4] [ 5] \n6  [ 4] [ 5] [ 6] [ 7] \n7  < 8> < 9> <10> <11> \n8  [11] [ 8] [ 9] [10] \n9  [10] [11] [ 8] [ 9] \n      8    8    8    8  \n"
    );
}

#[test]
fn table_shows_negative_shards() {
    let m = distribute(3, 3, -2, false).unwrap();
    assert_eq!(
        m.table(),
        "** Shard Distribution ::\n  N-0 N-1 N-2 \n1 <-2> <-1> <0> \n2 [-1] [0] [-2] \n3 [0] [-2] [-1] \n     3   3   3  \n"
    );
}

#[test]
fn graph_without_failure() {
    let m = distribute(3, 3, 10, false).unwrap();
    assert_eq!(
        m.g(None),
        "digraph G {\n\trankdir=LR;\n\thost0 [shape=none label=<<table><tr><td bgcolor=\"black\"><font color=\"white\">Node-0</font></td></tr>\n<tr><td bgcolor=\"orange\" port=\"g00\">10</td></tr>\n<tr><td bgcolor=\"white\">11</td></tr>\n<tr><td bgcolor=\"white\">12</td></tr>\n<tr><td bgcolor=\"green\">0</td></tr>\n<tr><td bgcolor=\"yellow\">0</td></tr>\n</table>>];\n\thost1 [shape=none label=<<table><tr><td bgcolor=\"black\"><font color=\"white\">Node-1</font></td></tr>\n<tr><td bgcolor=\"orange\" port=\"g10\">11</td></tr>\n<tr><td bgcolor=\"white\">12</td></tr>\n<tr><td bgcolor=\"white\">10</td></tr>\n<tr><td bgcolor=\"green\">0</td></tr>\n<tr><td bgcolor=\"yellow\">0</td></tr>\n</table>>];\n\thost2 [shape=none label=<<table><tr><td bgcolor=\"black\"><font color=\"white\">Node-2</font></td></tr>\n<tr><td bgcolor=\"orange\" port=\"g20\">12</td></tr>\n<tr><td bgcolor=\"white\">10</td></tr>\n<tr><td bgcolor=\"white\">11</td></tr>\n<tr><td bgcolor=\"green\">0</td></tr>\n<tr><td bgcolor=\"yellow\">0</td></tr>\n</table>>];\n\thost0:g00 -> host1:g10 [ label=\"group0\" color=\"black\"];\n\thost1:g10 -> host2:g20 [ color=\"black\" ];\n}\n"
    );
}

#[test]
fn graph_with_failed_node() {
    let m = distribute(3, 3, 10, false).unwrap();
    assert_eq!(
        m.g(Some(1)),
        "digraph G {\n\trankdir=LR;\n\thost0 [shape=none label=<<table><tr><td bgcolor=\"black\"><font color=\"white\">Node-0</font></td></tr>\n<tr><td bgcolor=\"blue\" port=\"g00\">10</td></tr>\n<tr><td bgcolor=\"red\">11</td></tr>\n<tr><td bgcolor=\"blue\">12</td></tr>\n<tr><td bgcolor=\"green\">3</td></tr>\n<tr><td bgcolor=\"yellow\">1</td></tr>\n</table>>];\n\thost1 [shape=none label=<<table><tr><td bgcolor=\"black\"><font color=\"white\">Node-1</font></td></tr>\n<tr><td bgcolor=\"blue\" port=\"g10\">11</td></tr>\n<tr><td bgcolor=\"blue\">12</td></tr>\n<tr><td bgcolor=\"blue\">10</td></tr>\n<tr><td bgcolor=\"green\">3</td></tr>\n<tr><td bgcolor=\"yellow\">0</td></tr>\n</table>>];\n\thost2 [shape=none label=<<table><tr><td bgcolor=\"black\"><font color=\"white\">Node-2</font></td></tr>\n<tr><td bgcolor=\"blue\" port=\"g20\">12</td></tr>\n<tr><td bgcolor=\"blue\">10</td></tr>\n<tr><td bgcolor=\"blue\">11</td></tr>\n<tr><td bgcolor=\"green\">3</td></tr>\n<tr><td bgcolor=\"yellow\">0</td></tr>\n</table>>];\n\thost0:g00 -> host1:g10 [ label=\"group0\" color=\"black\"];\n\thost1:g10 -> host2:g20 [ color=\"black\" ];\n}\n"
    );
}

#[test]
fn graph_alternates_edge_colours() {
    let m = distribute(9, 4, 0, false).unwrap();
    let text = m.g(Some(0));
    assert!(text.contains("\thost0:g00 -> host1:g10 [ label=\"group0\" color=\"black\"];\n"));
    assert!(text.contains("\thost0:g01 -> host1:g11 [ label=\"group1\" color=\"red\"];\n"));
    assert!(text.contains("\thost2:g22 -> host3:g32 [ color=\"black\" ];\n"));
    assert!(text.contains("<tr><td bgcolor=\"red\">0</td></tr>\n"));
    assert!(!text.contains("host3:g32 -> host4"));
}

#[test]
fn rendering_is_deterministic() {
    let a = distribute(51, 18, 0, false).unwrap();
    let b = distribute(51, 18, 0, false).unwrap();
    assert_eq!(a.to_java(), b.to_java());
    assert_eq!(a.table(), b.table());
    assert_eq!(a.g(Some(4)), b.g(Some(4)));
}
