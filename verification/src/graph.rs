//! The placement, and the outcome of a failure, as a graph description in
//! the DOT language: one record per node, and per group a chain of edges
//! from each node to the next.

use vstd::prelude::*;
use vstd::string::StringExecFns;
use crate::failover::{cell_mark, mark_cells, CellMark};
use crate::matrix::Matrix;
use crate::text::{decimal, digits, push_decimal, push_digits};

verus! {

/// What the failure, if there is one, does to the cell of `node` in `slot`.
pub open spec fn mark_of(grid: Seq<Seq<i64>>, fail: Option<usize>, node: int, slot: int) -> CellMark {
    match fail {
        Some(failed) => cell_mark(grid, failed as int, node, slot),
        None => CellMark::Unaffected,
    }
}

/// Colour of a cell: red where it takes over as leader, blue where it is
/// otherwise affected, else orange in a leader's slot and white in a
/// follower's.
pub open spec fn cell_colour(mark: CellMark, slot: int) -> Seq<char> {
    match mark {
        CellMark::Promoted => "red"@,
        CellMark::Affected => "blue"@,
        CellMark::Unaffected => if slot % 3 == 0 {
            "orange"@
        } else {
            "white"@
        },
    }
}

/// Name of the port of a node at the leader's slot of a group.
pub open spec fn port(node: int, group: int) -> Seq<char> {
    "g"@ + digits(node as nat) + digits(group as nat)
}

/// The table row of one cell; a leader's slot carries the port of its group.
pub open spec fn cell_line(mark: CellMark, node: int, slot: int, shard: int) -> Seq<char> {
    if slot % 3 == 0 {
        "<tr><td bgcolor=\""@ + cell_colour(mark, slot) + "\" port=\""@ + port(node, slot / 3)
            + "\">"@ + decimal(shard) + "</td></tr>\n"@
    } else {
        "<tr><td bgcolor=\""@ + cell_colour(mark, slot) + "\">"@ + decimal(shard)
            + "</td></tr>\n"@
    }
}

/// The table rows of the first `upto` slots of a node.
pub open spec fn cell_lines(grid: Seq<Seq<i64>>, fail: Option<usize>, node: int, upto: int) -> Seq<
    char,
>
    decreases upto,
{
    if upto <= 0 {
        Seq::empty()
    } else {
        cell_lines(grid, fail, node, upto - 1) + cell_line(
            mark_of(grid, fail, node, upto - 1),
            node,
            upto - 1,
            grid[node][upto - 1] as int,
        )
    }
}

/// How many of the first `upto` slots of a node store a lost shard.
pub open spec fn affected_upto(grid: Seq<Seq<i64>>, fail: Option<usize>, node: int, upto: int) -> nat
    decreases upto,
{
    if upto <= 0 {
        0
    } else {
        affected_upto(grid, fail, node, upto - 1) + if mark_of(grid, fail, node, upto - 1)
            != CellMark::Unaffected {
            1nat
        } else {
            0nat
        }
    }
}

/// How many of the first `upto` slots of a node take over as leader.
pub open spec fn promoted_upto(grid: Seq<Seq<i64>>, fail: Option<usize>, node: int, upto: int) -> nat
    decreases upto,
{
    if upto <= 0 {
        0
    } else {
        promoted_upto(grid, fail, node, upto - 1) + if mark_of(grid, fail, node, upto - 1)
            == CellMark::Promoted {
            1nat
        } else {
            0nat
        }
    }
}

/// The opening of a node's record.
pub open spec fn block_head(node: int) -> Seq<char> {
    "\thost"@ + digits(node as nat)
        + " [shape=none label=<<table><tr><td bgcolor=\"black\"><font color=\"white\">Node-"@
        + digits(node as nat) + "</font></td></tr>\n"@
}

/// The closing of a node's record: how many of its cells are affected, and
/// how many take over as leader.
pub open spec fn block_foot(affected: nat, promoted: nat) -> Seq<char> {
    "<tr><td bgcolor=\"green\">"@ + digits(affected) + "</td></tr>\n"@
        + "<tr><td bgcolor=\"yellow\">"@ + digits(promoted) + "</td></tr>\n"@ + "</table>>];\n"@
}

/// The record of one node.
pub open spec fn node_block(grid: Seq<Seq<i64>>, fail: Option<usize>, node: int, slots: int) -> Seq<
    char,
> {
    block_head(node) + cell_lines(grid, fail, node, slots) + block_foot(
        affected_upto(grid, fail, node, slots),
        promoted_upto(grid, fail, node, slots),
    )
}

/// The records of the first `upto` nodes.
pub open spec fn node_blocks(grid: Seq<Seq<i64>>, fail: Option<usize>, upto: int, slots: int) -> Seq<
    char,
>
    decreases upto,
{
    if upto <= 0 {
        Seq::empty()
    } else {
        node_blocks(grid, fail, upto - 1, slots) + node_block(grid, fail, upto - 1, slots)
    }
}

/// Colour of the edges of a group: black for even groups, red for odd ones.
pub open spec fn edge_colour(group: int) -> Seq<char> {
    if group % 2 == 0 {
        "black"@
    } else {
        "red"@
    }
}

/// One end of an edge: the port of a node at the leader's slot of a group.
pub open spec fn edge_end(node: int, group: int) -> Seq<char> {
    "host"@ + digits(node as nat) + ":"@ + port(node, group)
}

/// The attributes of an edge; the first edge of a chain carries the group's label.
pub open spec fn edge_attributes(node: int, group: int) -> Seq<char> {
    if node == 0 {
        " [ label=\"group"@ + digits(group as nat) + "\" color=\""@ + edge_colour(group)
            + "\"];\n"@
    } else {
        " [ color=\""@ + edge_colour(group) + "\" ];\n"@
    }
}

/// The edge of a group from a node to the next.
pub open spec fn edge_line(node: int, group: int) -> Seq<char> {
    "\t"@ + edge_end(node, group) + " -> "@ + edge_end(node + 1, group) + edge_attributes(
        node,
        group,
    )
}

/// The edges of a group that leave the first `upto` nodes.
pub open spec fn group_edges(group: int, upto: int) -> Seq<char>
    decreases upto,
{
    if upto <= 0 {
        Seq::empty()
    } else {
        group_edges(group, upto - 1) + edge_line(upto - 1, group)
    }
}

/// The chains of the first `upto` groups over `nodes` nodes.
pub open spec fn edges(upto: int, nodes: int) -> Seq<char>
    decreases upto,
{
    if upto <= 0 {
        Seq::empty()
    } else {
        edges(upto - 1, nodes) + group_edges(upto - 1, nodes - 1)
    }
}

/// The whole graph description.
pub open spec fn dot_text(grid: Seq<Seq<i64>>, fail: Option<usize>, slots: int) -> Seq<char> {
    "digraph G {\n"@ + "\trankdir=LR;\n"@ + node_blocks(grid, fail, grid.len() as int, slots)
        + edges(slots / 3, grid.len() as int) + "}\n"@
}

/// The colour of a cell.
fn colour_str(mark: CellMark, slot: usize) -> (s: &'static str)
    ensures
        s@ == cell_colour(mark, slot as int),
{
    match mark {
        CellMark::Promoted => "red",
        CellMark::Affected => "blue",
        CellMark::Unaffected => if slot % 3 == 0 {
            "orange"
        } else {
            "white"
        },
    }
}

/// Appends the name of a port.
fn push_port(out: &mut String, node: usize, group: usize)
    ensures
        final(out)@ == old(out)@ + port(node as int, group as int),
{
    out.append("g");
    push_digits(out, node as u64);
    push_digits(out, group as u64);
    assert(out@ =~= old(out)@ + port(node as int, group as int));
}

/// Appends the table row of one cell.
fn push_cell_line(out: &mut String, mark: CellMark, node: usize, slot: usize, shard: i64)
    ensures
        final(out)@ == old(out)@ + cell_line(mark, node as int, slot as int, shard as int),
{
    out.append("<tr><td bgcolor=\"");
    out.append(colour_str(mark, slot));
    if slot % 3 == 0 {
        out.append("\" port=\"");
        push_port(out, node, slot / 3);
    }
    out.append("\">");
    push_decimal(out, shard);
    out.append("</td></tr>\n");
    assert(out@ =~= old(out)@ + cell_line(mark, node as int, slot as int, shard as int));
}

/// Appends the opening of a node's record.
fn push_block_head(out: &mut String, node: usize)
    ensures
        final(out)@ == old(out)@ + block_head(node as int),
{
    out.append("\thost");
    push_digits(out, node as u64);
    out.append(
        " [shape=none label=<<table><tr><td bgcolor=\"black\"><font color=\"white\">Node-",
    );
    push_digits(out, node as u64);
    out.append("</font></td></tr>\n");
    assert(out@ =~= old(out)@ + block_head(node as int));
}

/// Appends the closing of a node's record.
fn push_block_foot(out: &mut String, affected: usize, promoted: usize)
    ensures
        final(out)@ == old(out)@ + block_foot(affected as nat, promoted as nat),
{
    out.append("<tr><td bgcolor=\"green\">");
    push_digits(out, affected as u64);
    out.append("</td></tr>\n");
    out.append("<tr><td bgcolor=\"yellow\">");
    push_digits(out, promoted as u64);
    out.append("</td></tr>\n");
    out.append("</table>>];\n");
    assert(out@ =~= old(out)@ + block_foot(affected as nat, promoted as nat));
}

/// Appends one end of an edge.
fn push_edge_end(out: &mut String, node: usize, group: usize)
    ensures
        final(out)@ == old(out)@ + edge_end(node as int, group as int),
{
    out.append("host");
    push_digits(out, node as u64);
    out.append(":");
    push_port(out, node, group);
    assert(out@ =~= old(out)@ + edge_end(node as int, group as int));
}

/// Appends the attributes of an edge.
fn push_edge_attributes(out: &mut String, node: usize, group: usize)
    ensures
        final(out)@ == old(out)@ + edge_attributes(node as int, group as int),
{
    let colour: &str = if group % 2 == 0 {
        "black"
    } else {
        "red"
    };
    if node == 0 {
        out.append(" [ label=\"group");
        push_digits(out, group as u64);
        out.append("\" color=\"");
        out.append(colour);
        out.append("\"];\n");
    } else {
        out.append(" [ color=\"");
        out.append(colour);
        out.append("\" ];\n");
    }
    assert(out@ =~= old(out)@ + edge_attributes(node as int, group as int));
}

/// Appends the edge of a group from a node to the next.
fn push_edge_line(out: &mut String, node: usize, group: usize)
    requires
        node < usize::MAX,
    ensures
        final(out)@ == old(out)@ + edge_line(node as int, group as int),
{
    out.append("\t");
    push_edge_end(out, node, group);
    out.append(" -> ");
    push_edge_end(out, node + 1, group);
    push_edge_attributes(out, node, group);
    assert(out@ =~= old(out)@ + edge_line(node as int, group as int));
}

/// Appends the record of one node.
fn push_node_block(
    out: &mut String,
    matrix: &Matrix,
    fail_col: Option<usize>,
    marks: &Option<Vec<Vec<CellMark>>>,
    node: usize,
)
    requires
        matrix.shaped(),
        node < matrix.cols,
        fail_col.is_some() == marks.is_some(),
        marks.is_some() ==> {
            &&& marks.unwrap()@.len() == matrix.cols
            &&& forall|c: int|
                0 <= c < matrix.cols ==> (#[trigger] marks.unwrap()@[c])@.len() == matrix.rows
            &&& forall|c: int, r: int|
                0 <= c < matrix.cols && 0 <= r < matrix.rows ==> (#[trigger] marks.unwrap()@[c]@[r])
                    == mark_of(matrix.grid(), fail_col, c, r)
        },
    ensures
        final(out)@ == old(out)@ + node_block(
            matrix.grid(),
            fail_col,
            node as int,
            matrix.rows as int,
        ),
{
    let ghost grid = matrix.grid();
    push_block_head(out, node);
    let ghost opened = out@;
    let column: &Vec<i64> = &matrix.data[node];
    let mut affected: usize = 0;
    let mut promoted: usize = 0;
    let mut slot: usize = 0;
    assert(out@ =~= opened + cell_lines(grid, fail_col, node as int, 0));
    while slot < matrix.rows
        invariant
            slot <= matrix.rows,
            matrix.shaped(),
            node < matrix.cols,
            grid == matrix.grid(),
            column@ == grid[node as int],
            column@.len() == matrix.rows,
            fail_col.is_some() == marks.is_some(),
            marks.is_some() ==> {
                &&& marks.unwrap()@.len() == matrix.cols
                &&& forall|c: int|
                    0 <= c < matrix.cols ==> (#[trigger] marks.unwrap()@[c])@.len() == matrix.rows
                &&& forall|c: int, r: int|
                    0 <= c < matrix.cols && 0 <= r < matrix.rows ==> (
                    #[trigger] marks.unwrap()@[c]@[r]) == mark_of(grid, fail_col, c, r)
            },
            out@ == opened + cell_lines(grid, fail_col, node as int, slot as int),
            affected == affected_upto(grid, fail_col, node as int, slot as int),
            promoted == promoted_upto(grid, fail_col, node as int, slot as int),
            affected <= slot,
            promoted <= slot,
        decreases matrix.rows - slot,
    {
        let mark: CellMark = match marks {
            Some(all) => all[node][slot],
            None => CellMark::Unaffected,
        };
        assert(mark == mark_of(grid, fail_col, node as int, slot as int));
        match mark {
            CellMark::Unaffected => {},
            CellMark::Affected => {
                affected = affected + 1;
            },
            CellMark::Promoted => {
                affected = affected + 1;
                promoted = promoted + 1;
            },
        }
        push_cell_line(out, mark, node, slot, column[slot]);
        slot = slot + 1;
        assert(out@ =~= opened + cell_lines(grid, fail_col, node as int, slot as int));
    }
    push_block_foot(out, affected, promoted);
    assert(out@ =~= old(out)@ + node_block(grid, fail_col, node as int, matrix.rows as int));
}

/// A graph description of a placement and of the failure of one of its nodes.
pub trait DotGraph {
    /// The value can be drawn with this node, if any, marked as failed.
    spec fn drawable(&self, fail_col: Option<usize>) -> bool;

    /// The text of the graph description.
    spec fn graph_text(&self, fail_col: Option<usize>) -> Seq<char>;

    /// Renders the graph description. Where `fail_col` names a node, the
    /// cells that its failure affects are coloured.
    fn g(&self, fail_col: Option<usize>) -> (text: String)
        requires
            self.drawable(fail_col),
        ensures
            text@ == self.graph_text(fail_col),
    ;
}

impl DotGraph for Matrix {
    open spec fn drawable(&self, fail_col: Option<usize>) -> bool {
        &&& self.shaped()
        &&& self.cols >= 1
        &&& fail_col.is_some() ==> fail_col.unwrap() < self.cols
    }

    open spec fn graph_text(&self, fail_col: Option<usize>) -> Seq<char> {
        dot_text(self.grid(), fail_col, self.rows as int)
    }

    fn g(&self, fail_col: Option<usize>) -> (text: String) {
        let ghost grid = self.grid();
        let ghost slots = self.rows as int;
        let marks: Option<Vec<Vec<CellMark>>> = match fail_col {
            Some(failed) => Some(mark_cells(self, failed)),
            None => None,
        };
        let mut out: String = String::new();
        out.append("digraph G {\n");
        out.append("\trankdir=LR;\n");
        let ghost opened = out@;
        let mut node: usize = 0;
        assert(out@ =~= opened + node_blocks(grid, fail_col, 0, slots));
        while node < self.cols
            invariant
                node <= self.cols,
                self.shaped(),
                grid == self.grid(),
                slots == self.rows as int,
                fail_col.is_some() == marks.is_some(),
                marks.is_some() ==> {
                    &&& marks.unwrap()@.len() == self.cols
                    &&& forall|c: int|
                        0 <= c < self.cols ==> (#[trigger] marks.unwrap()@[c])@.len() == self.rows
                    &&& forall|c: int, r: int|
                        0 <= c < self.cols && 0 <= r < self.rows ==> (
                        #[trigger] marks.unwrap()@[c]@[r]) == mark_of(grid, fail_col, c, r)
                },
                out@ == opened + node_blocks(grid, fail_col, node as int, slots),
            decreases self.cols - node,
        {
            push_node_block(&mut out, self, fail_col, &marks, node);
            node = node + 1;
            assert(out@ =~= opened + node_blocks(grid, fail_col, node as int, slots));
        }
        let ghost blocked = out@;
        let groups: usize = self.rows / 3;
        let last: usize = self.cols - 1;
        let mut group: usize = 0;
        assert(out@ =~= blocked + edges(0, self.cols as int));
        while group < groups
            invariant
                group <= groups,
                last == self.cols - 1,
                out@ == blocked + edges(group as int, self.cols as int),
            decreases groups - group,
        {
            let ghost chained = out@;
            let mut node: usize = 0;
            assert(out@ =~= chained + group_edges(group as int, 0));
            while node < last
                invariant
                    node <= last,
                    last < usize::MAX,
                    out@ == chained + group_edges(group as int, node as int),
                decreases last - node,
            {
                push_edge_line(&mut out, node, group);
                node = node + 1;
                assert(out@ =~= chained + group_edges(group as int, node as int));
            }
            group = group + 1;
            assert(out@ =~= blocked + edges(group as int, self.cols as int));
        }
        out.append("}\n");
        assert(out@ =~= dot_text(grid, fail_col, slots));
        out
    }
}

} // verus!
