//! The placement as a table: one column per node, one line per slot.

use vstd::prelude::*;
use vstd::string::StringExecFns;
use crate::matrix::Matrix;
use crate::metrics::per_column_distinct_count;
use crate::text::{
    count_digits,
    decimal,
    digits,
    left_aligned,
    push_left_aligned,
    push_repeated,
    push_right_aligned,
    push_right_aligned_count,
    push_zero_padded,
    repeated,
    right_aligned,
    zero_padded,
};

verus! {

/// Width of a table column: the digits of the number of cells.
pub open spec fn column_width(slots: int, nodes: int) -> int {
    digits((slots * nodes) as nat).len() as int
}

/// The headings of the first `upto` nodes.
pub open spec fn node_headings(upto: int, width: int) -> Seq<char>
    decreases upto,
{
    if upto <= 0 {
        Seq::empty()
    } else {
        node_headings(upto - 1, width) + "N-"@ + zero_padded((upto - 1) as nat, width) + " "@
    }
}

/// One cell: a leader's shard in angle brackets, a follower's in square brackets.
pub open spec fn table_cell(shard: int, slot: int, width: int) -> Seq<char> {
    if slot % 3 == 0 {
        "<"@ + right_aligned(decimal(shard), width) + "> "@
    } else {
        "["@ + right_aligned(decimal(shard), width) + "] "@
    }
}

/// The cells of a slot on the first `upto` nodes.
pub open spec fn table_cells(grid: Seq<Seq<i64>>, slot: int, upto: int, width: int) -> Seq<char>
    decreases upto,
{
    if upto <= 0 {
        Seq::empty()
    } else {
        table_cells(grid, slot, upto - 1, width) + table_cell(
            grid[upto - 1][slot] as int,
            slot,
            width,
        )
    }
}

/// The line of a slot: its number, counted from one, and its cells.
pub open spec fn table_line(grid: Seq<Seq<i64>>, slot: int, width: int) -> Seq<char> {
    left_aligned(digits((slot + 1) as nat), width) + " "@ + table_cells(
        grid,
        slot,
        grid.len() as int,
        width,
    ) + "\n"@
}

/// The lines of the first `upto` slots.
pub open spec fn table_lines(grid: Seq<Seq<i64>>, upto: int, width: int) -> Seq<char>
    decreases upto,
{
    if upto <= 0 {
        Seq::empty()
    } else {
        table_lines(grid, upto - 1, width) + table_line(grid, upto - 1, width)
    }
}

/// For each of the first `upto` nodes, how many different shards it stores.
pub open spec fn table_totals(grid: Seq<Seq<i64>>, upto: int, width: int) -> Seq<char>
    decreases upto,
{
    if upto <= 0 {
        Seq::empty()
    } else {
        table_totals(grid, upto - 1, width) + " "@ + right_aligned(
            digits(grid[upto - 1].to_set().len()),
            width,
        ) + "  "@
    }
}

/// The whole table: a title, the node headings, a line per slot, and the
/// number of different shards of every node.
pub open spec fn table_text(grid: Seq<Seq<i64>>, slots: int) -> Seq<char> {
    let width = column_width(slots, grid.len() as int);
    "** Shard Distribution ::\n"@ + repeated(" "@, width + 1) + node_headings(
        grid.len() as int,
        width,
    ) + "\n"@ + table_lines(grid, slots, width) + "    "@ + table_totals(
        grid,
        grid.len() as int,
        width,
    ) + "\n"@
}

/// Appends one cell of the table.
fn push_table_cell(out: &mut String, shard: i64, slot: usize, width: usize)
    ensures
        final(out)@ == old(out)@ + table_cell(shard as int, slot as int, width as int),
{
    if slot % 3 == 0 {
        out.append("<");
        push_right_aligned(out, shard, width);
        out.append("> ");
    } else {
        out.append("[");
        push_right_aligned(out, shard, width);
        out.append("] ");
    }
    assert(out@ =~= old(out)@ + table_cell(shard as int, slot as int, width as int));
}

/// Appends the line of one slot.
fn push_table_line(out: &mut String, matrix: &Matrix, slot: usize, width: usize)
    requires
        matrix.shaped(),
        slot < matrix.rows,
    ensures
        final(out)@ == old(out)@ + table_line(matrix.grid(), slot as int, width as int),
{
    let ghost grid = matrix.grid();
    push_left_aligned(out, (slot + 1) as u64, width);
    out.append(" ");
    let ghost opened = out@;
    let mut node: usize = 0;
    assert(out@ =~= opened + table_cells(grid, slot as int, 0, width as int));
    while node < matrix.cols
        invariant
            node <= matrix.cols,
            matrix.shaped(),
            slot < matrix.rows,
            grid == matrix.grid(),
            out@ == opened + table_cells(grid, slot as int, node as int, width as int),
        decreases matrix.cols - node,
    {
        push_table_cell(out, matrix.data[node][slot], slot, width);
        node = node + 1;
        assert(out@ =~= opened + table_cells(grid, slot as int, node as int, width as int));
    }
    out.append("\n");
    assert(out@ =~= old(out)@ + table_line(grid, slot as int, width as int));
}

impl Matrix {
    /// Renders the placement as a table.
    pub fn table(&self) -> (text: String)
        requires
            self.shaped(),
            self.rows * self.cols <= usize::MAX,
        ensures
            text@ == table_text(self.grid(), self.rows as int),
    {
        let ghost grid = self.grid();
        let width: usize = count_digits((self.rows * self.cols) as u64);
        let ghost w = width as int;
        let mut out: String = String::new();
        out.append("** Shard Distribution ::\n");
        push_repeated(&mut out, " ", width + 1);
        let ghost titled = out@;
        let mut node: usize = 0;
        assert(out@ =~= titled + node_headings(0, w));
        while node < self.cols
            invariant
                node <= self.cols,
                out@ == titled + node_headings(node as int, w),
                w == width as int,
            decreases self.cols - node,
        {
            out.append("N-");
            push_zero_padded(&mut out, node as u64, width);
            out.append(" ");
            node = node + 1;
            assert(out@ =~= titled + node_headings(node as int, w));
        }
        out.append("\n");
        let ghost headed = out@;
        let mut slot: usize = 0;
        assert(out@ =~= headed + table_lines(grid, 0, w));
        while slot < self.rows
            invariant
                slot <= self.rows,
                self.shaped(),
                grid == self.grid(),
                w == width as int,
                out@ == headed + table_lines(grid, slot as int, w),
            decreases self.rows - slot,
        {
            push_table_line(&mut out, self, slot, width);
            slot = slot + 1;
            assert(out@ =~= headed + table_lines(grid, slot as int, w));
        }
        out.append("    ");
        let ghost lined = out@;
        let counts = per_column_distinct_count(self);
        let mut node: usize = 0;
        assert(out@ =~= lined + table_totals(grid, 0, w));
        while node < self.cols
            invariant
                node <= self.cols,
                self.shaped(),
                grid == self.grid(),
                w == width as int,
                counts@.len() == self.cols,
                forall|c: int|
                    0 <= c < self.cols ==> (#[trigger] counts@[c]) == grid[c].to_set().len(),
                out@ == lined + table_totals(grid, node as int, w),
            decreases self.cols - node,
        {
            out.append(" ");
            push_right_aligned_count(&mut out, counts[node] as u64, width);
            out.append("  ");
            node = node + 1;
            assert(out@ =~= lined + table_totals(grid, node as int, w));
        }
        out.append("\n");
        assert(out@ =~= table_text(grid, self.rows as int));
        out
    }
}

} // verus!
