//! The placement as the literal of a Java array of arrays.

use vstd::prelude::*;
use vstd::string::StringExecFns;
use crate::matrix::Matrix;
use crate::text::{decimal, push_decimal};

verus! {

/// The first `upto` shards of a node, separated by commas.
pub open spec fn java_values(column: Seq<i64>, upto: int) -> Seq<char>
    decreases upto,
{
    if upto <= 0 {
        Seq::empty()
    } else if upto == 1 {
        decimal(column[0] as int)
    } else {
        java_values(column, upto - 1) + ", "@ + decimal(column[upto - 1] as int)
    }
}

/// The array literal of one node.
pub open spec fn java_row(column: Seq<i64>) -> Seq<char> {
    "\tnew int[]{"@ + java_values(column, column.len() as int) + "}"@
}

/// The array literals of the first `upto` nodes, one per line.
pub open spec fn java_rows(grid: Seq<Seq<i64>>, upto: int) -> Seq<char>
    decreases upto,
{
    if upto <= 0 {
        Seq::empty()
    } else if upto == 1 {
        java_row(grid[0])
    } else {
        java_rows(grid, upto - 1) + ",\n"@ + java_row(grid[upto - 1])
    }
}

/// The literal of the whole placement: one array per node, in node order,
/// with the shards of a node in slot order.
pub open spec fn java_array(grid: Seq<Seq<i64>>) -> Seq<char> {
    "new int[][]{\n"@ + java_rows(grid, grid.len() as int) + "\n}\n"@
}

/// Appends the array literal of one node.
fn push_java_row(out: &mut String, column: &Vec<i64>)
    ensures
        final(out)@ == old(out)@ + java_row(column@),
{
    out.append("\tnew int[]{");
    let ghost opened = out@;
    let mut slot: usize = 0;
    assert(out@ =~= opened + java_values(column@, 0));
    while slot < column.len()
        invariant
            slot <= column@.len(),
            out@ == opened + java_values(column@, slot as int),
        decreases column@.len() - slot,
    {
        if slot != 0 {
            out.append(", ");
        }
        push_decimal(out, column[slot]);
        slot = slot + 1;
        assert(out@ =~= opened + java_values(column@, slot as int));
    }
    out.append("}");
    assert(out@ =~= old(out)@ + java_row(column@));
}

/// Text that can be pasted into a Java source as an array of arrays.
pub trait DumpToJava {
    /// The value can be dumped.
    spec fn dumpable(&self) -> bool;

    /// The text of the dump.
    spec fn java_text(&self) -> Seq<char>;

    /// Renders the value as a Java array literal.
    fn to_java(&self) -> (text: String)
        requires
            self.dumpable(),
        ensures
            text@ == self.java_text(),
    ;
}

impl DumpToJava for Matrix {
    open spec fn dumpable(&self) -> bool {
        self.shaped()
    }

    open spec fn java_text(&self) -> Seq<char> {
        java_array(self.grid())
    }

    fn to_java(&self) -> (text: String) {
        let ghost grid = self.grid();
        let mut out: String = String::new();
        out.append("new int[][]{\n");
        let ghost opened = out@;
        let mut node: usize = 0;
        assert(out@ =~= opened + java_rows(grid, 0));
        while node < self.cols
            invariant
                node <= self.cols,
                self.shaped(),
                grid == self.grid(),
                out@ == opened + java_rows(grid, node as int),
            decreases self.cols - node,
        {
            if node != 0 {
                out.append(",\n");
            }
            push_java_row(&mut out, &self.data[node]);
            assert(self.data@[node as int]@ == grid[node as int]);
            node = node + 1;
            assert(out@ =~= opened + java_rows(grid, node as int));
        }
        out.append("\n}\n");
        assert(out@ =~= java_array(grid));
        out
    }
}

} // verus!
