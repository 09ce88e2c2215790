use vstd::prelude::*;

use crate::codec::{decode, decode_spec, Cell, JsonValue, JsonView};
use crate::vecs::reversed;

verus! {

/// The model of a row object: its entries in order, each a key and a value.
pub type RowView = Seq<(Seq<char>, JsonView)>;

/// The model of a row object's entries.
pub open spec fn row_view(r: Seq<(String, JsonValue)>) -> RowView {
    r.map_values(|e: (String, JsonValue)| (e.0@, e.1@))
}

/// No key occurs twice.
pub open spec fn keys_unique(r: RowView) -> bool {
    forall|i: int, j: int| 0 <= i < r.len() && 0 <= j < r.len() && i != j ==> r[i].0 != r[j].0
}

/// Sets `k` to `v`: an existing entry keeps its place and takes the new
/// value; a new key goes last.
pub open spec fn insert_entry(r: RowView, k: Seq<char>, v: JsonView) -> RowView {
    if exists|j: int| 0 <= j < r.len() && r[j].0 == k {
        let j = choose|j: int| 0 <= j < r.len() && r[j].0 == k;
        r.update(j, (k, v))
    } else {
        r.push((k, v))
    }
}

/// The row object made of the first `n` columns and values, inserted in
/// column order, so that a later column of the same name wins.
pub open spec fn row_spec(cols: Seq<Seq<char>>, vals: Seq<JsonView>, n: nat) -> RowView
    decreases n,
{
    if n == 0 {
        Seq::empty()
    } else {
        insert_entry(row_spec(cols, vals, (n - 1) as nat), cols[n - 1], vals[n - 1])
    }
}

/// The names of the columns, as character sequences.
pub open spec fn names_view(cols: Seq<String>) -> Seq<Seq<char>> {
    cols.map_values(|s: String| s@)
}

/// The JSON rendering of each cell.
pub open spec fn cells_view(cells: Seq<Cell>) -> Seq<JsonView> {
    cells.map_values(|c: Cell| decode_spec(c))
}

/// The number of columns that a row pairs with values.
pub open spec fn paired_len(a: nat, b: nat) -> nat {
    if a <= b { a } else { b }
}

proof fn lemma_insert_keeps_unique(r: RowView, k: Seq<char>, v: JsonView)
    requires
        keys_unique(r),
    ensures
        keys_unique(insert_entry(r, k, v)),
{
}

/// Builds the JSON object of one result row: each column name keyed to its
/// decoded cell, in column order; a repeated name keeps its first place and
/// takes its last value.
pub fn build_row(cols: &Vec<String>, cells: Vec<Cell>) -> (r: Vec<(String, JsonValue)>)
    ensures
        row_view(r@) == row_spec(
            names_view(cols@),
            cells_view(cells@),
            paired_len(cols@.len(), cells@.len()),
        ),
        keys_unique(row_view(r@)),
{
    let n: usize = if cols.len() <= cells.len() { cols.len() } else { cells.len() };
    let ghost all_cells = cells@;
    let mut rest = cells;
    let mut out: Vec<(String, JsonValue)> = Vec::new();
    let mut i: usize = 0;
    while i < n
        invariant
            n == paired_len(cols@.len(), all_cells.len()),
            i <= n,
            rest@ == all_cells.subrange(i as int, all_cells.len() as int),
            row_view(out@) == row_spec(names_view(cols@), cells_view(all_cells), i as nat),
            keys_unique(row_view(out@)),
        decreases n - i,
    {
        let key = cols[i].clone();
        let val = decode(rest.remove(0));
        let ghost before = row_view(out@);
        proof {
            lemma_insert_keeps_unique(before, key@, val@);
        }
        let mut j: usize = 0;
        while j < out.len() && !(out[j].0 == key)
            invariant
                j <= out.len(),
                row_view(out@) == before,
                forall|m: int| 0 <= m < j ==> before[m].0 != key@,
            decreases out.len() - j,
        {
            j = j + 1;
        }
        let found = j < out.len();
        if found {
            proof {
                assert(before[j as int].0 == key@);
                let c = choose|c: int| 0 <= c < before.len() && before[c].0 == key@;
                assert(c == j);
            }
            out.set(j, (key, val));
            proof {
                assert(row_view(out@) =~= before.update(j as int, (key@, val@)));
            }
        } else {
            out.push((key, val));
            proof {
                assert(row_view(out@) =~= before.push((key@, val@)));
            }
        }
        i = i + 1;
        proof {
            assert(rest@ =~= all_cells.subrange(i as int, all_cells.len() as int));
        }
    }
    out
}

/// Builds the JSON objects of all result rows, in the order the rows came.
pub fn build_rows(cols: &Vec<String>, rows: Vec<Vec<Cell>>) -> (r: Vec<Vec<(String, JsonValue)>>)
    ensures
        r@.len() == rows@.len(),
        forall|i: int|
            0 <= i < r@.len() ==> row_view(#[trigger] r@[i]@) == row_spec(
                names_view(cols@),
                cells_view(rows@[i]@),
                paired_len(cols@.len(), rows@[i]@.len()),
            ),
{
    let ghost all_rows = rows@;
    let mut rest = reversed(rows);
    let mut out: Vec<Vec<(String, JsonValue)>> = Vec::new();
    while rest.len() > 0
        invariant
            out@.len() + rest@.len() == all_rows.len(),
            forall|j: int| 0 <= j < rest@.len() ==> rest@[j] == all_rows[all_rows.len() - 1 - j],
            forall|i: int|
                0 <= i < out@.len() ==> row_view(#[trigger] out@[i]@) == row_spec(
                    names_view(cols@),
                    cells_view(all_rows[i]@),
                    paired_len(cols@.len(), all_rows[i]@.len()),
                ),
        decreases rest@.len(),
    {
        match rest.pop() {
            Some(cells) => out.push(build_row(cols, cells)),
            None => {},
        }
    }
    out
}

} // verus!
