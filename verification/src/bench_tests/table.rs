//! The results of all benchmarks on all compiled commits, as a markdown
//! table.
use vstd::prelude::*;

use super::config::BenchTestSetup;
use crate::node::{all_done, CompilationNode};
use crate::text::to_string;

verus! {

/// One cell: the text between a space and ` |`.
pub open spec fn cell(text: Seq<char>) -> Seq<char> {
    " "@ + text + " |"@
}

/// The cells of `v`, one after the other.
pub open spec fn cells(v: Seq<Seq<char>>) -> Seq<char>
    decreases v.len(),
{
    if v.len() == 0 {
        Seq::empty()
    } else {
        cells(v.drop_last()) + cell(v.last())
    }
}

/// `n` separator cells.
pub open spec fn separators(n: nat) -> Seq<char>
    decreases n,
{
    if n == 0 {
        Seq::empty()
    } else {
        separators((n - 1) as nat) + " --- |"@
    }
}

/// The column headers before those of the benchmarks.
pub open spec fn node_col_headers() -> Seq<Seq<char>> {
    seq!["Date"@, "Status"@]
}

/// The header of the table: a column for each header and each benchmark,
/// then the separator line.
pub open spec fn header(tests: Seq<Seq<char>>) -> Seq<char> {
    "|"@ + cells(node_col_headers() + tests) + "\n|"@ + separators(
        node_col_headers().len() + tests.len(),
    )
}

/// The text of a benchmark's cell: its formatted duration, or `Failed`.
pub open spec fn result_text(r: Option<String>) -> Seq<char> {
    match r {
        Some(t) => t@,
        None => "Failed"@,
    }
}

/// The row of a compiled commit: its name, whether it compiled, and the
/// cell of each benchmark.
pub open spec fn row(name: Seq<char>, done: bool, results: Seq<Option<String>>) -> Seq<char> {
    "\n| "@ + cells(
        seq![
            name,
            if done {
                "Ok"@
            } else {
                "Failed"@
            },
        ],
    ) + cells(results.map_values(|r: Option<String>| result_text(r)))
}

/// The rows of the compiled commits `nodes`, with `results[i][j]` the
/// formatted duration of benchmark `j` on commit `i`.
pub open spec fn rows(nodes: Seq<CompilationNode>, results: Seq<Vec<Option<String>>>) -> Seq<char>
    decreases nodes.len(),
{
    if nodes.len() == 0 || results.len() == 0 {
        Seq::empty()
    } else {
        rows(nodes.drop_last(), results.drop_last()) + row(
            nodes.last().repo.name@ + "-"@ + nodes.last().commit.date@,
            all_done(nodes.last().state.statuses()),
            results.last()@,
        )
    }
}

/// The whole table.
pub open spec fn table(
    nodes: Seq<CompilationNode>,
    tests: Seq<BenchTestSetup>,
    results: Seq<Vec<Option<String>>>,
) -> Seq<char> {
    header(tests.map_values(|t: BenchTestSetup| t.name@)) + rows(nodes, results)
}

proof fn lemma_cells_two(a: Seq<char>, b: Seq<char>)
    ensures
        cells(seq![a, b]) =~= cell(a) + cell(b),
{
    assert(seq![a, b].drop_last() =~= seq![a]);
    assert(seq![a].drop_last() =~= Seq::<Seq<char>>::empty());
    assert(seq![a].last() == a);
    assert(cells(Seq::<Seq<char>>::empty()) == Seq::<char>::empty());
    assert(cells(seq![a]) == cells(seq![a].drop_last()) + cell(a));
    assert(cells(seq![a]) =~= cell(a));
}

/// Appends the cell of `text` to `s`.
fn push_cell(s: &mut String, text: &str)
    ensures
        final(s)@ == old(s)@ + cell(text@),
{
    s.append(" ");
    s.append(text);
    s.append(" |");
}

/// The table of the results of `tests` on the compiled commits
/// `compiler_nodes`: `results[i][j]` is the formatted duration of benchmark
/// `j` on commit `i`, or `None` where it failed.
pub fn print_results(
    compiler_nodes: &[CompilationNode],
    tests: &[BenchTestSetup],
    results: &Vec<Vec<Option<String>>>,
) -> (s: String)
    requires
        results.len() == compiler_nodes.len(),
        forall|i: int| 0 <= i < results.len() ==> #[trigger] results@[i].len() == tests.len(),
        compiler_nodes.len() + tests.len() + 2 <= usize::MAX,
    ensures
        s@ == table(compiler_nodes@, tests@, results@),
{
    let ghost names = tests@.map_values(|t: BenchTestSetup| t.name@);
    let ghost all = node_col_headers() + names;
    let mut s = to_string("|");
    push_cell(&mut s, "Date");
    push_cell(&mut s, "Status");
    proof {
        assert(all.take(2) =~= seq!["Date"@, "Status"@]);
        lemma_cells_two("Date"@, "Status"@);
        assert(s@ =~= "|"@ + cells(all.take(2)));
    }
    let mut j: usize = 0;
    while j < tests.len()
        invariant
            j <= tests.len(),
            names == tests@.map_values(|t: BenchTestSetup| t.name@),
            all == node_col_headers() + names,
            s@ == "|"@ + cells(all.take(j + 2)),
        decreases tests.len() - j,
    {
        push_cell(&mut s, tests[j].name.as_str());
        assert(all.take(j + 3).drop_last() =~= all.take(j + 2));
        assert(all.take(j + 3).last() == tests@[j as int].name@);
        j = j + 1;
    }
    assert(all.take(tests.len() + 2) =~= all);
    s.append("\n|");
    let ncols = 2 + tests.len();
    let mut k: usize = 0;
    while k < ncols
        invariant
            k <= ncols,
            ncols == node_col_headers().len() + names.len(),
            names.len() == tests.len(),
            s@ == "|"@ + cells(all) + "\n|"@ + separators(k as nat),
        decreases ncols - k,
    {
        s.append(" --- |");
        k = k + 1;
    }
    let ghost head = s@;
    assert(head == header(names));
    let mut i: usize = 0;
    while i < compiler_nodes.len()
        invariant
            i <= compiler_nodes.len(),
            results.len() == compiler_nodes.len(),
            forall|x: int| 0 <= x < results.len() ==> #[trigger] results@[x].len() == tests.len(),
            s@ == head + rows(compiler_nodes@.take(i as int), results@.take(i as int)),
        decreases compiler_nodes.len() - i,
    {
        let c = &compiler_nodes[i];
        let ghost before = s@;
        s.append("\n| ");
        let mut name = to_string(c.repo.name.as_str());
        name.append("-");
        name.append(c.commit.date.as_str());
        push_cell(&mut s, name.as_str());
        let done = c.is_done();
        if done {
            push_cell(&mut s, "Ok");
        } else {
            push_cell(&mut s, "Failed");
        }
        let ghost status_text = if done {
            "Ok"@
        } else {
            "Failed"@
        };
        proof {
            lemma_cells_two(name@, status_text);
        }
        let ghost mid = s@;
        assert(mid =~= before + "\n| "@ + cells(seq![name@, status_text]));
        let r = &results[i];
        let ghost texts = r@.map_values(|x: Option<String>| result_text(x));
        let mut j: usize = 0;
        while j < r.len()
            invariant
                j <= r.len(),
                texts == r@.map_values(|x: Option<String>| result_text(x)),
                s@ == mid + cells(texts.take(j as int)),
            decreases r.len() - j,
        {
            match &r[j] {
                Some(t) => push_cell(&mut s, t.as_str()),
                None => push_cell(&mut s, "Failed"),
            }
            assert(texts.take(j + 1).drop_last() =~= texts.take(j as int));
            j = j + 1;
        }
        assert(texts.take(r.len() as int) =~= texts);
        assert(compiler_nodes@.take(i + 1).drop_last() =~= compiler_nodes@.take(i as int));
        assert(results@.take(i + 1).drop_last() =~= results@.take(i as int));
        i = i + 1;
    }
    assert(compiler_nodes@.take(compiler_nodes.len() as int) =~= compiler_nodes@);
    assert(results@.take(results.len() as int) =~= results@);
    s
}

} // verus!
