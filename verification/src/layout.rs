//! How a population becomes one frame of text: the cells are laid out in
//! columns, under a centred, highlighted label.

use crate::candidate::{all_fit, blanks, models, Candidate, CandidateModel};
use crate::error::SimulationError;
use crate::terminal::{
    bold_code, foreground_code, reset_attributes, reset_code, set_bold, set_foreground, Tint,
};
use crate::text::{chars_of, decimal, decimal_string};
use vstd::arithmetic::div_mod::{
    lemma_fundamental_div_mod, lemma_fundamental_div_mod_converse, lemma_mod_multiples_vanish,
    lemma_mod_pos_bound, lemma_small_mod,
};
use vstd::prelude::*;
use vstd::string::StringExecFns;

verus! {

/// A column is this much wider than the target.
pub const COLUMN_MARGIN: usize = 8;

/// The blanks that follow every cell: what the margin leaves once the two
/// cells of the focus marker are taken off.
pub const CELL_PADDING: usize = 6;

/// The blanks in front of every row.
pub const ROW_INDENT: usize = 3;

/// The index of the candidate shown in the `k`-th cell, for a population
/// of `len` laid out in rows of cells that are `rows` candidates apart.
/// The walk starts at the first candidate and strides by `rows`; when the
/// next stride would leave the population it starts over, one further down.
pub open spec fn cursor(k: nat, rows: nat, len: nat) -> nat
    decreases k,
{
    if k == 0 {
        0
    } else {
        let before = cursor((k - 1) as nat, rows, len);
        if before + rows >= len {
            before % rows + 1
        } else {
            before + rows
        }
    }
}

/// The number of candidates between two neighbours of a row.
pub open spec fn stride(len: nat, columns: nat) -> nat {
    len / columns
}

/// The text of the `k`-th of `count` cells when it shows `shown`: the row's
/// indent if the cell opens a row, the candidate's display and its padding,
/// and a line break if the cell closes a row or is the last of all.
pub open spec fn cell_text(
    shown: CandidateModel,
    target: Seq<char>,
    columns: nat,
    k: nat,
    count: nat,
) -> Seq<char> {
    let indent = if k % columns == 0 {
        blanks(ROW_INDENT as nat)
    } else {
        Seq::empty()
    };
    let close = if (k + 1) % columns == 0 || k + 1 == count {
        seq!['\n']
    } else {
        Seq::empty()
    };
    indent + shown.display(target) + blanks(CELL_PADDING as nat) + close
}

/// The text that the `k`-th cell adds to a grid: the cell of the candidate
/// that the walk through the population has reached.
pub open spec fn piece(
    population: Seq<CandidateModel>,
    target: Seq<char>,
    columns: nat,
    k: nat,
) -> Seq<char> {
    let shown = population[cursor(k, stride(population.len(), columns), population.len()) as int];
    cell_text(shown, target, columns, k, population.len())
}

/// The first `n` cells of the grid, one after the other.
pub open spec fn grid(
    population: Seq<CandidateModel>,
    target: Seq<char>,
    columns: nat,
    n: nat,
) -> Seq<char>
    decreases n,
{
    if n == 0 {
        Seq::empty()
    } else {
        grid(population, target, columns, (n - 1) as nat) + piece(
            population,
            target,
            columns,
            (n - 1) as nat,
        )
    }
}

/// The first `n` cells of a listing: the candidates in the order in which
/// they stand, row after row.
pub open spec fn listed(
    population: Seq<CandidateModel>,
    target: Seq<char>,
    columns: nat,
    n: nat,
) -> Seq<char>
    decreases n,
{
    if n == 0 {
        Seq::empty()
    } else {
        listed(population, target, columns, (n - 1) as nat) + cell_text(
            population[n - 1],
            target,
            columns,
            (n - 1) as nat,
            population.len(),
        )
    }
}

/// `label` in the middle of a field of `width`: the blanks that are missing
/// go half in front, and the rest, one more if they are odd, behind. A label
/// that fills the field stays as it is.
pub open spec fn centred(label: Seq<char>, width: nat) -> Seq<char> {
    if label.len() >= width {
        label
    } else {
        let missing = (width - label.len()) as nat;
        blanks(missing / 2) + label + blanks((missing - missing / 2) as nat)
    }
}

/// The highlighted headline of a frame: two empty lines, `label` centred in
/// bold cyan over `width` cells, and two line breaks.
pub open spec fn banner(label: Seq<char>, width: nat) -> Seq<char> {
    seq!['\n', '\n'] + bold_code() + foreground_code(Tint::Cyan) + centred(label, width)
        + foreground_code(Tint::Default) + reset_code() + seq!['\n', '\n']
}

/// The width of the whole grid.
pub open spec fn grid_width(target: Seq<char>, columns: nat) -> nat {
    ((target.len() + COLUMN_MARGIN) * columns) as nat
}

/// One frame: the banner, every candidate in its cell, and a closing line
/// break.
pub open spec fn frame_text(
    population: Seq<CandidateModel>,
    target: Seq<char>,
    columns: nat,
    label: Seq<char>,
) -> Seq<char> {
    banner(label, grid_width(target, columns)) + grid(
        population,
        target,
        columns,
        population.len(),
    ) + seq!['\n']
}

/// One listing: the banner, every candidate in the order in which it
/// stands, and a closing line break.
pub open spec fn listing_text(
    population: Seq<CandidateModel>,
    target: Seq<char>,
    columns: nat,
    label: Seq<char>,
) -> Seq<char> {
    banner(label, grid_width(target, columns)) + listed(
        population,
        target,
        columns,
        population.len(),
    ) + seq!['\n']
}

/// `n` line breaks.
pub open spec fn line_breaks(n: nat) -> Seq<char> {
    Seq::new(n, |i: int| '\n')
}

/// The line that names the result of a run: the winning genome in green
/// and the number of iterations in white, between yellow captions.
pub open spec fn result_line(best: Seq<char>, iterations: nat) -> Seq<char> {
    "\t     Result: "@ + foreground_code(Tint::Green) + best + foreground_code(Tint::Yellow)
        + "   Iterations: "@ + foreground_code(Tint::White) + decimal(iterations)
}

/// The summary of a run: the result line centred in bold yellow over
/// `width` cells, and below it the line breaks that fill a grid of `rows`
/// rows, less the two lines the summary stands for.
pub open spec fn summary_text(best: Seq<char>, iterations: nat, width: nat, rows: nat) -> Seq<
    char,
> {
    let filling = if rows >= 2 {
        (rows - 2) as nat
    } else {
        0
    };
    bold_code() + foreground_code(Tint::Yellow) + centred(result_line(best, iterations), width)
        + foreground_code(Tint::Default) + reset_code() + line_breaks(filling)
}

/// Appends `n` blanks to `out`.
pub fn push_blanks(out: &mut String, n: usize)
    ensures
        final(out)@ == old(out)@ + blanks(n as nat),
{
    let mut i: usize = 0;
    while i < n
        invariant
            i <= n,
            out@ == old(out)@ + blanks(i as nat),
        decreases n - i,
    {
        out.push(' ');
        i += 1;
    }
}

/// Appends the `k`-th of `count` cells, showing `candidate`, to `out`.
pub(crate) fn push_cell(
    out: &mut String,
    candidate: &Candidate,
    target: &Vec<char>,
    columns: usize,
    k: usize,
    count: usize,
)
    requires
        columns > 0,
        k < count,
        candidate@.text.len() == target@.len(),
    ensures
        final(out)@ == old(out)@ + cell_text(
            candidate@,
            target@,
            columns as nat,
            k as nat,
            count as nat,
        ),
{
    if k % columns == 0 {
        push_blanks(out, ROW_INDENT);
    }
    out.append(candidate.cell(target).as_str());
    push_blanks(out, CELL_PADDING);
    if (k + 1) % columns == 0 || k + 1 == count {
        out.push('\n');
    }
}

/// `label` centred in a field of `width`.
pub fn centre(label: &str, width: usize) -> (field: String)
    ensures
        field@ == centred(label@, width as nat),
{
    let symbols = chars_of(label);
    let mut field = String::new();
    if symbols.len() >= width {
        field.append(label);
        return field;
    }
    let missing = width - symbols.len();
    push_blanks(&mut field, missing / 2);
    field.append(label);
    push_blanks(&mut field, missing - missing / 2);
    field
}

/// The headline of a frame.
pub fn headline(label: &str, width: usize) -> (text: String)
    ensures
        text@ == banner(label@, width as nat),
{
    let mut text = String::new();
    text.push('\n');
    text.push('\n');
    text.append(set_bold().as_str());
    text.append(set_foreground(Tint::Cyan).as_str());
    text.append(centre(label, width).as_str());
    text.append(set_foreground(Tint::Default).as_str());
    text.append(reset_attributes().as_str());
    text.push('\n');
    text.push('\n');
    text
}

/// The summary of a run that ended with `best` after `iterations`
/// iterations.
pub fn summary(best: &str, iterations: usize, width: usize, rows: usize) -> (text: String)
    ensures
        text@ == summary_text(best@, iterations as nat, width as nat, rows as nat),
{
    let mut line = String::new();
    line.append("\t     Result: ");
    line.append(set_foreground(Tint::Green).as_str());
    line.append(best);
    line.append(set_foreground(Tint::Yellow).as_str());
    line.append("   Iterations: ");
    line.append(set_foreground(Tint::White).as_str());
    line.append(decimal_string(iterations).as_str());
    let mut text = String::new();
    text.append(set_bold().as_str());
    text.append(set_foreground(Tint::Yellow).as_str());
    text.append(centre(line.as_str(), width).as_str());
    text.append(set_foreground(Tint::Default).as_str());
    text.append(reset_attributes().as_str());
    let filling: usize = if rows >= 2 {
        rows - 2
    } else {
        0
    };
    let ghost before = text@;
    let mut i: usize = 0;
    while i < filling
        invariant
            i <= filling,
            text@ == before + line_breaks(i as nat),
        decreases filling - i,
    {
        text.push('\n');
        i += 1;
    }
    text
}

/// While cells remain, the walk stays inside the population; in a single
/// column it visits the candidates in their order.
proof fn lemma_cursor_advances(k: nat, columns: nat, len: nat)
    requires
        columns > 0,
        k < len,
        cursor(k, stride(len, columns), len) < len,
        columns == 1 ==> cursor(k, stride(len, columns), len) == k,
    ensures
        k + 1 < len ==> cursor(k + 1, stride(len, columns), len) < len,
        columns == 1 ==> cursor(k + 1, stride(len, columns), len) == k + 1,
{
    let rows = stride(len, columns);
    let before = cursor(k, rows, len);
    if columns == 1 {
        assert(rows == len) by (nonlinear_arith)
            requires
                rows == len / columns,
                columns == 1,
        ;
        lemma_small_mod(before, len);
    } else {
        assert(rows * 2 <= len) by (nonlinear_arith)
            requires
                rows == len / columns,
                columns >= 2,
                len >= 0,
        ;
        if before + rows >= len {
            assert(before % rows < rows) by (nonlinear_arith)
                requires
                    rows > 0,
            ;
        }
    }
}

/// Where the columns divide the population evenly, the grid is filled
/// column by column: the cell in row `r` and column `c` shows the
/// candidate at `c * rows + r`, so every column lists `rows` candidates
/// that stand next to each other.
pub proof fn lemma_cursor_fills_columns(k: nat, rows: nat, columns: nat)
    requires
        rows > 0,
        columns > 0,
        k < rows * columns,
    ensures
        stride(rows * columns, columns) == rows,
        cursor(k, rows, rows * columns) == (k % columns) * rows + k / columns,
        k / columns < rows,
    decreases k,
{
    let len = rows * columns;
    lemma_fundamental_div_mod_converse(
        len as int,
        columns as int,
        rows as int,
        0,
    );
    let r = (k / columns) as int;
    let c = (k % columns) as int;
    lemma_fundamental_div_mod(k as int, columns as int);
    lemma_mod_pos_bound(k as int, columns as int);
    assert(r < rows) by (nonlinear_arith)
        requires
            k == columns * r + c,
            0 <= c,
            k < rows * columns,
            columns > 0,
    ;
    if k > 0 {
        let j = (k - 1) as nat;
        lemma_cursor_fills_columns(j, rows, columns);
        let r0 = (j / columns) as int;
        let c0 = (j % columns) as int;
        lemma_fundamental_div_mod(j as int, columns as int);
        lemma_mod_pos_bound(j as int, columns as int);
        let before = cursor(j, rows, len);
        if c0 + 1 < columns {
            assert(k == r0 * columns + (c0 + 1)) by (nonlinear_arith)
                requires
                    j == columns * r0 + c0,
                    k == j + 1,
            ;
            lemma_fundamental_div_mod_converse(
                k as int,
                columns as int,
                r0,
                c0 + 1,
            );
            assert(before + rows < len) by (nonlinear_arith)
                requires
                    before == c0 * rows + r0,
                    r0 < rows,
                    c0 + 1 < columns,
                    len == rows * columns,
                    0 <= c0,
            ;
            assert(before + rows == (c0 + 1) * rows + r0) by (nonlinear_arith)
                requires
                    before == c0 * rows + r0,
            ;
        } else {
            assert(k == (r0 + 1) * columns + 0) by (nonlinear_arith)
                requires
                    j == columns * r0 + c0,
                    k == j + 1,
                    c0 + 1 == columns,
            ;
            lemma_fundamental_div_mod_converse(
                k as int,
                columns as int,
                r0 + 1,
                0,
            );
            assert(before + rows >= len) by (nonlinear_arith)
                requires
                    before == c0 * rows + r0,
                    0 <= r0,
                    c0 + 1 == columns,
                    len == rows * columns,
            ;
            lemma_mod_multiples_vanish(c0, r0, rows as int);
            lemma_small_mod(r0 as nat, rows);
            assert(before == rows * c0 + r0) by (nonlinear_arith)
                requires
                    before == c0 * rows + r0,
            ;
            assert(0 * rows == 0);
        }
    }
}

/// Whether every genome of `population` is as long as `target`.
pub fn lengths_fit(population: &Vec<Candidate>, target: &Vec<char>) -> (fit: bool)
    ensures
        fit == all_fit(models(population@), target@),
{
    let mut i: usize = 0;
    while i < population.len()
        invariant
            i <= population.len(),
            all_fit(models(population@).take(i as int), target@),
        decreases population.len() - i,
    {
        if population[i].symbols().len() != target.len() {
            assert(models(population@)[i as int].text.len() != target@.len());
            return false;
        }
        assert forall|k: int| 0 <= k < i + 1 implies (#[trigger] models(population@).take(
            i + 1,
        )[k]).text.len() == target@.len() by {
            if k < i {
                assert(models(population@).take(i as int)[k].text.len() == target@.len());
            }
        }
        i += 1;
    }
    assert(models(population@).take(population@.len() as int) =~= models(population@));
    true
}

/// Lays `population` out in `columns` columns under `label`. A population
/// that holds a genome of another length than the target's is refused.
pub fn frame(
    population: &Vec<Candidate>,
    target: &Vec<char>,
    columns: usize,
    label: &str,
) -> (outcome: Result<String, SimulationError>)
    requires
        columns > 0,
        grid_width(target@, columns as nat) <= usize::MAX,
    ensures
        outcome is Err <==> !all_fit(models(population@), target@),
        match outcome {
            Ok(text) => text@ == frame_text(models(population@), target@, columns as nat, label@),
            Err(error) => error == SimulationError::LengthMismatch,
        },
{
    if !lengths_fit(population, target) {
        return Err(SimulationError::LengthMismatch);
    }
    Ok(lay_out(population, target, columns, label))
}

/// Lists `population` in rows of `columns` under `label`, in the order in
/// which the candidates stand. A population that holds a genome of another
/// length than the target's is refused.
pub fn listing(
    population: &Vec<Candidate>,
    target: &Vec<char>,
    columns: usize,
    label: &str,
) -> (outcome: Result<String, SimulationError>)
    requires
        columns > 0,
        grid_width(target@, columns as nat) <= usize::MAX,
    ensures
        outcome is Err <==> !all_fit(models(population@), target@),
        match outcome {
            Ok(text) => text@ == listing_text(
                models(population@),
                target@,
                columns as nat,
                label@,
            ),
            Err(error) => error == SimulationError::LengthMismatch,
        },
{
    if !lengths_fit(population, target) {
        return Err(SimulationError::LengthMismatch);
    }
    Ok(list_out(population, target, columns, label))
}

/// Lays out a population whose genomes are all as long as the target.
pub(crate) fn lay_out(
    population: &Vec<Candidate>,
    target: &Vec<char>,
    columns: usize,
    label: &str,
) -> (text: String)
    requires
        columns > 0,
        grid_width(target@, columns as nat) <= usize::MAX,
        all_fit(models(population@), target@),
    ensures
        text@ == frame_text(models(population@), target@, columns as nat, label@),
{
    let ghost shown = models(population@);
    let len = population.len();
    let rows = len / columns;
    assert(target.len() + COLUMN_MARGIN <= usize::MAX) by (nonlinear_arith)
        requires
            (target.len() + COLUMN_MARGIN) * columns <= usize::MAX,
            columns > 0,
    ;
    let width = (target.len() + COLUMN_MARGIN) * columns;
    let mut text = headline(label, width);
    let mut body = String::new();
    let mut j: usize = 0;
    let mut k: usize = 0;
    while k < len
        invariant
            columns > 0,
            len == population@.len(),
            shown == models(population@),
            rows == stride(len as nat, columns as nat),
            k <= len,
            j == cursor(k as nat, rows as nat, len as nat),
            k < len ==> j < len,
            columns == 1 ==> j == k,
            all_fit(shown, target@),
            body@ == grid(shown, target@, columns as nat, k as nat),
        decreases len - k,
    {
        assert(shown[j as int] == population@[j as int]@);
        push_cell(&mut body, &population[j], target, columns, k, len);
        proof {
            lemma_cursor_advances(k as nat, columns as nat, len as nat);
        }
        if rows >= len - j {
            j = j % rows + 1;
        } else {
            j = j + rows;
        }
        k += 1;
    }
    text.append(body.as_str());
    text.push('\n');
    text
}

/// Lists a population whose genomes are all as long as the target.
pub(crate) fn list_out(
    population: &Vec<Candidate>,
    target: &Vec<char>,
    columns: usize,
    label: &str,
) -> (text: String)
    requires
        columns > 0,
        grid_width(target@, columns as nat) <= usize::MAX,
        all_fit(models(population@), target@),
    ensures
        text@ == listing_text(models(population@), target@, columns as nat, label@),
{
    let ghost shown = models(population@);
    let len = population.len();
    assert(target.len() + COLUMN_MARGIN <= usize::MAX) by (nonlinear_arith)
        requires
            (target.len() + COLUMN_MARGIN) * columns <= usize::MAX,
            columns > 0,
    ;
    let width = (target.len() + COLUMN_MARGIN) * columns;
    let mut text = headline(label, width);
    let mut body = String::new();
    let mut k: usize = 0;
    while k < len
        invariant
            columns > 0,
            len == population@.len(),
            shown == models(population@),
            k <= len,
            all_fit(shown, target@),
            body@ == listed(shown, target@, columns as nat, k as nat),
        decreases len - k,
    {
        assert(shown[k as int] == population@[k as int]@);
        push_cell(&mut body, &population[k], target, columns, k, len);
        k += 1;
    }
    text.append(body.as_str());
    text.push('\n');
    text
}

} // verus!
