use vstd::prelude::*;

use crate::grid::{has_shape, nonneg};
use crate::text::{join_lines, lemma_lines_of_join, lines_of, one_line};

verus! {

/// The text a grid is saved as: one line per row, `'1'` for a live cell and
/// `'0'` for a dead one, the rows separated by `'\n'`.
pub open spec fn row_text(row: Seq<bool>) -> Seq<char> {
    Seq::new(row.len(), |j: int| if row[j] { '1' } else { '0' })
}

/// The text a grid is saved as (see `row_text`).
pub open spec fn grid_text(alive: Seq<Seq<bool>>) -> Seq<char> {
    join_lines(Seq::new(alive.len(), |i: int| row_text(alive[i])))
}

/// The cells described by `lines`: `rows` rows of `cols` cells, the cell in
/// column `j` of row `i` alive exactly when character `j` of line `i` is `'1'`.
pub open spec fn parse_rows(lines: Seq<Seq<char>>, rows: int, cols: int) -> Seq<Seq<bool>> {
    Seq::new(nonneg(rows), |i: int| Seq::new(nonneg(cols), |j: int| lines[i][j] == '1'))
}

/// The number of bytes that `s` takes in UTF-8, as `str::len` gives it.
pub open spec fn utf8_len(s: Seq<char>) -> usize {
    vstd::utf8::encode_utf8(s).len() as usize
}

/// Why lines cannot be read as a grid of the expected size.
#[derive(Clone, Copy, Debug, PartialEq, Eq, Structural)]
pub enum ImportError {
    /// The number of lines is not the number of rows.
    LineCount,
    /// There is no line at all (and no row is expected).
    NoLines,
    /// The first line's length in bytes is not the number of columns.
    LineLength,
    /// A line that a row is read from is shorter than the number of columns.
    ShortLine,
}

/// Whether some line among the first `rows` has fewer than `cols` characters.
pub open spec fn has_short_line(lines: Seq<Seq<char>>, rows: int, cols: int) -> bool {
    exists|i: int| 0 <= i < rows && (#[trigger] lines[i]).len() < cols
}

/// What is wrong with `lines` as a grid of `rows` rows and `cols` columns, in
/// the order it is found, or `None` when they can be read.
pub open spec fn import_problem(lines: Seq<Seq<char>>, rows: i32, cols: i32) -> Option<ImportError> {
    if (lines.len() as i32) != rows {
        Some(ImportError::LineCount)
    } else if lines.len() == 0 {
        Some(ImportError::NoLines)
    } else if (utf8_len(lines[0]) as i32) != cols {
        Some(ImportError::LineLength)
    } else if has_short_line(lines, rows as int, cols as int) {
        Some(ImportError::ShortLine)
    } else {
        None
    }
}

/// How many of the characters read as cells are neither `'0'` nor `'1'`:
/// the first `cols` characters of each of the first `rows` lines.
pub open spec fn unrecognized(lines: Seq<Seq<char>>, rows: int, cols: int) -> int
    decreases nonneg(rows),
{
    if rows <= 0 {
        0
    } else {
        unrecognized(lines, rows - 1, cols) + unrecognized_in(lines[rows - 1], cols)
    }
}

/// How many of the first `cols` characters of `line` are neither `'0'` nor `'1'`.
pub open spec fn unrecognized_in(line: Seq<char>, cols: int) -> int
    decreases nonneg(cols),
{
    if cols <= 0 {
        0
    } else {
        unrecognized_in(line, cols - 1) + if line[cols - 1] != '0' && line[cols - 1] != '1' {
            1int
        } else {
            0int
        }
    }
}


/// A saved grid reads back as the same grid: the text of a grid of `rows`
/// rows (at least one) and `cols` columns, cut into lines, gives one line of
/// `cols` characters per row, `'1'` for each live cell and `'0'` for each
/// dead one, passes every check of `import_problem` for that size and
/// describes the same cells.
pub proof fn lemma_export_then_import(alive: Seq<Seq<bool>>, rows: i32, cols: i32)
    requires
        rows >= 1,
        cols >= 0,
        has_shape(alive, rows as int, cols as int),
    ensures
        import_problem(lines_of(grid_text(alive)), rows, cols) is None,
        parse_rows(lines_of(grid_text(alive)), rows as int, cols as int) == alive,
        lines_of(grid_text(alive)).len() == rows,
        forall|i: int, j: int|
            0 <= i < rows && 0 <= j < cols ==> #[trigger] lines_of(grid_text(alive))[i][j] == (if alive[i][j] {
                '1'
            } else {
                '0'
            }),
        forall|i: int| 0 <= i < rows ==> (#[trigger] lines_of(grid_text(alive))[i]).len() == cols,
{
    let ls = Seq::new(alive.len(), |i: int| row_text(alive[i]));
    assert forall|i: int| 0 <= i < ls.len() implies one_line(#[trigger] ls[i]) by {
        assert forall|k: int| 0 <= k < ls[i].len() implies ls[i][k] != '\n' by {
            assert(ls[i][k] == '1' || ls[i][k] == '0');
        }
    }
    lemma_lines_of_join(ls);
    let lines = lines_of(grid_text(alive));
    assert(lines =~~= ls);
    assert(vstd::utf8::is_ascii_chars(ls[0])) by {
        assert forall|k: int| 0 <= k < ls[0].len() implies '\0' <= #[trigger] ls[0][k] <= '\u{7f}' by {
            assert(ls[0][k] == '1' || ls[0][k] == '0');
        }
    }
    vstd::utf8::is_ascii_chars_encode_utf8(ls[0]);
    assert(alive[0].len() == cols);
    assert(!has_short_line(lines, rows as int, cols as int));
    assert(parse_rows(lines, rows as int, cols as int) =~~= alive);
}

} // verus!
