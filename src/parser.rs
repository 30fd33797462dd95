use vstd::prelude::*;

use crate::template::{RoomTemplate, RoomType};
use crate::room::all_within;
use crate::tile::{Position, TileType};

verus! {

/// The lines of a text, split at each `'\n'`; a text without one is a single line.
pub open spec fn split_lines(s: Seq<char>) -> Seq<Seq<char>>
    decreases s.len(),
{
    if s.len() == 0 {
        seq![Seq::empty()]
    } else {
        let pre = split_lines(s.drop_last());
        if s.last() == '\n' {
            pre.push(Seq::empty())
        } else {
            pre.update(pre.len() - 1, pre.last().push(s.last()))
        }
    }
}

pub proof fn lemma_split_lines_nonempty(s: Seq<char>)
    ensures
        split_lines(s).len() >= 1,
    decreases s.len(),
{
    if s.len() > 0 {
        lemma_split_lines_nonempty(s.drop_last());
    }
}

pub open spec fn is_blank_char(c: char) -> bool {
    c == ' ' || c == '\t' || c == '\r'
}

/// A line holding only blanks (possibly none).
pub open spec fn is_blank_line(l: Seq<char>) -> bool {
    forall|i: int| 0 <= i < l.len() ==> is_blank_char(#[trigger] l[i])
}

/// Index of the first non-blank line at or after `i`, or the number of lines.
pub open spec fn first_content(ls: Seq<Seq<char>>, i: int) -> int
    decreases ls.len() - i,
{
    if i < 0 || i >= ls.len() {
        ls.len() as int
    } else if is_blank_line(ls[i]) {
        first_content(ls, i + 1)
    } else {
        i
    }
}

/// One past the last non-blank line before `j`, and not below `lo`.
pub open spec fn end_content(ls: Seq<Seq<char>>, lo: int, j: int) -> int
    decreases j - lo,
{
    if j <= lo {
        lo
    } else if is_blank_line(ls[j - 1]) {
        end_content(ls, lo, j - 1)
    } else {
        j
    }
}

proof fn lemma_first_content_range(ls: Seq<Seq<char>>, i: int)
    requires
        0 <= i <= ls.len(),
    ensures
        i <= first_content(ls, i) <= ls.len(),
    decreases ls.len() - i,
{
    if i < ls.len() && is_blank_line(ls[i]) {
        lemma_first_content_range(ls, i + 1);
    }
}

proof fn lemma_end_content_range(ls: Seq<Seq<char>>, lo: int, j: int)
    requires
        lo <= j,
    ensures
        lo <= end_content(ls, lo, j) <= j,
    decreases j - lo,
{
    if j > lo && is_blank_line(ls[j - 1]) {
        lemma_end_content_range(ls, lo, j - 1);
    }
}

/// The rows of a pattern: its lines without the blank lines that lead or trail.
pub open spec fn pattern_rows(s: Seq<char>) -> Seq<Seq<char>> {
    let ls = split_lines(s);
    let lo = first_content(ls, 0);
    ls.subrange(lo, end_content(ls, lo, ls.len() as int))
}

pub open spec fn is_glyph(c: char) -> bool {
    c == '#' || c == '.' || c == 'D' || c == 'C' || c == 'T' || c == ' ' || c == 'S'
}

/// The tile that a glyph becomes.
pub open spec fn glyph_tile(c: char) -> TileType {
    if c == '.' || c == 'T' || c == 'S' {
        TileType::Floor
    } else if c == 'D' {
        TileType::Door
    } else {
        TileType::Wall
    }
}

/// Positions of glyph `g` among the first `n` cells of row `y`, left to right.
pub open spec fn row_marks(row: Seq<char>, y: int, g: char, n: int) -> Seq<Position>
    decreases n,
{
    if n <= 0 {
        Seq::empty()
    } else {
        let pre = row_marks(row, y, g, n - 1);
        if row[n - 1] == g {
            pre.push(Position { x: (n - 1) as usize, y: y as usize })
        } else {
            pre
        }
    }
}

/// Positions of glyph `g` in the first `m` rows, in row-major order.
pub open spec fn grid_marks(rows: Seq<Seq<char>>, g: char, m: int) -> Seq<Position>
    decreases m,
{
    if m <= 0 {
        Seq::empty()
    } else {
        grid_marks(rows, g, m - 1) + row_marks(rows[m - 1], m - 1, g, rows[m - 1].len() as int)
    }
}

pub open spec fn rows_ragged(rows: Seq<Seq<char>>) -> bool {
    exists|y: int| 0 <= y < rows.len() && (#[trigger] rows[y]).len() != rows[0].len()
}

pub open spec fn glyphs_valid(rows: Seq<Seq<char>>) -> bool {
    forall|y: int, x: int|
        0 <= y < rows.len() && 0 <= x < rows[y].len() ==> is_glyph(#[trigger] rows[y][x])
}

/// `c` is the first cell, in row-major order, that is not a glyph.
pub open spec fn first_bad_glyph(rows: Seq<Seq<char>>, c: char) -> bool {
    exists|y: int, x: int|
        #![trigger rows[y][x]]
        0 <= y < rows.len() && 0 <= x < rows[y].len() && rows[y][x] == c && !is_glyph(c) && (
        forall|y2: int, x2: int|
            0 <= y2 < y && 0 <= x2 < rows[y2].len() ==> is_glyph(#[trigger] rows[y2][x2])) && (
        forall|x2: int| 0 <= x2 < x ==> is_glyph(#[trigger] rows[y][x2]))
}

/// Why a template could not be read.
#[derive(Debug, Clone, Copy)]
pub enum TemplateError {
    /// The pattern holds no row once blank lines are trimmed.
    Empty { template: &'static str },
    /// A row's length differs from the first row's.
    RaggedRows { template: &'static str },
    /// A character outside the glyph set.
    InvalidGlyph { glyph: char, template: &'static str },
}

/// A template read into a typed room shape.
#[derive(Debug, Clone)]
pub struct ParsedRoom {
    pub name: String,
    pub room_type: RoomType,
    pub width: usize,
    pub height: usize,
    pub tiles: Vec<Vec<TileType>>,
    pub connections: Vec<Position>,
    pub spawn_points: Vec<Position>,
    pub is_central: bool,
}

/// `tiles` is a `height` x `width` grid.
pub open spec fn grid_shape(tiles: Seq<Vec<TileType>>, width: int, height: int) -> bool {
    &&& tiles.len() == height
    &&& forall|y: int| 0 <= y < height ==> (#[trigger] tiles[y])@.len() == width
}

/// What reading template `t` with rows `rows` yields.
pub open spec fn parsed_from(p: ParsedRoom, t: RoomTemplate, rows: Seq<Seq<char>>) -> bool {
    &&& p.name@ == t.name@
    &&& p.room_type == t.room_type
    &&& p.is_central == t.is_central
    &&& p.height == rows.len()
    &&& p.width == rows[0].len()
    &&& grid_shape(p.tiles@, p.width as int, p.height as int)
    &&& forall|y: int, x: int|
        0 <= y < p.height && 0 <= x < p.width ==> (#[trigger] p.tiles@[y]@[x]) == glyph_tile(
            rows[y][x],
        )
    &&& p.connections@ == grid_marks(rows, 'C', rows.len() as int)
    &&& p.spawn_points@ == grid_marks(rows, 'S', rows.len() as int)
}

/// The outcome of reading a template, stated over its pattern's rows.
pub open spec fn parse_outcome(t: RoomTemplate, r: Result<ParsedRoom, TemplateError>) -> bool {
    let rows = pattern_rows(t.template@);
    match r {
        Ok(p) => rows.len() > 0 && !rows_ragged(rows) && glyphs_valid(rows) && parsed_from(
            p,
            t,
            rows,
        ),
        Err(TemplateError::Empty { template }) => rows.len() == 0 && template == t.name,
        Err(TemplateError::RaggedRows { template }) => rows.len() > 0 && rows_ragged(rows)
            && template == t.name,
        Err(TemplateError::InvalidGlyph { glyph, template }) => rows.len() > 0 && !rows_ragged(
            rows,
        ) && first_bad_glyph(rows, glyph) && template == t.name,
    }
}

pub fn chars_of(s: &str) -> (r: Vec<char>)
    ensures
        r@ == s@,
{
    let mut out: Vec<char> = Vec::new();
    for c in it: s.chars()
        invariant
            out@ == it.seq().take(it.index() as int),
            it.seq() == s@,
    {
        out.push(c);
    }
    out
}

fn split_into_lines(s: &Vec<char>) -> (r: Vec<Vec<char>>)
    ensures
        r@.len() == split_lines(s@).len(),
        forall|k: int| 0 <= k < r@.len() ==> (#[trigger] r@[k])@ == split_lines(s@)[k],
{
    let mut lines: Vec<Vec<char>> = Vec::new();
    let mut cur: Vec<char> = Vec::new();
    let mut i: usize = 0;
    while i < s.len()
        invariant
            i <= s@.len(),
            lines@.len() + 1 == split_lines(s@.take(i as int)).len(),
            forall|k: int|
                0 <= k < lines@.len() ==> (#[trigger] lines@[k])@ == split_lines(
                    s@.take(i as int),
                )[k],
            cur@ == split_lines(s@.take(i as int)).last(),
        decreases s@.len() - i,
    {
        let c = s[i];
        proof {
            assert(s@.take(i + 1).drop_last() =~= s@.take(i as int));
            lemma_split_lines_nonempty(s@.take(i as int));
        }
        if c == '\n' {
            lines.push(cur);
            cur = Vec::new();
        } else {
            cur.push(c);
        }
        i += 1;
    }
    proof {
        assert(s@.take(s@.len() as int) =~= s@);
    }
    lines.push(cur);
    lines
}

fn is_blank(l: &Vec<char>) -> (r: bool)
    ensures
        r == is_blank_line(l@),
{
    let mut i: usize = 0;
    while i < l.len()
        invariant
            i <= l@.len(),
            forall|k: int| 0 <= k < i ==> is_blank_char(#[trigger] l@[k]),
        decreases l@.len() - i,
    {
        let c = l[i];
        if !(c == ' ' || c == '\t' || c == '\r') {
            return false;
        }
        i += 1;
    }
    true
}

fn glyph_to_tile(c: char) -> (r: TileType)
    ensures
        r == glyph_tile(c),
{
    if c == '.' || c == 'T' || c == 'S' {
        TileType::Floor
    } else if c == 'D' {
        TileType::Door
    } else {
        TileType::Wall
    }
}

proof fn lemma_grid_marks_step(rows: Seq<Seq<char>>, g: char, m: int)
    requires
        0 <= m,
    ensures
        grid_marks(rows, g, m + 1) == grid_marks(rows, g, m) + row_marks(
            rows[m],
            m,
            g,
            rows[m].len() as int,
        ),
{
}

proof fn lemma_row_marks_within(row: Seq<char>, y: int, g: char, n: int)
    requires
        0 <= n,
        0 <= y,
    ensures
        all_within(row_marks(row, y, g, n), n, y + 1),
    decreases n,
{
    if n > 0 {
        lemma_row_marks_within(row, y, g, n - 1);
    }
}

fn glyph_known(c: char) -> (r: bool)
    ensures
        r == is_glyph(c),
{
    c == '#' || c == '.' || c == 'D' || c == 'C' || c == 'T' || c == ' ' || c == 'S'
}

/// Reads a template's pattern into a room shape.
///
/// Leading and trailing blank lines are dropped; the rest must be a non-empty
/// rectangle of known glyphs.
#[verifier::loop_isolation(false)]
pub fn parse_template(template: &RoomTemplate) -> (r: Result<ParsedRoom, TemplateError>)
    ensures
        parse_outcome(*template, r),
        r is Ok ==> r->Ok_0.wf(),
{
    let text = chars_of(template.template);
    let lines = split_into_lines(&text);
    let ghost ls = split_lines(template.template@);
    let n = lines.len();
    let mut lo: usize = 0;
    while lo < n && is_blank(&lines[lo])
        invariant
            lo <= n,
            first_content(ls, lo as int) == first_content(ls, 0),
        decreases n - lo,
    {
        lo += 1;
    }
    assert(first_content(ls, lo as int) == lo);
    let mut hi: usize = n;
    while hi > lo && is_blank(&lines[hi - 1])
        invariant
            lo <= hi <= n,
            end_content(ls, lo as int, hi as int) == end_content(ls, lo as int, n as int),
        decreases hi,
    {
        hi -= 1;
    }
    assert(end_content(ls, lo as int, hi as int) == hi);
    let ghost rows = ls.subrange(lo as int, hi as int);
    assert(rows == pattern_rows(template.template@));
    if lo == hi {
        return Err(TemplateError::Empty { template: template.name });
    }
    let width = lines[lo].len();
    let height = hi - lo;
    let mut k: usize = 0;
    while k < height
        invariant
            k <= height,
            forall|j: int| 0 <= j < k ==> (#[trigger] rows[j]).len() == width,
        decreases height - k,
    {
        if lines[lo + k].len() != width {
            assert(rows[k as int].len() != rows[0].len());
            return Err(TemplateError::RaggedRows { template: template.name });
        }
        k += 1;
    }
    assert(!rows_ragged(rows));
    let mut tiles: Vec<Vec<TileType>> = Vec::new();
    let mut connections: Vec<Position> = Vec::new();
    let mut spawn_points: Vec<Position> = Vec::new();
    let mut y: usize = 0;
    while y < height
        invariant
            y <= height,
            tiles@.len() == y,
            forall|j: int| 0 <= j < y ==> (#[trigger] tiles@[j])@.len() == width,
            forall|j: int, x: int|
                0 <= j < y && 0 <= x < width ==> (#[trigger] tiles@[j]@[x]) == glyph_tile(
                    rows[j][x],
                ),
            forall|j: int, x: int| 0 <= j < y && 0 <= x < width ==> is_glyph(#[trigger] rows[j][x]),
            connections@ == grid_marks(rows, 'C', y as int),
            spawn_points@ == grid_marks(rows, 'S', y as int),
            all_within(connections@, width as int, y as int),
            all_within(spawn_points@, width as int, y as int),
        decreases height - y,
    {
        let line = &lines[lo + y];
        let mut row: Vec<TileType> = Vec::new();
        let mut x: usize = 0;
        while x < width
            invariant
                x <= width,
                line@ == rows[y as int],
                row@.len() == x,
                forall|i: int| 0 <= i < x ==> (#[trigger] row@[i]) == glyph_tile(rows[y as int][i]),
                forall|i: int| 0 <= i < x ==> is_glyph(#[trigger] rows[y as int][i]),
                connections@ == grid_marks(rows, 'C', y as int) + row_marks(
                    rows[y as int],
                    y as int,
                    'C',
                    x as int,
                ),
                spawn_points@ == grid_marks(rows, 'S', y as int) + row_marks(
                    rows[y as int],
                    y as int,
                    'S',
                    x as int,
                ),
            decreases width - x,
        {
            let c = line[x];
            if !glyph_known(c) {
                assert(first_bad_glyph(rows, c)) by {
                    assert(rows[y as int][x as int] == c);
                }
                return Err(TemplateError::InvalidGlyph { glyph: c, template: template.name });
            }
            if c == 'C' {
                connections.push(Position { x, y });
            }
            if c == 'S' {
                spawn_points.push(Position { x, y });
            }
            proof {
                assert(connections@ =~= grid_marks(rows, 'C', y as int) + row_marks(
                    rows[y as int],
                    y as int,
                    'C',
                    x + 1,
                ));
                assert(spawn_points@ =~= grid_marks(rows, 'S', y as int) + row_marks(
                    rows[y as int],
                    y as int,
                    'S',
                    x + 1,
                ));
            }
            row.push(glyph_to_tile(c));
            x += 1;
        }
        proof {
            lemma_grid_marks_step(rows, 'C', y as int);
            lemma_grid_marks_step(rows, 'S', y as int);
            lemma_row_marks_within(rows[y as int], y as int, 'C', width as int);
            lemma_row_marks_within(rows[y as int], y as int, 'S', width as int);
        }
        tiles.push(row);
        y += 1;
    }
    Ok(
        ParsedRoom {
            name: template.name.to_owned(),
            room_type: template.room_type,
            width,
            height,
            tiles,
            connections,
            spawn_points,
            is_central: template.is_central,
        },
    )
}

} // verus!
