//! The text side of obstacle import: the file formats, the rows and cells
//! of a CSV file, the lines of an OBJ file, the normalised obstacle type
//! names, the names imported obstacles take, and which imported obstacles
//! are kept and what the unnamed ones are called.
use vstd::prelude::*;

use crate::codegen::{nat_text, push_text, push_uint};
use crate::text::{
    char_is_whitespace,
    chars_of,
    is_whitespace,
    lowercase,
    str_eq,
    string_of,
    to_lowercase,
    trim_chars,
    trimmed,
};

verus! {

/// The obstacle file formats that can be imported.
#[derive(Clone, Copy, Debug, PartialEq, Eq, Structural)]
pub enum ObstacleFormat {
    Json,
    GeoJson,
    Csv,
    Obj,
}

// ---------------------------------------------------------------------
// CSV

/// Whether `c` ends a line of a CSV file.
pub open spec fn is_line_break(c: char) -> bool {
    c == '\r' || c == '\n'
}

/// The pieces of `s` between line breaks, the current piece being `cur`
/// (as `str::split` on `\r` and `\n` gives them, empty pieces included).
pub open spec fn split_lines(s: Seq<char>, cur: Seq<char>) -> Seq<Seq<char>>
    decreases s.len(),
{
    if s.len() == 0 {
        seq![cur]
    } else if is_line_break(s[0]) {
        seq![cur] + split_lines(s.drop_first(), Seq::empty())
    } else {
        split_lines(s.drop_first(), cur.push(s[0]))
    }
}

/// Whether a line is empty or only whitespace.
pub open spec fn is_blank(line: Seq<char>) -> bool {
    forall|i: int| 0 <= i < line.len() ==> char_is_whitespace(#[trigger] line[i])
}

/// The cells of a line from position `p`: `cur` is the cell being read,
/// `quoted` whether a quoted part is open, `cells` the cells before it.
/// Quotes open and close quoted parts and are dropped, a doubled quote in
/// a quoted part stands for one quote, and commas outside quoted parts
/// separate cells.
pub open spec fn cells_from(line: Seq<char>, p: int, cur: Seq<char>, quoted: bool, cells: Seq<Seq<char>>) -> Seq<Seq<char>>
    decreases line.len() - p,
{
    if p < 0 || p >= line.len() {
        cells.push(cur)
    } else {
        let c = line[p];
        if quoted {
            if c == '"' {
                if p + 1 < line.len() && line[p + 1] == '"' {
                    cells_from(line, p + 2, cur.push('"'), true, cells)
                } else {
                    cells_from(line, p + 1, cur, false, cells)
                }
            } else {
                cells_from(line, p + 1, cur.push(c), true, cells)
            }
        } else if c == '"' {
            cells_from(line, p + 1, cur, true, cells)
        } else if c == ',' {
            cells_from(line, p + 1, Seq::empty(), false, cells.push(cur))
        } else {
            cells_from(line, p + 1, cur.push(c), false, cells)
        }
    }
}

/// The cells of one line.
pub open spec fn csv_cells(line: Seq<char>) -> Seq<Seq<char>> {
    cells_from(line, 0, Seq::empty(), false, Seq::empty())
}

/// The rows of the lines `ls` that are not blank.
pub open spec fn rows_of(ls: Seq<Seq<char>>) -> Seq<Seq<Seq<char>>>
    decreases ls.len(),
{
    if ls.len() == 0 {
        Seq::empty()
    } else if is_blank(ls.last()) {
        rows_of(ls.drop_last())
    } else {
        rows_of(ls.drop_last()).push(csv_cells(ls.last()))
    }
}

/// The rows of a CSV text: its non-blank lines, split into cells.
pub open spec fn csv_rows(text: Seq<char>) -> Seq<Seq<Seq<char>>> {
    rows_of(split_lines(text, Seq::empty()))
}

/// The characters of each cell of each row.
pub open spec fn rows_view(rows: Seq<Vec<String>>) -> Seq<Seq<Seq<char>>> {
    Seq::new(rows.len(), |i: int| Seq::new(rows[i]@.len(), |j: int| rows[i]@[j]@))
}

/// The lines of `text`, split at each `\r` and `\n`.
fn split_text_lines(text: &Vec<char>) -> (lines: Vec<Vec<char>>)
    ensures
        lines@.len() == split_lines(text@, Seq::empty()).len(),
        forall|i: int| 0 <= i < lines@.len() ==> #[trigger] lines@[i]@ == split_lines(text@, Seq::empty())[i],
{
    let mut lines: Vec<Vec<char>> = Vec::new();
    let mut cur: Vec<char> = Vec::new();
    let mut i: usize = 0;
    let ghost whole = split_lines(text@, Seq::empty());
    assert(text@.skip(0) =~= text@);
    while i < text.len()
        invariant
            i <= text.len(),
            whole == split_lines(text@, Seq::empty()),
            whole == Seq::new(lines@.len(), |k: int| lines@[k]@) + split_lines(text@.skip(i as int), cur@),
        decreases text.len() - i,
    {
        let ghost done = Seq::new(lines@.len(), |k: int| lines@[k]@);
        let ghost rest = text@.skip(i as int);
        assert(rest[0] == text@[i as int]);
        assert(rest.drop_first() =~= text@.skip(i + 1));
        let c = text[i];
        if c == '\r' || c == '\n' {
            let ghost finished = cur@;
            lines.push(cur);
            cur = Vec::new();
            assert(Seq::new(lines@.len(), |k: int| lines@[k]@) =~= done.push(finished));
            assert(done + (seq![finished] + split_lines(text@.skip(i + 1), Seq::empty())) =~= done.push(
                finished,
            ) + split_lines(text@.skip(i + 1), Seq::empty()));
        } else {
            cur.push(c);
            assert(Seq::new(lines@.len(), |k: int| lines@[k]@) =~= done);
        }
        i += 1;
    }
    let ghost done = Seq::new(lines@.len(), |k: int| lines@[k]@);
    assert(text@.skip(i as int) =~= Seq::<char>::empty());
    let ghost last = cur@;
    lines.push(cur);
    assert(Seq::new(lines@.len(), |k: int| lines@[k]@) =~= done + seq![last]);
    assert forall|k: int| 0 <= k < lines@.len() implies #[trigger] lines@[k]@ == whole[k] by {
        assert(Seq::new(lines@.len(), |k: int| lines@[k]@)[k] == lines@[k]@);
    }
    lines
}

/// Whether a line holds only whitespace.
fn blank_line(line: &Vec<char>) -> (r: bool)
    ensures
        r == is_blank(line@),
{
    let mut i: usize = 0;
    while i < line.len()
        invariant
            i <= line.len(),
            forall|k: int| 0 <= k < i ==> char_is_whitespace(#[trigger] line@[k]),
        decreases line.len() - i,
    {
        if !is_whitespace(line[i]) {
            return false;
        }
        i += 1;
    }
    true
}

/// The cells of one line.
fn line_cells(line: &Vec<char>) -> (cells: Vec<String>)
    ensures
        cells@.len() == csv_cells(line@).len(),
        forall|j: int| 0 <= j < cells@.len() ==> #[trigger] cells@[j]@ == csv_cells(line@)[j],
{
    let ghost all = csv_cells(line@);
    let mut cells: Vec<String> = Vec::new();
    let mut cur: Vec<char> = Vec::new();
    let mut quoted = false;
    let mut p: usize = 0;
    assert(Seq::new(cells@.len(), |j: int| cells@[j]@) =~= Seq::<Seq<char>>::empty());
    while p < line.len()
        invariant
            p <= line.len(),
            all == csv_cells(line@),
            all == cells_from(line@, p as int, cur@, quoted, Seq::new(cells@.len(), |j: int| cells@[j]@)),
        decreases line.len() - p,
    {
        let ghost done = Seq::new(cells@.len(), |j: int| cells@[j]@);
        let c = line[p];
        if quoted {
            if c == '"' {
                if p + 1 < line.len() && line[p + 1] == '"' {
                    cur.push('"');
                    p += 2;
                } else {
                    quoted = false;
                    p += 1;
                }
            } else {
                cur.push(c);
                p += 1;
            }
        } else if c == '"' {
            quoted = true;
            p += 1;
        } else if c == ',' {
            let ghost finished = cur@;
            cells.push(string_of(&cur));
            cur = Vec::new();
            assert(Seq::new(cells@.len(), |j: int| cells@[j]@) =~= done.push(finished));
            p += 1;
        } else {
            cur.push(c);
            p += 1;
        }
    }
    let ghost done = Seq::new(cells@.len(), |j: int| cells@[j]@);
    let ghost last = cur@;
    cells.push(string_of(&cur));
    assert(Seq::new(cells@.len(), |j: int| cells@[j]@) =~= done.push(last));
    assert forall|j: int| 0 <= j < cells@.len() implies #[trigger] cells@[j]@ == all[j] by {
        assert(Seq::new(cells@.len(), |j: int| cells@[j]@)[j] == cells@[j]@);
    }
    cells
}

/// Splits a CSV text into rows of cells: one row per line that is not
/// blank, lines ending at `\r` or `\n`.
pub fn parse_csv_rows(text: &str) -> (rows: Vec<Vec<String>>)
    ensures
        rows_view(rows@) == csv_rows(text@),
{
    let chars = chars_of(text);
    let lines = split_text_lines(&chars);
    let ghost ls = split_lines(text@, Seq::empty());
    let mut rows: Vec<Vec<String>> = Vec::new();
    let mut k: usize = 0;
    assert(ls.take(0) =~= Seq::<Seq<char>>::empty());
    assert(rows_view(rows@) =~= Seq::<Seq<Seq<char>>>::empty());
    while k < lines.len()
        invariant
            k <= lines.len(),
            lines@.len() == ls.len(),
            ls == split_lines(text@, Seq::empty()),
            forall|i: int| 0 <= i < lines@.len() ==> #[trigger] lines@[i]@ == ls[i],
            rows_view(rows@) == rows_of(ls.take(k as int)),
        decreases lines.len() - k,
    {
        let ghost before = rows_view(rows@);
        assert(ls.take(k + 1).drop_last() =~= ls.take(k as int));
        assert(ls.take(k + 1).last() == lines@[k as int]@);
        if !blank_line(&lines[k]) {
            let cells = line_cells(&lines[k]);
            let ghost row = Seq::new(cells@.len(), |j: int| cells@[j]@);
            assert(row =~= csv_cells(lines@[k as int]@));
            rows.push(cells);
            assert(rows_view(rows@) =~= before.push(row));
        }
        k += 1;
    }
    assert(ls.take(k as int) =~= ls);
    rows
}

/// The column names of a CSV header row: each cell trimmed and lowercased.
pub fn csv_header(row: &Vec<String>) -> (names: Vec<String>)
    ensures
        names@.len() == row@.len(),
        forall|i: int| 0 <= i < row@.len() ==> #[trigger] names@[i]@ == lowercase(trimmed(row@[i]@)),
{
    let mut names: Vec<String> = Vec::new();
    let mut i: usize = 0;
    while i < row.len()
        invariant
            i <= row.len(),
            names@.len() == i,
            forall|k: int| 0 <= k < i ==> #[trigger] names@[k]@ == lowercase(trimmed(row@[k]@)),
        decreases row.len() - i,
    {
        let cell = chars_of(row[i].as_str());
        let t = string_of(&trim_chars(&cell));
        names.push(to_lowercase(t.as_str()));
        i += 1;
    }
    names
}

/// Whether a data row is left out of an import: no cells, or one cell
/// that is only whitespace.
pub open spec fn is_skipped_row(row: Seq<Seq<char>>) -> bool {
    row.len() == 0 || (row.len() == 1 && trimmed(row[0]).len() == 0)
}

/// Whether a data row is left out of an import.
pub fn csv_row_skipped(row: &Vec<String>) -> (r: bool)
    ensures
        r == is_skipped_row(Seq::new(row@.len(), |i: int| row@[i]@)),
{
    if row.len() == 0 {
        return true;
    }
    if row.len() == 1 {
        let cell = chars_of(row[0].as_str());
        let t = trim_chars(&cell);
        return t.len() == 0;
    }
    false
}

/// The first column of `header` named `key`, if any.
pub open spec fn column_of(header: Seq<Seq<char>>, key: Seq<char>) -> Option<int>
    decreases header.len(),
{
    if header.len() == 0 {
        None
    } else if header.last() == key && column_of(header.drop_last(), key) is None {
        Some(header.len() - 1)
    } else {
        column_of(header.drop_last(), key)
    }
}

/// The cell of `row` in the first column named `key`, when the row has it.
pub open spec fn field_of(header: Seq<Seq<char>>, row: Seq<Seq<char>>, key: Seq<char>) -> Option<Seq<char>> {
    match column_of(header, key) {
        Some(i) => if i < row.len() {
            Some(row[i])
        } else {
            None
        },
        None => None,
    }
}

proof fn lemma_column_of_prefix(header: Seq<Seq<char>>, key: Seq<char>, i: int)
    requires
        0 <= i < header.len(),
        header[i] == key,
        forall|k: int| 0 <= k < i ==> header[k] != key,
    ensures
        column_of(header, key) == Some(i),
    decreases header.len(),
{
    if header.len() - 1 > i {
        lemma_column_of_prefix(header.drop_last(), key, i);
    } else {
        lemma_column_absent(header.drop_last(), key);
    }
}

proof fn lemma_column_absent(header: Seq<Seq<char>>, key: Seq<char>)
    requires
        forall|k: int| 0 <= k < header.len() ==> header[k] != key,
    ensures
        column_of(header, key) is None,
    decreases header.len(),
{
    if header.len() > 0 {
        lemma_column_absent(header.drop_last(), key);
    }
}

/// The cell of `row` in the first column of `header` named `key`.
pub fn csv_field(header: &Vec<String>, row: &Vec<String>, key: &str) -> (cell: Option<String>)
    ensures
        match field_of(
            Seq::new(header@.len(), |i: int| header@[i]@),
            Seq::new(row@.len(), |i: int| row@[i]@),
            key@,
        ) {
            Some(c) => cell is Some && cell->0@ == c,
            None => cell is None,
        },
{
    let ghost h = Seq::new(header@.len(), |i: int| header@[i]@);
    let mut i: usize = 0;
    while i < header.len()
        invariant
            i <= header.len(),
            h == Seq::new(header@.len(), |k: int| header@[k]@),
            forall|k: int| 0 <= k < i ==> h[k] != key@,
        decreases header.len() - i,
    {
        if str_eq(header[i].as_str(), key) {
            proof {
                lemma_column_of_prefix(h, key@, i as int);
            }
            if i < row.len() {
                return Some(row[i].clone());
            }
            return None;
        }
        i += 1;
    }
    proof {
        lemma_column_absent(h, key@);
    }
    None
}

/// Whether a cell has no quote and no comma, so that it needs no quoting.
pub open spec fn is_plain_cell(cell: Seq<char>) -> bool {
    forall|i: int| 0 <= i < cell.len() ==> #[trigger] cell[i] != '"' && cell[i] != ','
}

/// Cells written one after another with commas between them.
pub open spec fn join_cells(cells: Seq<Seq<char>>) -> Seq<char>
    decreases cells.len(),
{
    if cells.len() <= 1 {
        if cells.len() == 1 {
            cells[0]
        } else {
            Seq::empty()
        }
    } else {
        cells[0] + seq![','] + join_cells(cells.drop_first())
    }
}

proof fn lemma_plain_run(s: Seq<char>, p: int, t: Seq<char>, cur: Seq<char>, cells: Seq<Seq<char>>)
    requires
        0 <= p,
        p + t.len() <= s.len(),
        s.subrange(p, p + t.len()) == t,
        is_plain_cell(t),
    ensures
        cells_from(s, p, cur, false, cells) == cells_from(s, p + t.len(), cur + t, false, cells),
    decreases t.len(),
{
    if t.len() == 0 {
        assert(cur + t =~= cur);
    } else {
        assert(s[p] == s.subrange(p, p + t.len())[0]);
        assert(s.subrange(p + 1, p + 1 + t.drop_first().len()) =~= t.drop_first());
        lemma_plain_run(s, p + 1, t.drop_first(), cur.push(t[0]), cells);
        assert(cur.push(t[0]) + t.drop_first() =~= cur + t);
    }
}

proof fn lemma_joined_cells(s: Seq<char>, p: int, cells: Seq<Seq<char>>, acc: Seq<Seq<char>>)
    requires
        0 <= p <= s.len(),
        cells.len() >= 1,
        forall|k: int| 0 <= k < cells.len() ==> is_plain_cell(#[trigger] cells[k]),
        s.skip(p) == join_cells(cells),
    ensures
        cells_from(s, p, Seq::empty(), false, acc) == acc + cells,
    decreases cells.len(),
{
    let c = cells[0];
    let j = join_cells(cells);
    if cells.len() == 1 {
        assert(j == c);
    } else {
        assert(j == c + seq![','] + join_cells(cells.drop_first()));
    }
    assert(j.subrange(0, c.len() as int) =~= c);
    assert(s.subrange(p, p + c.len()) =~= s.skip(p).subrange(0, c.len() as int));
    assert(is_plain_cell(cells[0]));
    lemma_plain_run(s, p, c, Seq::empty(), acc);
    assert(Seq::<char>::empty() + c =~= c);
    if cells.len() == 1 {
        assert(s.len() == p + c.len());
        assert(acc.push(c) =~= acc + cells);
    } else {
        let rest = cells.drop_first();
        assert(s[p + c.len()] == s.skip(p)[c.len() as int]);
        assert(s.skip(p + c.len() + 1) =~= join_cells(rest)) by {
            assert(j == c + seq![','] + join_cells(rest));
            assert(j.skip(c.len() + 1 as int) =~= join_cells(rest));
            assert(s.skip(p + c.len() + 1) =~= s.skip(p).skip(c.len() + 1 as int));
        }
        assert forall|k: int| 0 <= k < rest.len() implies is_plain_cell(#[trigger] rest[k]) by {
            assert(rest[k] == cells[k + 1]);
        }
        lemma_joined_cells(s, p + c.len() + 1, rest, acc.push(c));
        assert(acc.push(c) + rest =~= acc + cells);
    }
}

/// A line of cells without quotes or commas, joined by commas, is read
/// back as exactly those cells.
pub proof fn law_plain_cells_round_trip(cells: Seq<Seq<char>>)
    requires
        cells.len() >= 1,
        forall|k: int| 0 <= k < cells.len() ==> is_plain_cell(#[trigger] cells[k]),
    ensures
        csv_cells(join_cells(cells)) == cells,
{
    let s = join_cells(cells);
    assert(s.skip(0) =~= s);
    lemma_joined_cells(s, 0, cells, Seq::empty());
    assert(Seq::<Seq<char>>::empty() + cells =~= cells);
}

// ---------------------------------------------------------------------
// Obstacle types

/// Whether `t` is the name of an obstacle type.
pub open spec fn is_obstacle_type(t: Seq<char>) -> bool {
    t == "wall"@ || t == "tower"@ || t == "hoop"@ || t == "cone"@ || t == "square"@ || t == "sphere"@
}

/// The obstacle type that an imported type field stands for: its
/// lowercase form when that names an obstacle type, else `wall`.
pub open spec fn normalized_type(value: Option<Seq<char>>) -> Seq<char> {
    match value {
        Some(t) => if is_obstacle_type(lowercase(t)) {
            lowercase(t)
        } else {
            "wall"@
        },
        None => "wall"@,
    }
}

/// Whether `t` is the name of an obstacle type.
pub fn obstacle_type_known(t: &str) -> (r: bool)
    ensures
        r == is_obstacle_type(t@),
{
    str_eq(t, "wall") || str_eq(t, "tower") || str_eq(t, "hoop") || str_eq(t, "cone") || str_eq(t, "square")
        || str_eq(t, "sphere")
}

/// The obstacle type of an imported type field.
pub fn norm_type(value: Option<&str>) -> (t: String)
    ensures
        t@ == normalized_type(
            match value {
                Some(v) => Some(v@),
                None => None,
            },
        ),
{
    match value {
        Some(text) => {
            let lower = to_lowercase(text);
            if obstacle_type_known(lower.as_str()) {
                lower
            } else {
                "wall".to_owned()
            }
        },
        None => "wall".to_owned(),
    }
}

/// An imported type field always becomes the name of an obstacle type.
pub proof fn law_normalized_type_is_known(value: Option<Seq<char>>)
    ensures
        is_obstacle_type(normalized_type(value)),
{
}

/// The obstacle types are wall, tower, hoop, cone, square and sphere: a
/// name is known exactly when it is one of these six, and a type field
/// already in lowercase is kept exactly when it is one of them, and
/// becomes `wall` otherwise.
pub proof fn law_obstacle_type_names_kept(t: Seq<char>)
    ensures
        is_obstacle_type(t) <==> seq!["wall"@, "tower"@, "hoop"@, "cone"@, "square"@, "sphere"@].contains(t),
        lowercase(t) == t ==> normalized_type(Some(t)) == (if seq![
            "wall"@,
            "tower"@,
            "hoop"@,
            "cone"@,
            "square"@,
            "sphere"@,
        ].contains(t) {
            t
        } else {
            "wall"@
        }),
{
    let names = seq!["wall"@, "tower"@, "hoop"@, "cone"@, "square"@, "sphere"@];
    if is_obstacle_type(t) {
        if t == "wall"@ {
            assert(names[0] == t);
        } else if t == "tower"@ {
            assert(names[1] == t);
        } else if t == "hoop"@ {
            assert(names[2] == t);
        } else if t == "cone"@ {
            assert(names[3] == t);
        } else if t == "square"@ {
            assert(names[4] == t);
        } else {
            assert(names[5] == t);
        }
    } else {
        assert(!names.contains(t));
    }
}

// ---------------------------------------------------------------------
// Accepting imported obstacles

/// A text's view, if there is a text.
pub open spec fn text_view(o: Option<String>) -> Option<Seq<char>> {
    match o {
        Some(t) => Some(t@),
        None => None,
    }
}

/// The name an imported obstacle takes from its `name` text (when that
/// field is a text) and its `label` (as text, when that field is there
/// and not null): the name when it holds more than whitespace, else the
/// label when it is not empty, else none.
pub open spec fn imported_name(name: Option<Seq<char>>, label: Option<Seq<char>>) -> Option<Seq<char>> {
    if name is Some && trimmed(name->0).len() > 0 {
        name
    } else if label is Some && label->0.len() > 0 {
        label
    } else {
        None
    }
}

/// The name an imported obstacle takes from its `name` and `label`.
pub fn name_from_fields(name: Option<String>, label: Option<String>) -> (r: Option<String>)
    ensures
        text_view(r) == imported_name(text_view(name), text_view(label)),
{
    if let Some(text) = &name {
        let chars = chars_of(text.as_str());
        if trim_chars(&chars).len() > 0 {
            return name;
        }
    }
    match label {
        Some(text) => {
            if text.as_str().is_empty() {
                None
            } else {
                Some(text)
            }
        },
        None => None,
    }
}

/// The name of the obstacle made from GeoJSON feature `index` (from 0),
/// from the texts of its `name` and `title` properties and its `id`: the
/// trimmed name when that is not blank, else the title or else the id
/// when not empty, else `Geo Obstacle` and its number from 1.
pub open spec fn feature_name_of(
    name: Option<Seq<char>>,
    title: Option<Seq<char>>,
    id: Option<Seq<char>>,
    index: nat,
) -> Seq<char> {
    if name is Some && trimmed(name->0).len() > 0 {
        trimmed(name->0)
    } else if title is Some && title->0.len() > 0 {
        title->0
    } else if id is Some && id->0.len() > 0 {
        id->0
    } else {
        "Geo Obstacle "@ + nat_text(index + 1)
    }
}

/// The name of the obstacle made from GeoJSON feature `index`.
pub fn feature_name(name: Option<String>, title: Option<String>, id: Option<String>, index: usize) -> (r: String)
    requires
        index < usize::MAX,
    ensures
        r@ == feature_name_of(text_view(name), text_view(title), text_view(id), index as nat),
{
    if let Some(text) = &name {
        let chars = chars_of(text.as_str());
        let kept = trim_chars(&chars);
        if kept.len() > 0 {
            return string_of(&kept);
        }
    }
    if let Some(text) = title {
        if !text.as_str().is_empty() {
            return text;
        }
    }
    if let Some(text) = id {
        if !text.as_str().is_empty() {
            return text;
        }
    }
    let mut out: Vec<char> = Vec::new();
    push_text(&mut out, "Geo Obstacle ");
    push_uint(&mut out, index as u64 + 1);
    string_of(&out)
}

/// What an import reads of one obstacle: its type, its name, and whether
/// its position lies inside the flight boundary.
pub struct ImportEntry {
    pub obstacle_type: String,
    pub name: String,
    pub inside: bool,
}

/// An entry as plain values.
pub open spec fn entry_view(e: ImportEntry) -> (Seq<char>, Seq<char>, bool) {
    (e.obstacle_type@, e.name@, e.inside)
}

/// The entries as plain values.
pub open spec fn entry_views(es: Seq<ImportEntry>) -> Seq<(Seq<char>, Seq<char>, bool)> {
    es.map_values(|e: ImportEntry| entry_view(e))
}

/// The name an accepted obstacle keeps: its own, or when it has none its
/// type, a space and `n`, its number among the accepted ones.
pub open spec fn import_name(obstacle_type: Seq<char>, name: Seq<char>, n: nat) -> Seq<char> {
    if name.len() == 0 {
        obstacle_type + seq![' '] + nat_text(n)
    } else {
        name
    }
}

/// The accepted entries of `es`, in order: each with its index in `es` and
/// the name it keeps.
pub open spec fn import_kept(es: Seq<(Seq<char>, Seq<char>, bool)>) -> Seq<(int, Seq<char>)>
    decreases es.len(),
{
    if es.len() == 0 {
        Seq::empty()
    } else {
        let prev = import_kept(es.drop_last());
        let e = es.last();
        if e.2 {
            prev.push(((es.len() - 1) as int, import_name(e.0, e.1, prev.len() + 1)))
        } else {
            prev
        }
    }
}

/// How many entries of `es` lie outside the boundary.
pub open spec fn import_rejected(es: Seq<(Seq<char>, Seq<char>, bool)>) -> nat
    decreases es.len(),
{
    if es.len() == 0 {
        0
    } else {
        import_rejected(es.drop_last()) + if es.last().2 {
            0nat
        } else {
            1nat
        }
    }
}

proof fn lemma_import_counts(es: Seq<(Seq<char>, Seq<char>, bool)>)
    ensures
        import_kept(es).len() + import_rejected(es) == es.len(),
    decreases es.len(),
{
    if es.len() > 0 {
        lemma_import_counts(es.drop_last());
    }
}

/// The name `obstacle_type`, a space and `n`.
fn numbered_name(obstacle_type: &str, n: u64) -> (r: String)
    ensures
        r@ == obstacle_type@ + seq![' '] + nat_text(n as nat),
{
    let mut out: Vec<char> = Vec::new();
    push_text(&mut out, obstacle_type);
    out.push(' ');
    push_uint(&mut out, n);
    string_of(&out)
}

/// Accepts the obstacles that lie inside the boundary, in order, naming
/// each one that has no name after its type and its number among the
/// accepted; returns, for each accepted one, its index and name, and the
/// number of those left out.
pub fn import_names(entries: &Vec<ImportEntry>) -> (r: (Vec<(usize, String)>, usize))
    ensures
        r.0@.map_values(|k: (usize, String)| (k.0 as int, k.1@)) == import_kept(
            entry_views(entries@),
        ),
        r.1 == import_rejected(entry_views(entries@)),
        r.0.len() + r.1 == entries.len(),
{
    let ghost es = entry_views(entries@);
    let mut kept: Vec<(usize, String)> = Vec::new();
    let mut rejected: usize = 0;
    let mut i: usize = 0;
    while i < entries.len()
        invariant
            i <= entries.len(),
            es == entry_views(entries@),
            kept@.map_values(|k: (usize, String)| (k.0 as int, k.1@)) == import_kept(
                es.take(i as int),
            ),
            rejected == import_rejected(es.take(i as int)),
            kept.len() + rejected == i,
        decreases entries.len() - i,
    {
        proof {
            assert(es.take(i + 1).drop_last() =~= es.take(i as int));
            assert(es.take(i + 1).last() == entry_view(entries@[i as int]));
            lemma_import_counts(es.take(i as int));
        }
        let entry = &entries[i];
        if entry.inside {
            let name = if entry.name.as_str().is_empty() {
                numbered_name(entry.obstacle_type.as_str(), kept.len() as u64 + 1)
            } else {
                entry.name.clone()
            };
            let ghost before = kept@;
            kept.push((i, name));
            proof {
                assert(kept@.map_values(|k: (usize, String)| (k.0 as int, k.1@)) =~= before.map_values(
                    |k: (usize, String)| (k.0 as int, k.1@),
                ).push((i as int, name@)));
            }
        } else {
            rejected += 1;
        }
        i += 1;
    }
    assert(es.take(i as int) =~= es);
    (kept, rejected)
}

/// Importing keeps exactly the entries inside the boundary, in their
/// order, and numbers each unnamed one by its place among the kept ones:
/// the `j`-th kept entry (from 0) is one inside the boundary, comes after
/// the one before it, and is named `type j+1` when it had no name.
pub proof fn law_import_numbers_by_kept_place(es: Seq<(Seq<char>, Seq<char>, bool)>, j: int)
    requires
        0 <= j < import_kept(es).len(),
    ensures
        0 <= import_kept(es)[j].0 < es.len(),
        es[import_kept(es)[j].0].2,
        import_kept(es)[j].1 == import_name(
            es[import_kept(es)[j].0].0,
            es[import_kept(es)[j].0].1,
            (j + 1) as nat,
        ),
        j > 0 ==> import_kept(es)[j - 1].0 < import_kept(es)[j].0,
    decreases es.len(),
{
    let prev = import_kept(es.drop_last());
    if j < prev.len() {
        law_import_numbers_by_kept_place(es.drop_last(), j);
    } else if j > 0 {
        law_import_numbers_by_kept_place(es.drop_last(), j - 1);
    }
}

// ---------------------------------------------------------------------
// OBJ files

/// The words of `s` (runs of non-whitespace, as `str::split_whitespace`
/// gives them), `cur` being the word being read.
pub open spec fn words_acc(s: Seq<char>, cur: Seq<char>) -> Seq<Seq<char>>
    decreases s.len(),
{
    if s.len() == 0 {
        if cur.len() > 0 {
            seq![cur]
        } else {
            Seq::empty()
        }
    } else if char_is_whitespace(s[0]) {
        (if cur.len() > 0 {
            seq![cur]
        } else {
            Seq::empty()
        }) + words_acc(s.drop_first(), Seq::empty())
    } else {
        words_acc(s.drop_first(), cur.push(s[0]))
    }
}

/// The words of `s`.
pub open spec fn words(s: Seq<char>) -> Seq<Seq<char>> {
    words_acc(s, Seq::empty())
}

/// The characters of each text.
pub open spec fn texts_view(v: Seq<Vec<char>>) -> Seq<Seq<char>> {
    Seq::new(v.len(), |k: int| v[k]@)
}

/// The words of a line.
fn split_words(s: &Vec<char>) -> (ws: Vec<Vec<char>>)
    ensures
        texts_view(ws@) == words(s@),
{
    let mut ws: Vec<Vec<char>> = Vec::new();
    let mut cur: Vec<char> = Vec::new();
    let mut i: usize = 0;
    let ghost whole = words(s@);
    assert(s@.skip(0) =~= s@);
    assert(texts_view(ws@) =~= Seq::<Seq<char>>::empty());
    while i < s.len()
        invariant
            i <= s.len(),
            whole == words(s@),
            whole == texts_view(ws@) + words_acc(s@.skip(i as int), cur@),
        decreases s.len() - i,
    {
        let ghost done = texts_view(ws@);
        let ghost rest = s@.skip(i as int);
        assert(rest[0] == s@[i as int]);
        assert(rest.drop_first() =~= s@.skip(i + 1));
        let c = s[i];
        let ghost before = cur@;
        if is_whitespace(c) {
            assert(words_acc(rest, before) == (if before.len() > 0 {
                seq![before]
            } else {
                Seq::empty()
            }) + words_acc(s@.skip(i + 1), Seq::empty()));
            if cur.len() > 0 {
                let ghost finished = cur@;
                ws.push(cur);
                cur = Vec::new();
                assert(texts_view(ws@) =~= done.push(finished));
                assert(done + (seq![finished] + words_acc(s@.skip(i + 1), Seq::empty())) =~= done.push(
                    finished,
                ) + words_acc(s@.skip(i + 1), Seq::empty()));
            } else {
                assert(cur@ =~= Seq::<char>::empty());
                assert(Seq::<Seq<char>>::empty() + words_acc(s@.skip(i + 1), Seq::empty()) =~= words_acc(
                    s@.skip(i + 1),
                    Seq::empty(),
                ));
            }
        } else {
            assert(words_acc(rest, before) == words_acc(s@.skip(i + 1), before.push(c)));
            cur.push(c);
        }
        i += 1;
    }
    let ghost done = texts_view(ws@);
    assert(s@.skip(i as int) =~= Seq::<char>::empty());
    if cur.len() > 0 {
        let ghost last = cur@;
        ws.push(cur);
        assert(texts_view(ws@) =~= done + seq![last]);
    } else {
        assert(done + Seq::<Seq<char>>::empty() =~= done);
    }
    ws
}

/// Words joined by single spaces.
pub open spec fn spaced(ws: Seq<Seq<char>>) -> Seq<char>
    decreases ws.len(),
{
    if ws.len() == 0 {
        Seq::empty()
    } else if ws.len() == 1 {
        ws[0]
    } else {
        spaced(ws.drop_last()) + seq![' '] + ws.last()
    }
}

/// The words of `ws` from `from` on, joined by single spaces.
fn join_words_from(ws: &Vec<Vec<char>>, from: usize) -> (r: Vec<char>)
    requires
        from <= ws.len(),
    ensures
        r@ == spaced(texts_view(ws@).skip(from as int)),
{
    let ghost all = texts_view(ws@);
    let mut out: Vec<char> = Vec::new();
    let mut k: usize = from;
    assert(all.subrange(from as int, from as int) =~= Seq::<Seq<char>>::empty());
    while k < ws.len()
        invariant
            from <= k <= ws.len(),
            all == texts_view(ws@),
            out@ == spaced(all.subrange(from as int, k as int)),
        decreases ws.len() - k,
    {
        let ghost prev = all.subrange(from as int, k as int);
        let ghost next = all.subrange(from as int, k + 1);
        assert(next.drop_last() =~= prev);
        assert(next.last() == ws@[k as int]@);
        if k > from {
            out.push(' ');
        }
        let ghost head = out@;
        let mut j: usize = 0;
        while j < ws[k].len()
            invariant
                k < ws.len(),
                j <= ws@[k as int]@.len(),
                out@ == head + ws@[k as int]@.take(j as int),
            decreases ws@[k as int]@.len() - j,
        {
            out.push(ws[k][j]);
            assert(out@ =~= head + ws@[k as int]@.take(j + 1));
            j += 1;
        }
        assert(ws@[k as int]@.take(j as int) =~= ws@[k as int]@);
        assert(out@ =~= spaced(next));
        k += 1;
    }
    assert(all.subrange(from as int, k as int) =~= all.skip(from as int));
    out
}

/// The coordinate texts of vertices.
pub open spec fn vertex_views(v: Seq<(String, String, String)>) -> Seq<(Seq<char>, Seq<char>, Seq<char>)> {
    Seq::new(v.len(), |k: int| (v[k].0@, v[k].1@, v[k].2@))
}

/// The coordinate texts of a `v` line with at least three coordinates.
pub open spec fn line_vertex(line: Seq<char>) -> Option<(Seq<char>, Seq<char>, Seq<char>)> {
    let w = words(line);
    if w.len() >= 4 && w[0] == seq!['v'] {
        Some((w[1], w[2], w[3]))
    } else {
        None
    }
}

/// The name an `o` or `g` line gives: its words after the tag, joined by
/// spaces; none when there are none.
pub open spec fn line_name(line: Seq<char>) -> Option<Seq<char>> {
    let w = words(line);
    let n = if w.len() > 0 {
        spaced(w.skip(1))
    } else {
        Seq::empty()
    };
    if n.len() == 0 {
        None
    } else {
        Some(n)
    }
}

/// The reader's state after one more line `raw` of an OBJ file: the line
/// is trimmed; a blank line or a `#` comment changes nothing; a `v` line
/// adds its vertex; an `o` or `g` line sets the name; an `f` line counts
/// a face.
#[verifier::opaque]
pub open spec fn obj_step(
    st: (Seq<(Seq<char>, Seq<char>, Seq<char>)>, Option<Seq<char>>, nat),
    raw: Seq<char>,
) -> (Seq<(Seq<char>, Seq<char>, Seq<char>)>, Option<Seq<char>>, nat) {
    let (vs, name, faces) = st;
    let line = trimmed(raw);
    if line.len() == 0 || line[0] == '#' {
        st
    } else if line[0] == 'v' {
        match line_vertex(line) {
            Some(v) => (vs.push(v), name, faces),
            None => st,
        }
    } else if line[0] == 'o' || line[0] == 'g' {
        (vs, line_name(line), faces)
    } else if line[0] == 'f' {
        (vs, name, faces + 1)
    } else {
        st
    }
}

/// What the lines `ls` of an OBJ file give: the coordinate texts of the
/// vertices, the last name, and the number of faces.
pub open spec fn obj_lines(ls: Seq<Seq<char>>) -> (Seq<(Seq<char>, Seq<char>, Seq<char>)>, Option<Seq<char>>, nat)
    decreases ls.len(),
{
    if ls.len() == 0 {
        (Seq::empty(), None, 0)
    } else {
        obj_step(obj_lines(ls.drop_last()), ls.last())
    }
}

/// What an OBJ text gives, its lines split at each `\r` and `\n`.
pub open spec fn obj_scan_of(text: Seq<char>) -> (Seq<(Seq<char>, Seq<char>, Seq<char>)>, Option<Seq<char>>, nat) {
    obj_lines(split_lines(text, Seq::empty()))
}

/// What the OBJ reader takes from a file before it builds obstacles.
pub struct ObjScan {
    /// The texts of the three coordinates of each vertex.
    pub vertices: Vec<(String, String, String)>,
    /// The last object or group name.
    pub name: Option<String>,
    /// How many faces there are.
    pub faces: usize,
}

/// The vertex of a line, if it is a `v` line with three coordinates.
fn vertex_of_line(line: &Vec<char>) -> (r: Option<(String, String, String)>)
    ensures
        match r {
            Some(v) => line_vertex(line@) == Some((v.0@, v.1@, v.2@)),
            None => line_vertex(line@) is None,
        },
{
    let w = split_words(line);
    if w.len() >= 4 && w[0].len() == 1 && w[0][0] == 'v' {
        assert(texts_view(w@)[0] =~= seq!['v']);
        Some((string_of(&w[1]), string_of(&w[2]), string_of(&w[3])))
    } else {
        if w.len() >= 4 {
            assert(texts_view(w@)[0] != seq!['v']) by {
                if w[0].len() == 1 {
                    assert(texts_view(w@)[0][0] != seq!['v'][0]);
                }
            }
        }
        None
    }
}

/// The name an `o` or `g` line gives.
fn name_of_line(line: &Vec<char>) -> (r: Option<String>)
    ensures
        text_view(r) == line_name(line@),
{
    let w = split_words(line);
    let joined = if w.len() == 0 {
        Vec::new()
    } else {
        join_words_from(&w, 1)
    };
    if joined.len() == 0 {
        None
    } else {
        Some(string_of(&joined))
    }
}

/// Reads one line of an OBJ file into the reader's state.
#[verifier::rlimit(60)]
fn read_obj_line(
    raw: &Vec<char>,
    vertices: &mut Vec<(String, String, String)>,
    name: &mut Option<String>,
    faces: &mut usize,
)
    requires
        *old(faces) < usize::MAX,
    ensures
        (vertex_views(final(vertices)@), text_view(*final(name)), *final(faces) as nat) == obj_step(
            (vertex_views(old(vertices)@), text_view(*old(name)), *old(faces) as nat),
            raw@,
        ),
        *final(faces) <= *old(faces) + 1,
{
    reveal(obj_step);
    let ghost before = vertex_views(vertices@);
    let line = trim_chars(raw);
    if line.len() == 0 || line[0] == '#' {
    } else if line[0] == 'v' {
        match vertex_of_line(&line) {
            Some(v) => {
                let ghost view = (v.0@, v.1@, v.2@);
                vertices.push(v);
                assert(vertex_views(vertices@) =~= before.push(view));
            },
            None => {},
        }
    } else if line[0] == 'o' || line[0] == 'g' {
        *name = name_of_line(&line);
    } else if line[0] == 'f' {
        *faces = *faces + 1;
    }
}

/// Reads the vertices, the last name and the face count of an OBJ text.
pub fn scan_obj(text: &str) -> (r: ObjScan)
    ensures
        (vertex_views(r.vertices@), text_view(r.name), r.faces as nat) == obj_scan_of(text@),
{
    let chars = chars_of(text);
    let lines = split_text_lines(&chars);
    let ghost ls = split_lines(text@, Seq::empty());
    let mut vertices: Vec<(String, String, String)> = Vec::new();
    let mut name: Option<String> = None;
    let mut faces: usize = 0;
    let mut k: usize = 0;
    assert(ls.take(0) =~= Seq::<Seq<char>>::empty());
    assert(vertex_views(vertices@) =~= Seq::<(Seq<char>, Seq<char>, Seq<char>)>::empty());
    while k < lines.len()
        invariant
            k <= lines.len(),
            lines@.len() == ls.len(),
            ls == split_lines(text@, Seq::empty()),
            forall|i: int| 0 <= i < lines@.len() ==> #[trigger] lines@[i]@ == ls[i],
            (vertex_views(vertices@), text_view(name), faces as nat) == obj_lines(ls.take(k as int)),
            faces <= k,
        decreases lines.len() - k,
    {
        assert(ls.take(k + 1).drop_last() =~= ls.take(k as int));
        assert(ls.take(k + 1).last() == lines@[k as int]@);
        read_obj_line(&lines[k], &mut vertices, &mut name, &mut faces);
        k += 1;
    }
    assert(ls.take(k as int) =~= ls);
    ObjScan { vertices, name, faces }
}

// ---------------------------------------------------------------------
// JSON documents

/// The kind of a JSON value.
#[derive(Clone, Copy, Debug, PartialEq, Eq, Structural)]
pub enum JsonKind {
    Null,
    Bool,
    Number,
    Text,
    Array,
    Object,
}

/// What the importers read of a JSON document's top level: its kind and,
/// when it is an object, its `type` field when that is a text, whether
/// its `obstacles`, `features` and `geometries` fields are arrays, and
/// whether it has a `coordinates` field.
pub struct JsonTop {
    pub kind: JsonKind,
    pub type_field: Option<String>,
    pub obstacles_array: bool,
    pub features_array: bool,
    pub geometries_array: bool,
    pub has_coordinates: bool,
}

/// Where the obstacle JSON importer finds its obstacles.
#[derive(Clone, Copy, Debug, PartialEq, Eq, Structural)]
pub enum ObstacleSource {
    /// The document is the array of obstacles.
    TopArray,
    /// The document's `obstacles` array.
    ObstaclesField,
    /// The document is GeoJSON; its features are read instead.
    GeoJson,
}

/// Where the GeoJSON importer finds its features.
#[derive(Clone, Copy, Debug, PartialEq, Eq, Structural)]
pub enum FeatureSource {
    /// The document is the array of features.
    TopArray,
    /// The document's `features` array.
    FeaturesField,
    /// The document is one feature.
    TopFeature,
    /// The document's `geometries`, each made a feature.
    Geometries,
    /// The document is one geometry, made a feature with its properties.
    TopGeometry,
}

/// The error of a JSON document that holds no obstacles.
pub open spec fn not_obstacles_message() -> Seq<char> {
    "JSON must be an array of obstacles or an object with an \"obstacles\" array"@
}

/// The error of a document that is not GeoJSON.
pub open spec fn not_geojson_message() -> Seq<char> {
    "Not a valid GeoJSON document"@
}

/// Whether the top's `type` field is the text `t`.
pub open spec fn type_is(top: JsonTop, t: Seq<char>) -> bool {
    top.type_field matches Some(f) && f@ == t
}

/// Where the obstacle JSON importer finds its obstacles: the array itself;
/// an object's `obstacles` array; a `FeatureCollection` or `Feature`
/// object as GeoJSON; otherwise the error.
pub open spec fn obstacle_source_of(top: JsonTop) -> Result<ObstacleSource, Seq<char>> {
    if top.kind == JsonKind::Array {
        Ok(ObstacleSource::TopArray)
    } else if top.kind == JsonKind::Object && top.obstacles_array {
        Ok(ObstacleSource::ObstaclesField)
    } else if top.kind == JsonKind::Object && (type_is(top, "FeatureCollection"@) || type_is(top, "Feature"@)) {
        Ok(ObstacleSource::GeoJson)
    } else {
        Err(not_obstacles_message())
    }
}

/// Where the GeoJSON importer finds its features, trying in order: an
/// array; a `FeatureCollection`'s `features`; a `Feature`; a
/// `GeometryCollection`'s `geometries`; any `features` array; an object
/// with a text `type` and `coordinates`; otherwise the error.
pub open spec fn feature_source_of(top: JsonTop) -> Result<FeatureSource, Seq<char>> {
    if top.kind == JsonKind::Array {
        Ok(FeatureSource::TopArray)
    } else if top.kind != JsonKind::Object {
        Err(not_geojson_message())
    } else if type_is(top, "FeatureCollection"@) && top.features_array {
        Ok(FeatureSource::FeaturesField)
    } else if type_is(top, "Feature"@) {
        Ok(FeatureSource::TopFeature)
    } else if type_is(top, "GeometryCollection"@) && top.geometries_array {
        Ok(FeatureSource::Geometries)
    } else if top.features_array {
        Ok(FeatureSource::FeaturesField)
    } else if top.type_field is Some && top.has_coordinates {
        Ok(FeatureSource::TopGeometry)
    } else {
        Err(not_geojson_message())
    }
}

/// A result's error as text.
pub open spec fn result_view<T>(r: Result<T, String>) -> Result<T, Seq<char>> {
    match r {
        Ok(v) => Ok(v),
        Err(e) => Err(e@),
    }
}

fn type_field_is(top: &JsonTop, t: &str) -> (r: bool)
    ensures
        r == type_is(*top, t@),
{
    match &top.type_field {
        Some(f) => str_eq(f.as_str(), t),
        None => false,
    }
}

/// Where the obstacle JSON importer finds its obstacles.
pub fn obstacle_source(top: &JsonTop) -> (r: Result<ObstacleSource, String>)
    ensures
        result_view(r) == obstacle_source_of(*top),
{
    if top.kind == JsonKind::Array {
        Ok(ObstacleSource::TopArray)
    } else if top.kind == JsonKind::Object && top.obstacles_array {
        Ok(ObstacleSource::ObstaclesField)
    } else if top.kind == JsonKind::Object && (type_field_is(top, "FeatureCollection") || type_field_is(top, "Feature")) {
        Ok(ObstacleSource::GeoJson)
    } else {
        Err("JSON must be an array of obstacles or an object with an \"obstacles\" array".to_owned())
    }
}

/// Where the GeoJSON importer finds its features.
pub fn feature_source(top: &JsonTop) -> (r: Result<FeatureSource, String>)
    ensures
        result_view(r) == feature_source_of(*top),
{
    if top.kind == JsonKind::Array {
        Ok(FeatureSource::TopArray)
    } else if top.kind != JsonKind::Object {
        Err("Not a valid GeoJSON document".to_owned())
    } else if type_field_is(top, "FeatureCollection") && top.features_array {
        Ok(FeatureSource::FeaturesField)
    } else if type_field_is(top, "Feature") {
        Ok(FeatureSource::TopFeature)
    } else if type_field_is(top, "GeometryCollection") && top.geometries_array {
        Ok(FeatureSource::Geometries)
    } else if top.features_array {
        Ok(FeatureSource::FeaturesField)
    } else if top.type_field.is_some() && top.has_coordinates {
        Ok(FeatureSource::TopGeometry)
    } else {
        Err("Not a valid GeoJSON document".to_owned())
    }
}

/// The id of the imported obstacle at `index`: `obs_` and the index.
pub fn obstacle_id(index: usize) -> (r: String)
    ensures
        r@ == "obs_"@ + nat_text(index as nat),
{
    let mut out: Vec<char> = Vec::new();
    push_text(&mut out, "obs_");
    push_uint(&mut out, index as u64);
    string_of(&out)
}

} // verus!
