use vstd::prelude::*;

use crate::cell::{Cell, StyleFlags};
use crate::page::{
    inside_only, lemma_same_outside_trans, lemma_written_inside, same_outside, written,
    PageBuilder,
};
use crate::region::Region;
use crate::text::string_from_chars;
use crate::widget::byte_len;

verus! {

/// How many characters of `text` a write limited to `limit` characters takes.
pub open spec fn clip_len(text: Seq<char>, limit: int) -> int {
    if limit < 0 {
        0
    } else if limit < text.len() {
        limit
    } else {
        text.len() as int
    }
}

/// The grid after writing at most `limit` characters of `text` from (`x`, `y`).
pub open spec fn line_write(
    grid: Seq<Cell>,
    x: int,
    y: int,
    text: Seq<char>,
    limit: int,
    style: StyleFlags,
) -> Seq<Cell> {
    written(grid, x, y, text.take(clip_len(text, limit)), style)
}

/// The smaller of two integers.
pub open spec fn min(a: int, b: int) -> int {
    if a <= b {
        a
    } else {
        b
    }
}

/// The grid after writing the first `n` of `texts` on consecutive rows from
/// (`x`, `y`), each limited to its entry of `limits`.
pub open spec fn rows_written(
    grid: Seq<Cell>,
    x: int,
    y: int,
    texts: Seq<Seq<char>>,
    limits: Seq<int>,
    style: StyleFlags,
    n: nat,
) -> Seq<Cell>
    decreases n,
{
    if n == 0 {
        grid
    } else {
        line_write(
            rows_written(grid, x, y, texts, limits, style, (n - 1) as nat),
            x,
            y + n - 1,
            texts[n - 1],
            limits[n - 1],
            style,
        )
    }
}

/// The characters of a string.
pub fn chars_of(text: &str) -> (v: Vec<char>)
    ensures
        v@ == text@,
{
    let mut v: Vec<char> = Vec::new();
    for ch in it: text.chars()
        invariant
            it.seq() == text@,
            v@ == text@.take(it.index() as int),
    {
        v.push(ch);
        assert(v@ =~= text@.take(it.index() + 1));
    }
    assert(v@ =~= text@);
    v
}

/// Writes at most `limit` characters of `chars` from (`x`, `y`), inside `region`.
fn write_limited(
    page: &mut PageBuilder,
    region: Region,
    x: u16,
    y: u16,
    chars: &Vec<char>,
    limit: usize,
    style: StyleFlags,
)
    requires
        region.spec_x() <= x,
        x + limit <= region.spec_x() + region.spec_width() <= 160,
        region.spec_y() <= y < region.spec_y() + region.spec_height(),
    ensures
        final(page).grid() == line_write(old(page).grid(), x as int, y as int, chars@, limit as int, style),
        inside_only(old(page).grid(), final(page).grid(), region),
{
    let _cells = page.grid_len();
    let count = if limit < chars.len() {
        limit
    } else {
        chars.len()
    };
    let ghost g0 = page.grid();
    page.write_chars(x, y, chars, count, style);
    proof {
        lemma_written_inside(
            g0,
            x as int,
            y as int,
            chars@.take(count as int),
            style,
            region.spec_x() as int,
            region.spec_y() as int,
            region.spec_width() as int,
            region.spec_height() as int,
        );
    }
}

/// Content that draws itself into a region of a page and never outside it.
pub trait Widget {
    /// The grid after this widget draws into `region` of `grid`.
    spec fn rendered(&self, grid: Seq<Cell>, region: Region) -> Seq<Cell>;

    /// Draws into `region`; cells outside it are left alone.
    fn render(&self, page: &mut PageBuilder, region: Region)
        ensures
            final(page).grid() == self.rendered(old(page).grid(), region),
            inside_only(old(page).grid(), final(page).grid(), region),
    ;
}

/// One line of text in a style, cut at the region's width.
pub struct Label {
    text: String,
    style: StyleFlags,
}

impl Label {
    /// The text.
    pub closed spec fn spec_text(&self) -> Seq<char> {
        self.text@
    }

    /// The style.
    pub closed spec fn spec_style(&self) -> StyleFlags {
        self.style
    }

    /// An unstyled label.
    pub fn new(text: &str) -> (l: Label)
        ensures
            l.spec_text() == text@,
            l.spec_style() == StyleFlags::NONE,
    {
        Label { text: text.to_owned(), style: StyleFlags::NONE }
    }

    /// The same label in `style`.
    pub fn with_style(self, style: StyleFlags) -> (l: Label)
        ensures
            l.spec_text() == self.spec_text(),
            l.spec_style() == style,
    {
        Label { text: self.text, style }
    }

    /// The text.
    pub fn text(&self) -> (r: &str)
        ensures
            r@ == self.spec_text(),
    {
        self.text.as_str()
    }

    /// The style.
    pub fn style(&self) -> (r: StyleFlags)
        ensures
            r == self.spec_style(),
    {
        self.style
    }
}

impl Widget for Label {
    /// The text on the region's first row, at most as many characters as the
    /// region is wide and as the text has bytes.
    closed spec fn rendered(&self, grid: Seq<Cell>, region: Region) -> Seq<Cell> {
        line_write(
            grid,
            region.spec_x() as int,
            region.spec_y() as int,
            self.text@,
            min(region.spec_width() as int, byte_len(self.text@) as int),
            self.style,
        )
    }

    fn render(&self, page: &mut PageBuilder, region: Region) {
        let x = region.x();
        let y = region.y();
        let width = region.width();
        let chars = chars_of(self.text.as_str());
        let bytes = self.text.as_str().len();
        let limit = if (width as usize) < bytes {
            width as usize
        } else {
            bytes
        };
        write_limited(page, region, x, y, &chars, limit, self.style);
    }
}

/// Lines of text, one per row, cut at the region's width and height.
pub struct TextBlock {
    lines: Vec<String>,
}

/// The characters of each string.
pub open spec fn texts_of(lines: Seq<String>) -> Seq<Seq<char>> {
    lines.map_values(|s: String| s@)
}

/// The lines of a text, as `str::lines` splits it.
pub uninterp spec fn lines_of(text: Seq<char>) -> Seq<Seq<char>>;

/// Relies on `str::lines`: splits at each line feed, drops a carriage return
/// before it and the empty piece after a final line feed.
#[verifier::external_body]
fn split_lines(text: &str) -> (r: Vec<String>)
    ensures
        texts_of(r@) == lines_of(text@),
{
    text.lines().map(|s| s.to_string()).collect()
}

impl TextBlock {
    /// The lines.
    pub closed spec fn spec_lines(&self) -> Seq<Seq<char>> {
        texts_of(self.lines@)
    }

    /// A block of the given lines.
    pub fn new(lines: Vec<String>) -> (b: TextBlock)
        ensures
            b.spec_lines() == texts_of(lines@),
    {
        TextBlock { lines }
    }

    /// A block of the lines of `text`.
    pub fn from_text(text: &str) -> (b: TextBlock)
        ensures
            b.spec_lines() == lines_of(text@),
    {
        TextBlock { lines: split_lines(text) }
    }

    /// The lines.
    pub fn lines(&self) -> (r: &[String])
        ensures
            texts_of(r@) == self.spec_lines(),
    {
        self.lines.as_slice()
    }
}

/// Per row, how many characters a block of `texts` may write in a region `width` wide.
pub open spec fn block_limits(texts: Seq<Seq<char>>, width: int) -> Seq<int> {
    Seq::new(texts.len(), |i: int| min(width, byte_len(texts[i]) as int))
}

impl Widget for TextBlock {
    /// Each line on its own row from the top, as many as fit, each cut at the
    /// region's width.
    closed spec fn rendered(&self, grid: Seq<Cell>, region: Region) -> Seq<Cell> {
        rows_written(
            grid,
            region.spec_x() as int,
            region.spec_y() as int,
            self.spec_lines(),
            block_limits(self.spec_lines(), region.spec_width() as int),
            StyleFlags::NONE,
            min(self.spec_lines().len() as int, region.spec_height() as int) as nat,
        )
    }

    fn render(&self, page: &mut PageBuilder, region: Region) {
        let x = region.x();
        let y = region.y();
        let width = region.width();
        let height = region.height();
        let ghost g0 = page.grid();
        let ghost texts = self.spec_lines();
        let ghost limits = block_limits(texts, width as int);
        let mut i: usize = 0;
        while i < self.lines.len() && i < height as usize
            invariant
                i <= self.lines@.len(),
                i <= height,
                texts == texts_of(self.lines@),
                limits == block_limits(texts, width as int),
                region.is(x as int, y as int, width as int, height as int),
                x + width <= 160 && y + height <= 51 && width > 0 && height > 0,
                g0 == old(page).grid(),
                page.grid() == rows_written(g0, x as int, y as int, texts, limits, StyleFlags::NONE, i as nat),
                inside_only(g0, page.grid(), region),
            decreases self.lines@.len() - i,
        {
            let chars = chars_of(self.lines[i].as_str());
            let bytes = self.lines[i].as_str().len();
            let limit = if (width as usize) < bytes {
                width as usize
            } else {
                bytes
            };
            let ghost before = page.grid();
            write_limited(page, region, x, y + i as u16, &chars, limit, StyleFlags::NONE);
            proof {
                lemma_same_outside_trans(
                    g0,
                    before,
                    page.grid(),
                    x as int,
                    y as int,
                    width as int,
                    height as int,
                );
            }
            i = i + 1;
        }
    }
}

/// Key and value pairs, one per row, written as key, separator, value.
pub struct KeyValueList {
    entries: Vec<(String, String)>,
    separator: String,
}

impl KeyValueList {
    /// The pairs, in order.
    pub closed spec fn spec_entries(&self) -> Seq<(Seq<char>, Seq<char>)> {
        self.entries@.map_values(|e: (String, String)| (e.0@, e.1@))
    }

    /// The separator.
    pub closed spec fn spec_separator(&self) -> Seq<char> {
        self.separator@
    }

    /// A list with the separator `": "`.
    pub fn new(entries: Vec<(String, String)>) -> (l: KeyValueList)
        ensures
            l.spec_entries() == entries@.map_values(|e: (String, String)| (e.0@, e.1@)),
            l.spec_separator() == ": "@,
    {
        KeyValueList { entries, separator: ": ".to_owned() }
    }

    /// The same list with another separator.
    pub fn with_separator(self, separator: &str) -> (l: KeyValueList)
        ensures
            l.spec_entries() == self.spec_entries(),
            l.spec_separator() == separator@,
    {
        KeyValueList { entries: self.entries, separator: separator.to_owned() }
    }

    /// The number of pairs.
    pub fn entry_count(&self) -> (n: usize)
        ensures
            n == self.spec_entries().len(),
    {
        self.entries.len()
    }

    /// The separator.
    pub fn separator(&self) -> (r: &str)
        ensures
            r@ == self.spec_separator(),
    {
        self.separator.as_str()
    }
}

/// The row texts of a key and value list.
pub open spec fn entry_texts(entries: Seq<(Seq<char>, Seq<char>)>, separator: Seq<char>) -> Seq<
    Seq<char>,
> {
    Seq::new(entries.len(), |i: int| entries[i].0 + separator + entries[i].1)
}

/// Per row, how many characters a key and value list may write in a region `width` wide.
pub open spec fn entry_limits(
    entries: Seq<(Seq<char>, Seq<char>)>,
    separator: Seq<char>,
    width: int,
) -> Seq<int> {
    Seq::new(
        entries.len(),
        |i: int|
            min(
                width,
                byte_len(entries[i].0) + byte_len(separator) + byte_len(entries[i].1),
            ),
    )
}

impl Widget for KeyValueList {
    /// Each pair as key, separator, value on its own row from the top, as many
    /// as fit, each cut at the region's width.
    closed spec fn rendered(&self, grid: Seq<Cell>, region: Region) -> Seq<Cell> {
        rows_written(
            grid,
            region.spec_x() as int,
            region.spec_y() as int,
            entry_texts(self.spec_entries(), self.spec_separator()),
            entry_limits(self.spec_entries(), self.spec_separator(), region.spec_width() as int),
            StyleFlags::NONE,
            min(self.spec_entries().len() as int, region.spec_height() as int) as nat,
        )
    }

    fn render(&self, page: &mut PageBuilder, region: Region) {
        let x = region.x();
        let y = region.y();
        let width = region.width();
        let height = region.height();
        let ghost g0 = page.grid();
        let ghost texts = entry_texts(self.spec_entries(), self.spec_separator());
        let ghost limits = entry_limits(self.spec_entries(), self.spec_separator(), width as int);
        let sep = chars_of(self.separator.as_str());
        let sep_bytes = self.separator.as_str().len();
        let mut i: usize = 0;
        while i < self.entries.len() && i < height as usize
            invariant
                i <= self.entries@.len(),
                i <= height,
                sep@ == self.separator@,
                sep_bytes == byte_len(self.separator@),
                texts == entry_texts(self.spec_entries(), self.spec_separator()),
                limits == entry_limits(self.spec_entries(), self.spec_separator(), width as int),
                region.is(x as int, y as int, width as int, height as int),
                x + width <= 160 && y + height <= 51 && width > 0 && height > 0,
                g0 == old(page).grid(),
                page.grid() == rows_written(g0, x as int, y as int, texts, limits, StyleFlags::NONE, i as nat),
                inside_only(g0, page.grid(), region),
            decreases self.entries@.len() - i,
        {
            let entry = &self.entries[i];
            let mut line = chars_of(entry.0.as_str());
            let mut j: usize = 0;
            while j < sep.len()
                invariant
                    j <= sep@.len(),
                    line@ == entry.0@ + sep@.take(j as int),
                decreases sep@.len() - j,
            {
                line.push(sep[j]);
                j = j + 1;
                assert(line@ =~= entry.0@ + sep@.take(j as int));
            }
            let value = chars_of(entry.1.as_str());
            let mut j: usize = 0;
            while j < value.len()
                invariant
                    j <= value@.len(),
                    line@ == entry.0@ + sep@ + value@.take(j as int),
                decreases value@.len() - j,
            {
                line.push(value[j]);
                j = j + 1;
                assert(line@ =~= entry.0@ + sep@ + value@.take(j as int));
            }
            assert(sep@.take(sep@.len() as int) =~= sep@);
            assert(value@.take(value@.len() as int) =~= value@);
            let key_bytes = entry.0.as_str().len();
            let value_bytes = entry.1.as_str().len();
            let limit = if (width as usize) <= key_bytes || (width as usize) - key_bytes <= sep_bytes
                || (width as usize) - key_bytes - sep_bytes <= value_bytes {
                width as usize
            } else {
                key_bytes + sep_bytes + value_bytes
            };
            proof {
                assert(texts[i as int] == line@);
                assert(limits[i as int] == limit);
            }
            let ghost before = page.grid();
            write_limited(page, region, x, y + i as u16, &line, limit, StyleFlags::NONE);
            proof {
                lemma_same_outside_trans(
                    g0,
                    before,
                    page.grid(),
                    x as int,
                    y as int,
                    width as int,
                    height as int,
                );
            }
            i = i + 1;
        }
    }
}

/// A boxed widget draws as the widget inside.
impl<W: Widget> Widget for Box<W> {
    open spec fn rendered(&self, grid: Seq<Cell>, region: Region) -> Seq<Cell> {
        (**self).rendered(grid, region)
    }

    fn render(&self, page: &mut PageBuilder, region: Region) {
        (**self).render(page, region)
    }
}

/// A table column: its header and its width in characters.
#[derive(Clone, Debug)]
pub struct ColumnDef {
    pub name: String,
    pub width: u16,
}

/// A header row in bold and data rows below it, in fixed-width columns.
pub struct Table {
    columns: Vec<ColumnDef>,
    rows: Vec<Vec<String>>,
}

/// The sum of the first `n` widths.
pub open spec fn width_sum(widths: Seq<u16>, n: nat) -> int
    decreases n,
{
    if n == 0 || n > widths.len() {
        0
    } else {
        width_sum(widths, (n - 1) as nat) + widths[n - 1]
    }
}

/// The grid after writing the first `n` cells of a table row on row `y`: each
/// column starts where the previous ones end, and a column that starts at or
/// beyond `x_end` is skipped; a cell is cut at its column's width and at `x_end`.
pub open spec fn table_line(
    grid: Seq<Cell>,
    x0: int,
    x_end: int,
    widths: Seq<u16>,
    texts: Seq<Seq<char>>,
    y: int,
    style: StyleFlags,
    n: nat,
) -> Seq<Cell>
    decreases n,
{
    if n == 0 {
        grid
    } else {
        let prev = table_line(grid, x0, x_end, widths, texts, y, style, (n - 1) as nat);
        let cx = x0 + width_sum(widths, (n - 1) as nat);
        if cx < x_end {
            line_write(prev, cx, y, texts[n - 1], min(widths[n - 1] as int, x_end - cx), style)
        } else {
            prev
        }
    }
}

/// The texts of a data row for `n` columns; missing cells are empty.
pub open spec fn row_cells(row: Seq<Seq<char>>, n: nat) -> Seq<Seq<char>> {
    Seq::new(n, |j: int| if j < row.len() { row[j] } else { Seq::<char>::empty() })
}

/// The grid after writing the first `n` data rows below a header at row `y0`.
pub open spec fn table_rows(
    grid: Seq<Cell>,
    x0: int,
    x_end: int,
    widths: Seq<u16>,
    rows: Seq<Seq<Seq<char>>>,
    y0: int,
    n: nat,
) -> Seq<Cell>
    decreases n,
{
    if n == 0 {
        grid
    } else {
        table_line(
            table_rows(grid, x0, x_end, widths, rows, y0, (n - 1) as nat),
            x0,
            x_end,
            widths,
            row_cells(rows[n - 1], widths.len()),
            y0 + n,
            StyleFlags::NONE,
            widths.len(),
        )
    }
}

impl Table {
    /// The column widths.
    pub closed spec fn spec_widths(&self) -> Seq<u16> {
        self.columns@.map_values(|c: ColumnDef| c.width)
    }

    /// The column headers.
    pub closed spec fn spec_names(&self) -> Seq<Seq<char>> {
        self.columns@.map_values(|c: ColumnDef| c.name@)
    }

    /// The data rows.
    pub closed spec fn spec_rows(&self) -> Seq<Seq<Seq<char>>> {
        self.rows@.map_values(|r: Vec<String>| texts_of(r@))
    }

    /// A table of the given columns and rows.
    pub fn new(columns: Vec<ColumnDef>, rows: Vec<Vec<String>>) -> (t: Table)
        ensures
            t.spec_widths() == columns@.map_values(|c: ColumnDef| c.width),
            t.spec_names() == columns@.map_values(|c: ColumnDef| c.name@),
            t.spec_rows() == rows@.map_values(|r: Vec<String>| texts_of(r@)),
    {
        Table { columns, rows }
    }

    /// The number of columns.
    pub fn column_count(&self) -> (n: usize)
        ensures
            n == self.spec_widths().len(),
    {
        self.columns.len()
    }

    /// The number of data rows.
    pub fn row_count(&self) -> (n: usize)
        ensures
            n == self.spec_rows().len(),
    {
        self.rows.len()
    }

    /// Writes one line of the table on row `y`: the headers when `row` is
    /// `None`, else the row's cells.
    fn write_line(&self, page: &mut PageBuilder, region: Region, y: u16, row: Option<usize>, style: StyleFlags)
        requires
            region.spec_y() <= y < region.spec_y() + region.spec_height(),
            row matches Some(r) ==> r < self.spec_rows().len(),
        ensures
            final(page).grid() == table_line(
                old(page).grid(),
                region.spec_x() as int,
                region.spec_x() + region.spec_width(),
                self.spec_widths(),
                match row {
                    Some(r) => row_cells(self.spec_rows()[r as int], self.spec_widths().len()),
                    None => self.spec_names(),
                },
                y as int,
                style,
                self.spec_widths().len(),
            ),
            inside_only(old(page).grid(), final(page).grid(), region),
    {
        let x0 = region.x();
        let width = region.width();
        let x_end: u32 = x0 as u32 + width as u32;
        let ghost widths = self.spec_widths();
        let ghost texts = match row {
            Some(r) => row_cells(self.spec_rows()[r as int], widths.len()),
            None => self.spec_names(),
        };
        let ghost g0 = page.grid();
        let mut col_x: u32 = x0 as u32;
        let mut j: usize = 0;
        while j < self.columns.len()
            invariant
                j <= self.columns@.len(),
                widths == self.spec_widths(),
                widths.len() == self.columns@.len(),
                texts.len() == widths.len(),
                texts == (match row {
                    Some(r) => row_cells(self.spec_rows()[r as int], widths.len()),
                    None => self.spec_names(),
                }),
                row matches Some(r) ==> r < self.spec_rows().len(),
                region.spec_x() == x0 && region.spec_width() == width,
                region.spec_y() <= y < region.spec_y() + region.spec_height(),
                x0 + width <= 160,
                x_end == x0 + width,
                col_x < x_end ==> col_x == x0 + width_sum(widths, j as nat),
                col_x >= x_end ==> x0 + width_sum(widths, j as nat) >= x_end,
                col_x <= x_end + 65535,
                col_x >= x0,
                g0 == old(page).grid(),
                page.grid() == table_line(g0, x0 as int, x_end as int, widths, texts, y as int, style, j as nat),
                inside_only(g0, page.grid(), region),
            decreases self.columns@.len() - j,
        {
            let column = &self.columns[j];
            proof {
                assert(widths[j as int] == column.width);
                assert(width_sum(widths, (j + 1) as nat) == width_sum(widths, j as nat) + widths[j as int]);
            }
            if col_x < x_end {
                let text: &str = match row {
                    Some(r) => if j < self.rows[r].len() {
                        self.rows[r][j].as_str()
                    } else {
                        ""
                    },
                    None => column.name.as_str(),
                };
                proof {
                    if let Some(r) = row {
                        assert(self.spec_rows()[r as int] == texts_of(self.rows@[r as int]@));
                        if j < self.rows@[r as int]@.len() {
                            assert(texts[j as int] == self.rows@[r as int]@[j as int]@);
                        } else {
                            assert(texts[j as int] == Seq::<char>::empty());
                            assert(text@ == Seq::<char>::empty()) by {
                                reveal_strlit("");
                            }
                        }
                    } else {
                        assert(texts[j as int] == column.name@);
                    }
                }
                let chars = chars_of(text);
                let room = x_end - col_x;
                let limit: usize = if (column.width as u32) < room {
                    column.width as usize
                } else {
                    room as usize
                };
                let ghost before = page.grid();
                write_limited(page, region, col_x as u16, y, &chars, limit, style);
                proof {
                    lemma_same_outside_trans(
                        g0,
                        before,
                        page.grid(),
                        region.spec_x() as int,
                        region.spec_y() as int,
                        region.spec_width() as int,
                        region.spec_height() as int,
                    );
                }
                col_x = col_x + column.width as u32;
            }
            j = j + 1;
        }
    }
}

impl Widget for Table {
    /// The headers in bold on the region's first row, then one data row per
    /// row below it, as many as fit; see `table_line` for how a row is laid out.
    closed spec fn rendered(&self, grid: Seq<Cell>, region: Region) -> Seq<Cell> {
        let x0 = region.spec_x() as int;
        let x_end = region.spec_x() + region.spec_width();
        let header = table_line(
            grid,
            x0,
            x_end,
            self.spec_widths(),
            self.spec_names(),
            region.spec_y() as int,
            StyleFlags::BOLD,
            self.spec_widths().len(),
        );
        table_rows(
            header,
            x0,
            x_end,
            self.spec_widths(),
            self.spec_rows(),
            region.spec_y() as int,
            min(self.spec_rows().len() as int, region.spec_height() - 1) as nat,
        )
    }

    fn render(&self, page: &mut PageBuilder, region: Region) {
        let y = region.y();
        let height = region.height();
        let ghost g0 = page.grid();
        self.write_line(page, region, y, None, StyleFlags::BOLD);
        let ghost header = page.grid();
        let mut r: usize = 0;
        while r < self.rows.len() && r + 1 < height as usize
            invariant
                r <= self.rows@.len(),
                r < height,
                self.spec_rows().len() == self.rows@.len(),
                region.spec_y() == y && region.spec_height() == height,
                y + height <= 51,
                g0 == old(page).grid(),
                page.grid() == table_rows(
                    header,
                    region.spec_x() as int,
                    region.spec_x() + region.spec_width(),
                    self.spec_widths(),
                    self.spec_rows(),
                    y as int,
                    r as nat,
                ),
                inside_only(g0, page.grid(), region),
            decreases self.rows@.len() - r,
        {
            let ghost before = page.grid();
            self.write_line(page, region, y + 1 + r as u16, Some(r), StyleFlags::NONE);
            proof {
                lemma_same_outside_trans(
                    g0,
                    before,
                    page.grid(),
                    region.spec_x() as int,
                    region.spec_y() as int,
                    region.spec_width() as int,
                    region.spec_height() as int,
                );
            }
            r = r + 1;
        }
    }
}

/// The grid after the top and bottom borders' first `n` inner cells are drawn.
pub open spec fn frame_rows(grid: Seq<Cell>, x: int, y: int, h: int, n: nat) -> Seq<Cell>
    decreases n,
{
    if n == 0 {
        grid
    } else {
        let prev = frame_rows(grid, x, y, h, (n - 1) as nat);
        written(written(prev, x + n, y, seq!['-'], StyleFlags::NONE), x + n, y + h - 1, seq!['-'], StyleFlags::NONE)
    }
}

/// The grid after the left and right borders' first `n` inner cells are drawn.
pub open spec fn frame_sides(grid: Seq<Cell>, x: int, y: int, w: int, n: nat) -> Seq<Cell>
    decreases n,
{
    if n == 0 {
        grid
    } else {
        let prev = frame_sides(grid, x, y, w, (n - 1) as nat);
        written(written(prev, x, y + n, seq!['|'], StyleFlags::NONE), x + w - 1, y + n, seq!['|'], StyleFlags::NONE)
    }
}

/// The grid after a `w` by `h` frame is drawn at (`x`, `y`): `+` corners, `-`
/// top and bottom, `|` sides, and the title from the third column of the top
/// border, cut four short of the width.
pub open spec fn framed(grid: Seq<Cell>, x: int, y: int, w: int, h: int, title: Option<Seq<char>>) -> Seq<Cell> {
    let corners = written(
        written(
            written(written(grid, x, y, seq!['+'], StyleFlags::NONE), x + w - 1, y, seq!['+'], StyleFlags::NONE),
            x,
            y + h - 1,
            seq!['+'],
            StyleFlags::NONE,
        ),
        x + w - 1,
        y + h - 1,
        seq!['+'],
        StyleFlags::NONE,
    );
    let sides = frame_sides(frame_rows(corners, x, y, h, (w - 2) as nat), x, y, w, (h - 2) as nat);
    match title {
        Some(t) => line_write(sides, x + 2, y, t, w - 4, StyleFlags::NONE),
        None => sides,
    }
}

/// A widget drawn inside a border, with an optional title in the top border.
pub struct ASCIIBox<W: Widget> {
    title: Option<String>,
    content: W,
}

/// Draws `ch` at (`x`, `y`) inside `region`.
fn put(page: &mut PageBuilder, region: Region, x: u16, y: u16, ch: char)
    requires
        region.spec_x() <= x < region.spec_x() + region.spec_width() <= 160,
        region.spec_y() <= y < region.spec_y() + region.spec_height(),
    ensures
        final(page).grid() == written(old(page).grid(), x as int, y as int, seq![ch], StyleFlags::NONE),
        inside_only(old(page).grid(), final(page).grid(), region),
{
    let _cells = page.grid_len();
    let ghost g0 = page.grid();
    page.write_at(x, y, ch, StyleFlags::NONE);
    proof {
        lemma_written_inside(
            g0,
            x as int,
            y as int,
            seq![ch],
            StyleFlags::NONE,
            region.spec_x() as int,
            region.spec_y() as int,
            region.spec_width() as int,
            region.spec_height() as int,
        );
    }
}

impl<W: Widget> ASCIIBox<W> {
    /// The title, if any.
    pub closed spec fn spec_title(&self) -> Option<Seq<char>> {
        match self.title {
            Some(t) => Some(t@),
            None => None,
        }
    }

    /// The boxed widget.
    pub closed spec fn spec_content(&self) -> &W {
        &self.content
    }

    /// A box without a title around `content`.
    pub fn new(content: W) -> (b: ASCIIBox<W>)
        ensures
            b.spec_title() is None,
            b.spec_content() == &content,
    {
        ASCIIBox { title: None, content }
    }

    /// The same box with a title.
    pub fn with_title(self, title: &str) -> (b: ASCIIBox<W>)
        ensures
            b.spec_title() == Some(title@),
            b.spec_content() == self.spec_content(),
    {
        ASCIIBox { title: Some(title.to_owned()), content: self.content }
    }
}

impl<W: Widget> Widget for ASCIIBox<W> {
    /// Nothing in a region smaller than 3 by 3; else the frame and title, then
    /// the content in the region shrunk by one cell on every side.
    closed spec fn rendered(&self, grid: Seq<Cell>, region: Region) -> Seq<Cell> {
        let x = region.spec_x();
        let y = region.spec_y();
        let w = region.spec_width();
        let h = region.spec_height();
        if w < 3 || h < 3 {
            grid
        } else {
            self.content.rendered(
                framed(grid, x as int, y as int, w as int, h as int, self.spec_title()),
                Region::spec_at((x + 1) as u16, (y + 1) as u16, (w - 2) as u16, (h - 2) as u16),
            )
        }
    }

    fn render(&self, page: &mut PageBuilder, region: Region) {
        let x = region.x();
        let y = region.y();
        let width = region.width();
        let height = region.height();
        if width < 3 || height < 3 {
            proof {
                assert(same_outside(page.grid(), page.grid(), x as int, y as int, width as int, height as int));
            }
            return;
        }
        let ghost g0 = page.grid();
        let ghost rx = x as int;
        let ghost ry = y as int;
        let ghost rw = width as int;
        let ghost rh = height as int;
        put(page, region, x, y, '+');
        let ghost g1 = page.grid();
        put(page, region, x + width - 1, y, '+');
        proof { lemma_same_outside_trans(g0, g1, page.grid(), rx, ry, rw, rh); }
        let ghost g2 = page.grid();
        put(page, region, x, y + height - 1, '+');
        proof { lemma_same_outside_trans(g0, g2, page.grid(), rx, ry, rw, rh); }
        let ghost g3 = page.grid();
        put(page, region, x + width - 1, y + height - 1, '+');
        proof { lemma_same_outside_trans(g0, g3, page.grid(), rx, ry, rw, rh); }
        let ghost corners = page.grid();
        let mut dx: u16 = 1;
        while dx < width - 1
            invariant
                1 <= dx <= width - 1,
                width >= 3 && height >= 3,
                x + width <= 160 && y + height <= 51,
                region.is(x as int, y as int, width as int, height as int),
                rx == x && ry == y && rw == width && rh == height,
                page.grid() == frame_rows(corners, x as int, y as int, height as int, (dx - 1) as nat),
                same_outside(g0, page.grid(), rx, ry, rw, rh),
            decreases width - dx,
        {
            let ghost before = page.grid();
            put(page, region, x + dx, y, '-');
            proof { lemma_same_outside_trans(g0, before, page.grid(), rx, ry, rw, rh); }
            let ghost mid = page.grid();
            put(page, region, x + dx, y + height - 1, '-');
            proof { lemma_same_outside_trans(g0, mid, page.grid(), rx, ry, rw, rh); }
            dx = dx + 1;
        }
        let ghost rows_done = page.grid();
        let mut dy: u16 = 1;
        while dy < height - 1
            invariant
                1 <= dy <= height - 1,
                width >= 3 && height >= 3,
                x + width <= 160 && y + height <= 51,
                region.is(x as int, y as int, width as int, height as int),
                rx == x && ry == y && rw == width && rh == height,
                page.grid() == frame_sides(rows_done, x as int, y as int, width as int, (dy - 1) as nat),
                same_outside(g0, page.grid(), rx, ry, rw, rh),
            decreases height - dy,
        {
            let ghost before = page.grid();
            put(page, region, x, y + dy, '|');
            proof { lemma_same_outside_trans(g0, before, page.grid(), rx, ry, rw, rh); }
            let ghost mid = page.grid();
            put(page, region, x + width - 1, y + dy, '|');
            proof { lemma_same_outside_trans(g0, mid, page.grid(), rx, ry, rw, rh); }
            dy = dy + 1;
        }
        match &self.title {
            Some(title) => {
                let chars = chars_of(title.as_str());
                let limit = width.saturating_sub(4) as usize;
                let ghost before = page.grid();
                write_limited(page, region, x + 2, y, &chars, limit, StyleFlags::NONE);
                proof { lemma_same_outside_trans(g0, before, page.grid(), rx, ry, rw, rh); }
            },
            None => {},
        }
        let ghost framed_grid = page.grid();
        match region.with_padding(1, 1, 1, 1) {
            Ok(inner) => {
                proof {
                    Region::lemma_is_at(inner, (x + 1) as u16, (y + 1) as u16, (width - 2) as u16, (height - 2) as u16);
                }
                self.content.render(page, inner);
                proof {
                    crate::page::lemma_same_outside_widen(
                        framed_grid,
                        page.grid(),
                        rx + 1,
                        ry + 1,
                        rw - 2,
                        rh - 2,
                        rx,
                        ry,
                        rw,
                        rh,
                    );
                    lemma_same_outside_trans(g0, framed_grid, page.grid(), rx, ry, rw, rh);
                }
            },
            Err(_) => {},
        }
    }
}

/// The words of a text, as `str::split_whitespace` finds them.
pub uninterp spec fn words_of(text: Seq<char>) -> Seq<Seq<char>>;

/// Relies on `str::split_whitespace`: the maximal runs of non-whitespace
/// characters, in order; none is empty.
#[verifier::external_body]
fn split_words(text: &str) -> (r: Vec<String>)
    ensures
        texts_of(r@) == words_of(text@),
        forall|i: int| 0 <= i < r@.len() ==> r@[i]@.len() > 0,
{
    text.split_whitespace().map(|w| w.to_string()).collect()
}

/// `word` cut into pieces of `max` characters, the last one possibly shorter.
pub open spec fn chunks(word: Seq<char>, max: int) -> Seq<Seq<char>>
    decreases word.len(),
{
    if word.len() == 0 || max <= 0 {
        Seq::empty()
    } else if word.len() <= max {
        seq![word]
    } else {
        seq![word.take(max)] + chunks(word.skip(max), max)
    }
}

/// Where greedy wrapping stands: the finished lines, the line being filled,
/// and that line's length in bytes.
pub open spec fn wrap_step(
    state: (Seq<Seq<char>>, Seq<char>, int),
    word: Seq<char>,
    word_bytes: int,
    max: int,
) -> (Seq<Seq<char>>, Seq<char>, int) {
    let (lines, current, current_bytes) = state;
    if word_bytes > max {
        let done = if current.len() > 0 {
            lines.push(current)
        } else {
            lines
        };
        (done + chunks(word, max), Seq::empty(), 0)
    } else if current.len() > 0 && current_bytes + 1 + word_bytes > max {
        (lines.push(current), word, word_bytes)
    } else if current.len() > 0 {
        (lines, current + seq![' '] + word, current_bytes + 1 + word_bytes)
    } else {
        (lines, word, word_bytes)
    }
}

/// The wrapping state after the first `n` words.
pub open spec fn wrap_prefix(words: Seq<Seq<char>>, max: int, n: nat) -> (Seq<Seq<char>>, Seq<char>, int)
    decreases n,
{
    if n == 0 || n > words.len() {
        (Seq::empty(), Seq::empty(), 0)
    } else {
        wrap_step(
            wrap_prefix(words, max, (n - 1) as nat),
            words[n - 1],
            byte_len(words[n - 1]) as int,
            max,
        )
    }
}

/// Greedy word wrapping at `max` bytes a line: words join a line, separated
/// by one space, while it stays within `max` bytes; a word longer than `max`
/// ends the current line and is cut into pieces of `max` characters.
pub open spec fn wrap_spec(text: Seq<char>, max: int) -> Seq<Seq<char>> {
    if max <= 0 {
        Seq::empty()
    } else {
        let words = words_of(text);
        let end = wrap_prefix(words, max, words.len());
        if end.1.len() > 0 {
            end.0.push(end.1)
        } else {
            end.0
        }
    }
}

/// Appends `src` to `dst`.
fn append_chars(dst: &mut Vec<char>, src: &Vec<char>)
    ensures
        final(dst)@ == old(dst)@ + src@,
{
    let mut i: usize = 0;
    while i < src.len()
        invariant
            i <= src@.len(),
            dst@ == old(dst)@ + src@.take(i as int),
        decreases src@.len() - i,
    {
        dst.push(src[i]);
        i = i + 1;
        assert(dst@ =~= old(dst)@ + src@.take(i as int));
    }
    assert(src@.take(src@.len() as int) =~= src@);
}

/// Characters `start` to `end` of `src`.
fn slice_chars(src: &Vec<char>, start: usize, end: usize) -> (r: Vec<char>)
    requires
        start <= end <= src@.len(),
    ensures
        r@ == src@.subrange(start as int, end as int),
{
    let mut r: Vec<char> = Vec::new();
    let mut i: usize = start;
    while i < end
        invariant
            start <= i <= end <= src@.len(),
            r@ == src@.subrange(start as int, i as int),
        decreases end - i,
    {
        r.push(src[i]);
        i = i + 1;
        assert(r@ =~= src@.subrange(start as int, i as int));
    }
    r
}

/// Cuts `text` into lines of at most `max_width` bytes at spaces between
/// words; a longer word is cut into pieces of `max_width` characters. A width
/// of zero gives no lines.
pub fn wrap_text(text: &str, max_width: usize) -> (r: Vec<String>)
    ensures
        texts_of(r@) == wrap_spec(text@, max_width as int),
{
    let mut out: Vec<String> = Vec::new();
    if max_width == 0 {
        assert(texts_of(out@) =~= Seq::<Seq<char>>::empty());
        return out;
    }
    let words = split_words(text);
    let ghost ws = words_of(text@);
    let ghost max = max_width as int;
    let mut lines: Vec<Vec<char>> = Vec::new();
    let mut current: Vec<char> = Vec::new();
    let mut current_bytes: usize = 0;
    let mut i: usize = 0;
    while i < words.len()
        invariant
            i <= words@.len(),
            max_width > 0,
            max == max_width,
            ws == texts_of(words@),
            forall|k: int| 0 <= k < words@.len() ==> words@[k]@.len() > 0,
            current_bytes <= max_width,
            ({
                let st = wrap_prefix(ws, max, i as nat);
                &&& texts_of_chars(lines@) == st.0
                &&& current@ == st.1
                &&& current_bytes == st.2
            }),
        decreases words@.len() - i,
    {
        let word = chars_of(words[i].as_str());
        let word_bytes = words[i].as_str().len();
        let ghost before = wrap_prefix(ws, max, i as nat);
        proof {
            assert(ws[i as int] == words@[i as int]@);
        }
        if word_bytes > max_width {
            if current.len() > 0 {
                lines.push(current);
                current = Vec::new();
                proof {
                    assert(texts_of_chars(lines@) =~= before.0.push(before.1));
                }
            }
            current_bytes = 0;
            let ghost done = texts_of_chars(lines@);
            assert(word@.skip(0) =~= word@);
            let mut start: usize = 0;
            while start < word.len()
                invariant
                    start <= word@.len(),
                    max_width > 0,
                    texts_of_chars(lines@) + chunks(word@.skip(start as int), max_width as int) == done
                        + chunks(word@, max_width as int),
                decreases word@.len() - start,
            {
                let end = if word.len() - start <= max_width {
                    word.len()
                } else {
                    start + max_width
                };
                let piece = slice_chars(&word, start, end);
                let ghost rest = word@.skip(start as int);
                proof {
                    if rest.len() <= max_width {
                        assert(piece@ =~= rest);
                        assert(word@.skip(end as int) =~= Seq::<char>::empty());
                        assert(chunks(word@.skip(end as int), max_width as int) =~= Seq::<Seq<char>>::empty());
                        assert(chunks(rest, max_width as int) =~= seq![rest]);
                    } else {
                        assert(piece@ =~= rest.take(max_width as int));
                        assert(rest.skip(max_width as int) =~= word@.skip(end as int));
                    }
                }
                let ghost old_lines = texts_of_chars(lines@);
                lines.push(piece);
                proof {
                    assert(texts_of_chars(lines@) =~= old_lines.push(piece@));
                    assert(old_lines.push(piece@) + chunks(word@.skip(end as int), max_width as int) =~= old_lines + chunks(rest, max_width as int));
                }
                start = end;
            }
            proof {
                assert(word@.skip(word@.len() as int) =~= Seq::<char>::empty());
                assert(texts_of_chars(lines@) + Seq::<Seq<char>>::empty() =~= texts_of_chars(lines@));
            }
        } else {
            let exceed = current.len() > 0 && (current_bytes >= max_width || word_bytes > max_width
                - current_bytes - 1);
            if exceed {
                lines.push(current);
                proof {
                    assert(texts_of_chars(lines@) =~= before.0.push(before.1));
                }
                current = word;
                current_bytes = word_bytes;
            } else if current.len() > 0 {
                current.push(' ');
                append_chars(&mut current, &word);
                current_bytes = current_bytes + 1 + word_bytes;
            } else {
                current = word;
                current_bytes = word_bytes;
            }
        }
        i = i + 1;
    }
    if current.len() > 0 {
        lines.push(current);
    }
    let ghost all = texts_of_chars(lines@);
    proof {
        assert(all == wrap_spec(text@, max_width as int));
    }
    let mut k: usize = 0;
    while k < lines.len()
        invariant
            k <= lines@.len(),
            all == texts_of_chars(lines@),
            texts_of(out@) == all.take(k as int),
        decreases lines@.len() - k,
    {
        let s = string_from_chars(&lines[k]);
        assert(all.len() == lines@.len());
        assert(all[k as int] == lines@[k as int]@);
        assert(s@ == all[k as int]);
        assert(texts_of(out@).len() == out@.len());
        assert(all.take(k as int).len() == k);
        assert(out@.len() == k);
        let ghost prev = out@;
        out.push(s);
        proof {
            assert forall|j: int| 0 <= j < out@.len() implies texts_of(out@)[j] == all.take(k as int + 1)[j] by {
                if j < prev.len() {
                    assert(out@[j] == prev[j]);
                    assert(texts_of(prev)[j] == all.take(k as int)[j]);
                } else {
                    assert(out@[j] == s);
                }
            }
            assert(texts_of(out@) =~= all.take(k as int + 1));
        }
        k = k + 1;
    }
    assert(all.take(all.len() as int) =~= all);
    out
}

/// The characters of each line.
pub open spec fn texts_of_chars(lines: Seq<Vec<char>>) -> Seq<Seq<char>> {
    lines.map_values(|l: Vec<char>| l@)
}

/// Text wrapped at the region's width, one line per row from the top.
pub struct Paragraph {
    text: String,
    style: StyleFlags,
}

impl Paragraph {
    /// The text.
    pub closed spec fn spec_text(&self) -> Seq<char> {
        self.text@
    }

    /// The style.
    pub closed spec fn spec_style(&self) -> StyleFlags {
        self.style
    }

    /// An unstyled paragraph.
    pub fn new(text: &str) -> (p: Paragraph)
        ensures
            p.spec_text() == text@,
            p.spec_style() == StyleFlags::NONE,
    {
        Paragraph { text: text.to_owned(), style: StyleFlags::NONE }
    }

    /// The same paragraph in `style`.
    pub fn with_style(self, style: StyleFlags) -> (p: Paragraph)
        ensures
            p.spec_text() == self.spec_text(),
            p.spec_style() == style,
    {
        Paragraph { text: self.text, style }
    }

    /// The text.
    pub fn text(&self) -> (r: &str)
        ensures
            r@ == self.spec_text(),
    {
        self.text.as_str()
    }

    /// The style.
    pub fn style(&self) -> (r: StyleFlags)
        ensures
            r == self.spec_style(),
    {
        self.style
    }
}

impl Widget for Paragraph {
    /// The wrapped lines, one per row from the top, as many as fit.
    closed spec fn rendered(&self, grid: Seq<Cell>, region: Region) -> Seq<Cell> {
        let lines = wrap_spec(self.text@, region.spec_width() as int);
        rows_written(
            grid,
            region.spec_x() as int,
            region.spec_y() as int,
            lines,
            Seq::new(lines.len(), |i: int| region.spec_width() as int),
            self.style,
            min(lines.len() as int, region.spec_height() as int) as nat,
        )
    }

    fn render(&self, page: &mut PageBuilder, region: Region) {
        let x = region.x();
        let y = region.y();
        let width = region.width();
        let height = region.height();
        let lines = wrap_text(self.text.as_str(), width as usize);
        let ghost g0 = page.grid();
        let ghost texts = wrap_spec(self.text@, width as int);
        let ghost limits = Seq::new(texts.len(), |i: int| width as int);
        let mut i: usize = 0;
        while i < lines.len() && i < height as usize
            invariant
                i <= lines@.len(),
                i <= height,
                texts == texts_of(lines@),
                limits == Seq::new(texts.len(), |i: int| width as int),
                region.is(x as int, y as int, width as int, height as int),
                x + width <= 160 && y + height <= 51 && width > 0 && height > 0,
                g0 == old(page).grid(),
                page.grid() == rows_written(g0, x as int, y as int, texts, limits, self.style, i as nat),
                inside_only(g0, page.grid(), region),
            decreases lines@.len() - i,
        {
            let chars = chars_of(lines[i].as_str());
            let ghost before = page.grid();
            write_limited(page, region, x, y + i as u16, &chars, width as usize, self.style);
            proof {
                lemma_same_outside_trans(
                    g0,
                    before,
                    page.grid(),
                    x as int,
                    y as int,
                    width as int,
                    height as int,
                );
            }
            i = i + 1;
        }
    }
}

} // verus!
