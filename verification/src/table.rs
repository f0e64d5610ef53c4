//! The plain-text people table, with columns aligned by terminal cell width.
use vstd::prelude::*;

use crate::i18n::{Lang, Msg, msg, msg_spec};
use crate::output::Row;
use crate::text::{chars_to_string, is_space, last_non_space, push_all, push_str, str_chars};

verus! {

/// Terminal cell width of a character as the `unicode-width` crate reports it.
pub uninterp spec fn char_width(c: char) -> Option<usize>;

/// `UnicodeWidthChar::width`: `None` for control characters, one cell for printable ASCII.
#[verifier::external_body]
pub(crate) fn unicode_char_width(c: char) -> (r: Option<usize>)
    ensures
        r == char_width(c),
        ' ' <= c && '\u{7f}' > c ==> r == Some(1usize),
        c < ' ' ==> r is None,
{
    unicode_width::UnicodeWidthChar::width(c)
}

/// Cells a character takes: zodiac signs (U+2648 to U+2653) count two, as terminals
/// draw them as emoji; control characters none.
pub open spec fn cell_width(c: char) -> int {
    if '\u{2648}' <= c <= '\u{2653}' {
        2
    } else if ' ' <= c && '\u{7f}' > c {
        1
    } else {
        match char_width(c) {
            Some(w) => w as int,
            None => 0,
        }
    }
}

/// Cells a text takes.
pub open spec fn width_of(s: Seq<char>) -> int
    decreases s.len(),
{
    if s.len() == 0 {
        0
    } else {
        width_of(s.drop_last()) + cell_width(s.last())
    }
}

pub proof fn lemma_width_nonneg(s: Seq<char>)
    ensures
        width_of(s) >= 0,
    decreases s.len(),
{
    if s.len() > 0 {
        lemma_width_nonneg(s.drop_last());
    }
}

/// Width is additive over concatenation.
pub proof fn lemma_width_concat(a: Seq<char>, b: Seq<char>)
    ensures
        width_of(a + b) == width_of(a) + width_of(b),
    decreases b.len(),
{
    if b.len() > 0 {
        lemma_width_concat(a, b.drop_last());
        assert((a + b).drop_last() =~= a + b.drop_last());
    } else {
        assert(a + b =~= a);
    }
}

/// `n` spaces.
pub open spec fn spaces(n: int) -> Seq<char> {
    Seq::new(if n < 0 { 0 } else { n as nat }, |i: int| ' ')
}

pub proof fn lemma_spaces_width(n: int)
    ensures
        width_of(spaces(n)) == if n < 0 { 0 } else { n },
    decreases if n < 0 { 0 } else { n },
{
    if n > 0 {
        lemma_spaces_width(n - 1);
        assert(spaces(n).drop_last() =~= spaces(n - 1));
    } else {
        assert(spaces(n) =~= Seq::<char>::empty());
    }
}

/// Display width of `s` in terminal cells.
pub fn display_width(s: &str) -> (r: usize)
    ensures
        r as int == if width_of(s@) <= usize::MAX { width_of(s@) } else { usize::MAX as int },
{
    let v = str_chars(s);
    chars_width(&v)
}

fn chars_width(v: &Vec<char>) -> (r: usize)
    ensures
        r as int == if width_of(v@) <= usize::MAX { width_of(v@) } else { usize::MAX as int },
{
    let mut total: usize = 0;
    let mut i: usize = 0;
    while i < v.len()
        invariant
            i <= v.len(),
            total as int == if width_of(v@.subrange(0, i as int)) <= usize::MAX {
                width_of(v@.subrange(0, i as int))
            } else {
                usize::MAX as int
            },
        decreases v.len() - i,
    {
        let c = v[i];
        let w: usize = if '\u{2648}' <= c && c <= '\u{2653}' {
            2
        } else {
            match unicode_char_width(c) {
                Some(w) => w,
                None => 0,
            }
        };
        proof {
            assert(v@.subrange(0, i + 1).drop_last() =~= v@.subrange(0, i as int));
            lemma_width_nonneg(v@.subrange(0, i as int));
        }
        total = total.saturating_add(w);
        i = i + 1;
    }
    proof {
        assert(v@.subrange(0, v.len() as int) =~= v@);
    }
    total
}

/// `s` followed by spaces up to `w` cells.
pub open spec fn pad_spec(s: Seq<char>, w: int) -> Seq<char> {
    s + spaces(w - width_of(s))
}

/// Padding a text that fits reaches exactly the column width.
pub proof fn lemma_pad_width(s: Seq<char>, w: int)
    ensures
        width_of(pad_spec(s, w)) == if width_of(s) <= w { w } else { width_of(s) },
{
    lemma_width_concat(s, spaces(w - width_of(s)));
    lemma_spaces_width(w - width_of(s));
}

fn pad_chars(out: &mut Vec<char>, s: &Vec<char>, w: usize)
    requires
        width_of(s@) <= usize::MAX,
    ensures
        final(out)@ == old(out)@ + pad_spec(s@, w as int),
{
    let ghost start = out@;
    push_all(out, s);
    let have = chars_width(s);
    let n: usize = if w > have {
        w - have
    } else {
        0
    };
    let mut k: usize = 0;
    while k < n
        invariant
            k <= n,
            out@ == start + s@ + spaces(k as int),
        decreases n - k,
    {
        out.push(' ');
        k = k + 1;
        proof {
            assert(spaces(k as int) =~= spaces(k - 1).push(' '));
        }
    }
    proof {
        assert(spaces(n as int) =~= spaces(w - width_of(s@)));
    }
}

/// `s` followed by spaces up to `w` terminal cells.
pub fn pad(s: &str, w: usize) -> (r: String)
    requires
        width_of(s@) <= usize::MAX,
    ensures
        r@ == pad_spec(s@, w as int),
{
    let v = str_chars(s);
    let mut out: Vec<char> = Vec::new();
    pad_chars(&mut out, &v, w);
    chars_to_string(out.as_slice())
}

/// The five cells of a table row; a birthday today gets a cake.
pub open spec fn row_cells(r: Row) -> Seq<Seq<char>> {
    let bday = if r.today { "🎂 "@ + r.birthday@ } else { r.birthday@ };
    seq![r.alias@, r.name@, r.age@, r.zodiac@, bday]
}

/// The header cells.
pub open spec fn header_cells(lang: Lang) -> Seq<Seq<char>> {
    seq![
        msg_spec(lang, Msg::ColAlias),
        msg_spec(lang, Msg::ColName),
        msg_spec(lang, Msg::ColAge),
        msg_spec(lang, Msg::ColZodiac),
        msg_spec(lang, Msg::ColBirthday),
    ]
}

pub open spec fn max_int(a: int, b: int) -> int {
    if a >= b { a } else { b }
}

/// Width of column `k` over the header and the first `n` rows.
pub open spec fn column_width(lang: Lang, rows: Seq<Row>, k: int, n: nat) -> int
    decreases n,
{
    if n == 0 {
        width_of(header_cells(lang)[k])
    } else {
        max_int(column_width(lang, rows, k, (n - 1) as nat), width_of(row_cells(rows[n - 1])[k]))
    }
}

/// `s` without trailing white space (`str::trim_end`).
pub open spec fn trim_end(s: Seq<char>) -> Seq<char> {
    s.subrange(0, last_non_space(s, 0, s.len() as int))
}

/// A table line: the first four cells padded to their column widths, cells separated by
/// two spaces, the last cell as is, trailing white space dropped.
pub open spec fn table_line(cells: Seq<Seq<char>>, widths: Seq<int>) -> Seq<char> {
    trim_end(
        pad_spec(cells[0], widths[0]) + "  "@ + pad_spec(cells[1], widths[1]) + "  "@ + pad_spec(
            cells[2],
            widths[2],
        ) + "  "@ + pad_spec(cells[3], widths[3]) + "  "@ + cells[4],
    )
}

/// All column widths of the table.
pub open spec fn table_widths(lang: Lang, rows: Seq<Row>) -> Seq<int> {
    Seq::new(5, |k: int| column_width(lang, rows, k, rows.len()))
}

/// The lines of the rows `0..n`, each followed by a newline.
pub open spec fn body_lines(rows: Seq<Row>, widths: Seq<int>, n: nat) -> Seq<char>
    decreases n,
{
    if n == 0 {
        Seq::empty()
    } else {
        body_lines(rows, widths, (n - 1) as nat) + table_line(row_cells(rows[n - 1]), widths)
            + seq!['\n']
    }
}

/// The whole table: header line, then one line per row, each ending in a newline.
pub open spec fn render_table_spec(lang: Lang, rows: Seq<Row>) -> Seq<char> {
    let widths = table_widths(lang, rows);
    table_line(header_cells(lang), widths) + seq!['\n'] + body_lines(rows, widths, rows.len())
}

/// Every cell fits its column.
pub proof fn lemma_column_fits(lang: Lang, rows: Seq<Row>, k: int, n: nat, i: int)
    requires
        0 <= k < 5,
        n <= rows.len(),
        -1 <= i < n,
    ensures
        i == -1 ==> width_of(header_cells(lang)[k]) <= column_width(lang, rows, k, n),
        i >= 0 ==> width_of(row_cells(rows[i])[k]) <= column_width(lang, rows, k, n),
    decreases n,
{
    if n > 0 && i != n - 1 {
        lemma_column_fits(lang, rows, k, (n - 1) as nat, i);
    }
}

/// Columns line up: in the header and in every row, each of the first four cells, once
/// padded, takes exactly its column's width in terminal cells.
pub proof fn lemma_columns_aligned(lang: Lang, rows: Seq<Row>, k: int, i: int)
    requires
        0 <= k < 4,
        -1 <= i < rows.len(),
    ensures
        ({
            let w = table_widths(lang, rows);
            let cells = if i == -1 { header_cells(lang) } else { row_cells(rows[i]) };
            width_of(pad_spec(cells[k], w[k])) == w[k]
        }),
{
    lemma_column_fits(lang, rows, k, rows.len(), i);
    let w = table_widths(lang, rows);
    let cells = if i == -1 { header_cells(lang) } else { row_cells(rows[i]) };
    lemma_pad_width(cells[k], w[k]);
}

/// The cells of line `i` of the table: the header for 0, then row `i - 1`.
pub open spec fn line_cells(lang: Lang, rows: Seq<Row>, i: int) -> Seq<Seq<char>> {
    if i == 0 { header_cells(lang) } else { row_cells(rows[i - 1]) }
}

/// The lines of the table, in order: the header, then one per row.
pub open spec fn table_lines(lang: Lang, rows: Seq<Row>) -> Seq<Seq<char>> {
    Seq::new(rows.len() + 1, |i: int| table_line(line_cells(lang, rows, i), table_widths(lang, rows)))
}

/// Lines joined into one text, each followed by a newline.
pub open spec fn joined_lines(ls: Seq<Seq<char>>) -> Seq<char>
    decreases ls.len(),
{
    if ls.len() == 0 {
        Seq::empty()
    } else {
        joined_lines(ls.drop_last()) + ls.last() + seq!['\n']
    }
}

/// A line before its trailing white space is dropped, up to where cell `k` starts: the
/// cells before it, padded, each followed by two spaces.
pub open spec fn line_prefix(cells: Seq<Seq<char>>, widths: Seq<int>, k: int) -> Seq<char>
    decreases k,
{
    if k <= 0 {
        Seq::empty()
    } else {
        line_prefix(cells, widths, k - 1) + pad_spec(cells[k - 1], widths[k - 1]) + "  "@
    }
}

/// The terminal column where cell `k` starts: the widths of the columns before it, each
/// with two spaces.
pub open spec fn column_start(widths: Seq<int>, k: int) -> int
    decreases k,
{
    if k <= 0 { 0 } else { column_start(widths, k - 1) + widths[k - 1] + 2 }
}

proof fn lemma_body_lines(lang: Lang, rows: Seq<Row>, n: nat)
    requires
        n <= rows.len(),
    ensures
        joined_lines(table_lines(lang, rows).subrange(0, n + 1 as int)) == table_line(
            header_cells(lang),
            table_widths(lang, rows),
        ) + seq!['\n'] + body_lines(rows, table_widths(lang, rows), n),
    decreases n,
{
    let ls = table_lines(lang, rows);
    let w = table_widths(lang, rows);
    if n == 0 {
        let one = ls.subrange(0, 1);
        assert(one.drop_last() =~= Seq::<Seq<char>>::empty());
        assert(joined_lines(one.drop_last()) =~= Seq::<char>::empty());
        assert(one.last() == ls[0]);
        assert(ls[0] == table_line(header_cells(lang), w));
        assert(body_lines(rows, w, 0) =~= Seq::<char>::empty());
        assert(joined_lines(one) =~= table_line(header_cells(lang), w) + seq!['\n'] + body_lines(rows, w, 0));
    } else {
        lemma_body_lines(lang, rows, (n - 1) as nat);
        assert(ls.subrange(0, n + 1 as int).drop_last() =~= ls.subrange(0, n as int));
        assert(ls.subrange(0, n + 1 as int).last() == table_line(row_cells(rows[n - 1]), w));
        assert(joined_lines(ls.subrange(0, n + 1 as int)) =~= table_line(header_cells(lang), w) + seq!['\n']
            + body_lines(rows, w, n));
    }
}

proof fn lemma_prefix_width(lang: Lang, rows: Seq<Row>, i: int, k: int)
    requires
        0 <= i <= rows.len(),
        0 <= k <= 4,
    ensures
        width_of(line_prefix(line_cells(lang, rows, i), table_widths(lang, rows), k)) == column_start(
            table_widths(lang, rows),
            k,
        ),
    decreases k,
{
    let cells = line_cells(lang, rows, i);
    let w = table_widths(lang, rows);
    if k > 0 {
        lemma_prefix_width(lang, rows, i, k - 1);
        lemma_columns_aligned(lang, rows, k - 1, i - 1);
        let a = line_prefix(cells, w, k - 1);
        let b = pad_spec(cells[k - 1], w[k - 1]);
        lemma_width_concat(a, b);
        lemma_width_concat(a + b, "  "@);
        assert(width_of("  "@) == 2) by {
            reveal_strlit("  ");
            let sp = "  "@;
            assert(sp.len() == 2 && sp[0] == ' ' && sp[1] == ' ');
            assert(sp.drop_last().drop_last() =~= Seq::<char>::empty());
            assert(width_of(sp.drop_last().drop_last()) == 0);
            assert(sp.drop_last().last() == ' ');
            assert(width_of(sp.drop_last()) == 1);
        }
    }
}

/// The layout of the people table. The text is its lines, in order (the header, then
/// one per row), each followed by a newline. Each line is its five cells, the first four
/// padded to their column's width, joined by two spaces, with trailing white space
/// dropped, so that no line ends in white space; in every line cell `k` starts at
/// terminal column `column_start(widths, k)`: the widths of the columns before it, two
/// spaces after each. A birthday today shows a cake before the birthday text.
pub proof fn lemma_table_layout(lang: Lang, rows: Seq<Row>)
    ensures
        render_table_spec(lang, rows) == joined_lines(table_lines(lang, rows)),
        table_lines(lang, rows).len() == rows.len() + 1,
        forall|i: int|
            0 <= i <= rows.len() ==> #[trigger] table_lines(lang, rows)[i] == trim_end(
                line_prefix(line_cells(lang, rows, i), table_widths(lang, rows), 4) + line_cells(
                    lang,
                    rows,
                    i,
                )[4],
            ),
        forall|i: int, k: int|
            0 <= i <= rows.len() && 0 <= k <= 4 ==> width_of(
                #[trigger] line_prefix(line_cells(lang, rows, i), table_widths(lang, rows), k),
            ) == column_start(table_widths(lang, rows), k),
        forall|i: int|
            0 <= i <= rows.len() && (#[trigger] table_lines(lang, rows)[i]).len() > 0 ==> !is_space(
                table_lines(lang, rows)[i].last(),
            ),
        forall|i: int|
            0 <= i < rows.len() ==> (#[trigger] line_cells(lang, rows, i + 1))[4] == if rows[i].today {
                "🎂 "@ + rows[i].birthday@
            } else {
                rows[i].birthday@
            },
{
    let ls = table_lines(lang, rows);
    let w = table_widths(lang, rows);
    lemma_body_lines(lang, rows, rows.len());
    assert(ls.subrange(0, rows.len() + 1 as int) =~= ls);
    assert forall|i: int| 0 <= i <= rows.len() implies #[trigger] ls[i] == trim_end(
        line_prefix(line_cells(lang, rows, i), w, 4) + line_cells(lang, rows, i)[4],
    ) by {
        let c = line_cells(lang, rows, i);
        reveal_with_fuel(line_prefix, 5);
        assert(line_prefix(c, w, 4) + c[4] =~= pad_spec(c[0], w[0]) + "  "@ + pad_spec(c[1], w[1]) + "  "@
            + pad_spec(c[2], w[2]) + "  "@ + pad_spec(c[3], w[3]) + "  "@ + c[4]);
    }
    assert forall|i: int, k: int| 0 <= i <= rows.len() && 0 <= k <= 4 implies width_of(
        #[trigger] line_prefix(line_cells(lang, rows, i), w, k),
    ) == column_start(w, k) by {
        lemma_prefix_width(lang, rows, i, k);
    }
    assert forall|i: int| 0 <= i <= rows.len() && (#[trigger] ls[i]).len() > 0 implies !is_space(
        ls[i].last(),
    ) by {
        let c = line_cells(lang, rows, i);
        let full = pad_spec(c[0], w[0]) + "  "@ + pad_spec(c[1], w[1]) + "  "@ + pad_spec(c[2], w[2]) + "  "@
            + pad_spec(c[3], w[3]) + "  "@ + c[4];
        crate::text::lemma_last_non_space(full, 0, full.len() as int);
    }
}

/// `s` holds no newline.
pub open spec fn no_newline(s: Seq<char>) -> bool {
    forall|j: int| 0 <= j < s.len() ==> s[j] != '\n'
}

proof fn lemma_header_no_newline(lang: Lang, k: int)
    requires
        0 <= k < 5,
    ensures
        no_newline(header_cells(lang)[k]),
{
    reveal_strlit("alias");
    reveal_strlit("name");
    reveal_strlit("age");
    reveal_strlit("zodiac");
    reveal_strlit("birthday");
    reveal_strlit("takma ad");
    reveal_strlit("ad");
    reveal_strlit("yaş");
    reveal_strlit("burç");
    reveal_strlit("doğum günü");
}

/// When no cell of `rows` holds a newline, no line of the table does either: the table
/// is exactly `rows.len() + 1` lines, each ended by its newline.
pub proof fn lemma_table_lines_one_per_row(lang: Lang, rows: Seq<Row>)
    requires
        forall|i: int, k: int| 0 <= i < rows.len() && 0 <= k < 5 ==> no_newline(#[trigger] row_cells(rows[i])[k]),
    ensures
        forall|i: int| 0 <= i <= rows.len() ==> no_newline(#[trigger] table_lines(lang, rows)[i]),
{
    let w = table_widths(lang, rows);
    reveal_strlit("  ");
    assert forall|i: int| 0 <= i <= rows.len() implies no_newline(#[trigger] table_lines(lang, rows)[i]) by {
        let c = line_cells(lang, rows, i);
        assert forall|k: int| 0 <= k < 5 implies no_newline(#[trigger] c[k]) by {
            if i == 0 {
                lemma_header_no_newline(lang, k);
            } else {
                assert(row_cells(rows[i - 1])[k] == c[k]);
            }
        }
        let p0 = pad_spec(c[0], w[0]);
        let p1 = pad_spec(c[1], w[1]);
        let p2 = pad_spec(c[2], w[2]);
        let p3 = pad_spec(c[3], w[3]);
        assert(no_newline(p0) && no_newline(p1) && no_newline(p2) && no_newline(p3)) by {
            assert(no_newline(c[0]) && no_newline(c[1]) && no_newline(c[2]) && no_newline(c[3]));
        }
        let full = p0 + "  "@ + p1 + "  "@ + p2 + "  "@ + p3 + "  "@ + c[4];
        assert(no_newline(c[4]));
        assert(no_newline(full));
        crate::text::lemma_last_non_space(full, 0, full.len() as int);
        assert(table_lines(lang, rows)[i] == trim_end(full));
    }
}

fn trim_end_chars(v: &mut Vec<char>)
    ensures
        final(v)@ == trim_end(old(v)@),
{
    let ghost s = v@;
    while v.len() > 0 && crate::text::is_space_char(v[v.len() - 1])
        invariant
            v@ == s.subrange(0, v.len() as int),
            v.len() <= s.len(),
            last_non_space(s, 0, s.len() as int) == last_non_space(s, 0, v.len() as int),
        decreases v.len(),
    {
        v.pop();
    }
    proof {
        reveal_with_fuel(last_non_space, 2);
    }
}

fn row_cells_exec(r: &Row) -> (c: Vec<Vec<char>>)
    ensures
        c.len() == 5,
        forall|k: int| 0 <= k < 5 ==> (#[trigger] c[k])@ == row_cells(*r)[k],
{
    let mut bday: Vec<char> = Vec::new();
    if r.today {
        push_str(&mut bday, "🎂 ");
    }
    push_str(&mut bday, r.birthday.as_str());
    let c = vec![
        str_chars(r.alias.as_str()),
        str_chars(r.name.as_str()),
        str_chars(r.age.as_str()),
        str_chars(r.zodiac.as_str()),
        bday,
    ];
    proof {
        assert(c[4]@ =~= row_cells(*r)[4]);
    }
    c
}

fn header_cells_exec(lang: Lang) -> (c: Vec<Vec<char>>)
    ensures
        c.len() == 5,
        forall|k: int| 0 <= k < 5 ==> (#[trigger] c[k])@ == header_cells(lang)[k],
{
    vec![
        str_chars(msg(lang, Msg::ColAlias)),
        str_chars(msg(lang, Msg::ColName)),
        str_chars(msg(lang, Msg::ColAge)),
        str_chars(msg(lang, Msg::ColZodiac)),
        str_chars(msg(lang, Msg::ColBirthday)),
    ]
}

fn push_line(out: &mut Vec<char>, cells: &Vec<Vec<char>>, widths: &Vec<usize>)
    requires
        cells.len() == 5,
        widths.len() == 5,
        forall|k: int| 0 <= k < 5 ==> width_of((#[trigger] cells[k])@) <= usize::MAX,
    ensures
        final(out)@ == old(out)@ + table_line(
            Seq::new(5, |k: int| cells[k]@),
            Seq::new(5, |k: int| widths[k] as int),
        ) + seq!['\n'],
{
    let mut line: Vec<char> = Vec::new();
    pad_chars(&mut line, &cells[0], widths[0]);
    push_str(&mut line, "  ");
    pad_chars(&mut line, &cells[1], widths[1]);
    push_str(&mut line, "  ");
    pad_chars(&mut line, &cells[2], widths[2]);
    push_str(&mut line, "  ");
    pad_chars(&mut line, &cells[3], widths[3]);
    push_str(&mut line, "  ");
    push_all(&mut line, &cells[4]);
    let ghost full = line@;
    trim_end_chars(&mut line);
    line.push('\n');
    proof {
        let cs = Seq::new(5, |k: int| cells[k]@);
        let ws = Seq::new(5, |k: int| widths[k] as int);
        assert(full =~= pad_spec(cs[0], ws[0]) + "  "@ + pad_spec(cs[1], ws[1]) + "  "@ + pad_spec(
            cs[2],
            ws[2],
        ) + "  "@ + pad_spec(cs[3], ws[3]) + "  "@ + cs[4]);
    }
    push_all(out, &line);
}

/// Renders the rows as an aligned table under a localized header.
pub fn render_table(lang: Lang, rows: &Vec<Row>) -> (r: String)
    requires
        forall|i: int, k: int|
            0 <= i < rows.len() && 0 <= k < 5 ==> width_of(#[trigger] row_cells(rows[i])[k])
                <= usize::MAX,
        forall|k: int| 0 <= k < 5 ==> width_of(#[trigger] header_cells(lang)[k]) <= usize::MAX,
    ensures
        r@ == render_table_spec(lang, rows@),
{
    let header = header_cells_exec(lang);
    let mut widths: Vec<usize> = Vec::new();
    let mut k: usize = 0;
    while k < 5
        invariant
            k <= 5,
            header.len() == 5,
            forall|j: int| 0 <= j < 5 ==> (#[trigger] header[j])@ == header_cells(lang)[j],
            forall|j: int| 0 <= j < 5 ==> width_of(#[trigger] header_cells(lang)[j]) <= usize::MAX,
            widths.len() == k,
            forall|j: int| 0 <= j < k ==> (#[trigger] widths[j]) as int == column_width(lang, rows@, j, 0),
        decreases 5 - k,
    {
        widths.push(chars_width(&header[k]));
        k = k + 1;
    }
    let mut i: usize = 0;
    while i < rows.len()
        invariant
            i <= rows.len(),
            widths.len() == 5,
            forall|a: int, j: int|
                0 <= a < rows.len() && 0 <= j < 5 ==> width_of(#[trigger] row_cells(rows[a])[j])
                    <= usize::MAX,
            forall|j: int| 0 <= j < 5 ==> (#[trigger] widths[j]) as int == column_width(lang, rows@, j, i as nat),
        decreases rows.len() - i,
    {
        let cells = row_cells_exec(&rows[i]);
        let mut j: usize = 0;
        while j < 5
            invariant
                j <= 5,
                i < rows.len(),
                widths.len() == 5,
                cells.len() == 5,
                forall|q: int| 0 <= q < 5 ==> (#[trigger] cells[q])@ == row_cells(rows[i as int])[q],
                forall|a: int, q: int|
                    0 <= a < rows.len() && 0 <= q < 5 ==> width_of(#[trigger] row_cells(rows[a])[q])
                        <= usize::MAX,
                forall|q: int| 0 <= q < j ==> (#[trigger] widths[q]) as int == column_width(lang, rows@, q, (i + 1) as nat),
                forall|q: int| j <= q < 5 ==> (#[trigger] widths[q]) as int == column_width(lang, rows@, q, i as nat),
            decreases 5 - j,
        {
            let w = chars_width(&cells[j]);
            assert(width_of(row_cells(rows[i as int])[j as int]) <= usize::MAX);
            if w > widths[j] {
                widths.set(j, w);
            }
            j = j + 1;
        }
        i = i + 1;
    }
    let ghost ws = Seq::new(5, |k: int| widths[k] as int);
    proof {
        assert(ws =~= table_widths(lang, rows@));
    }
    let mut out: Vec<char> = Vec::new();
    proof {
        assert forall|q: int| 0 <= q < 5 implies width_of((#[trigger] header[q])@) <= usize::MAX by {
            assert(header[q]@ == header_cells(lang)[q]);
        }
    }
    push_line(&mut out, &header, &widths);
    proof {
        assert(Seq::new(5, |k: int| header[k]@) =~= header_cells(lang));
    }
    let mut i: usize = 0;
    while i < rows.len()
        invariant
            i <= rows.len(),
            widths.len() == 5,
            ws == Seq::new(5, |k: int| widths[k] as int),
            ws == table_widths(lang, rows@),
            forall|a: int, j: int|
                0 <= a < rows.len() && 0 <= j < 5 ==> width_of(#[trigger] row_cells(rows[a])[j])
                    <= usize::MAX,
            out@ == table_line(header_cells(lang), ws) + seq!['\n'] + body_lines(rows@, ws, i as nat),
        decreases rows.len() - i,
    {
        let cells = row_cells_exec(&rows[i]);
        proof {
            assert forall|q: int| 0 <= q < 5 implies width_of((#[trigger] cells[q])@) <= usize::MAX by {
                assert(cells[q]@ == row_cells(rows[i as int])[q]);
            }
        }
        push_line(&mut out, &cells, &widths);
        proof {
            assert(Seq::new(5, |k: int| cells[k]@) =~= row_cells(rows[i as int]));
        }
        i = i + 1;
    }
    chars_to_string(out.as_slice())
}

/// Every cell of the header and of `rows` is narrower than `usize::MAX` cells.
pub open spec fn table_fits(lang: Lang, rows: Seq<Row>) -> bool {
    &&& forall|i: int, k: int|
        0 <= i < rows.len() && 0 <= k < 5 ==> width_of(#[trigger] row_cells(rows[i])[k]) < usize::MAX
    &&& forall|k: int| 0 <= k < 5 ==> width_of(#[trigger] header_cells(lang)[k]) < usize::MAX
}

fn cells_fit(cells: &Vec<Vec<char>>) -> (r: bool)
    ensures
        r <==> forall|k: int| 0 <= k < cells.len() ==> width_of(#[trigger] cells[k]@) < usize::MAX,
{
    let mut k: usize = 0;
    while k < cells.len()
        invariant
            k <= cells.len(),
            forall|j: int| 0 <= j < k ==> width_of(#[trigger] cells[j]@) < usize::MAX,
        decreases cells.len() - k,
    {
        if chars_width(&cells[k]) == usize::MAX {
            return false;
        }
        k = k + 1;
    }
    true
}

/// The table, when every cell is narrower than `usize::MAX` cells (always, for any text
/// that fits in memory); `None` otherwise.
pub fn render_table_checked(lang: Lang, rows: &Vec<Row>) -> (r: Option<String>)
    ensures
        r is Some <==> table_fits(lang, rows@),
        r matches Some(t) ==> t@ == render_table_spec(lang, rows@),
{
    let header = header_cells_exec(lang);
    if !cells_fit(&header) {
        proof {
            let k = choose|k: int| 0 <= k < header.len() && !(width_of(#[trigger] header[k]@) < usize::MAX);
            assert(header[k]@ == header_cells(lang)[k]);
        }
        return None;
    }
    proof {
        assert forall|k: int| 0 <= k < 5 implies width_of(#[trigger] header_cells(lang)[k]) < usize::MAX by {
            assert(header[k]@ == header_cells(lang)[k]);
        }
    }
    let mut i: usize = 0;
    while i < rows.len()
        invariant
            i <= rows.len(),
            forall|k: int| 0 <= k < 5 ==> width_of(#[trigger] header_cells(lang)[k]) < usize::MAX,
            forall|j: int, k: int|
                0 <= j < i && 0 <= k < 5 ==> width_of(#[trigger] row_cells(rows[j])[k]) < usize::MAX,
        decreases rows.len() - i,
    {
        let cells = row_cells_exec(&rows[i]);
        if !cells_fit(&cells) {
            proof {
                let k = choose|k: int| 0 <= k < cells.len() && !(width_of(#[trigger] cells[k]@) < usize::MAX);
                assert(cells[k]@ == row_cells(rows[i as int])[k]);
            }
            return None;
        }
        proof {
            assert forall|j: int, k: int|
                0 <= j < i + 1 && 0 <= k < 5 implies width_of(#[trigger] row_cells(rows[j])[k]) < usize::MAX by {
                if j == i {
                    assert(cells[k]@ == row_cells(rows[i as int])[k]);
                }
            }
        }
        i = i + 1;
    }
    Some(render_table(lang, rows))
}

} // verus!
