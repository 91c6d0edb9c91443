//! The formatting that a DOCX gives to runs, paragraphs and table cells.

use crate::content_parser::views;
use crate::document_parser::{BodyElement, DocxCell, DocxParagraph, DocxRow, DocxRun};
use crate::fixed::Fixed;
use crate::models::opt_text;
use crate::text::{push_text, same_text};
use vstd::prelude::*;
use vstd::string::StrSliceExecFns;

verus! {

broadcast use vstd::string::group_string_axioms;

/// The font of a run.
#[derive(Debug, Clone)]
pub struct DocxFontInfo {
    pub ascii: Option<String>,
    pub east_asia: Option<String>,
    pub h_ansi: Option<String>,
    pub cs: Option<String>,
    pub theme_font: Option<String>,
    /// The family that is used for the run.
    pub resolved: String,
    pub size: Option<Fixed>,
    pub is_bold: bool,
    pub is_italic: bool,
    pub color: Option<String>,
    pub underline: bool,
    pub strike: bool,
}

/// The mathematical content of a [`DocxFontInfo`].
pub struct FontInfoModel {
    pub ascii: Option<Seq<char>>,
    pub east_asia: Option<Seq<char>>,
    pub h_ansi: Option<Seq<char>>,
    pub cs: Option<Seq<char>>,
    pub theme_font: Option<Seq<char>>,
    pub resolved: Seq<char>,
    pub size: Option<Fixed>,
    pub is_bold: bool,
    pub is_italic: bool,
    pub color: Option<Seq<char>>,
    pub underline: bool,
    pub strike: bool,
}

impl View for DocxFontInfo {
    type V = FontInfoModel;

    open spec fn view(&self) -> FontInfoModel {
        FontInfoModel {
            ascii: opt_text(self.ascii),
            east_asia: opt_text(self.east_asia),
            h_ansi: opt_text(self.h_ansi),
            cs: opt_text(self.cs),
            theme_font: opt_text(self.theme_font),
            resolved: self.resolved@,
            size: self.size,
            is_bold: self.is_bold,
            is_italic: self.is_italic,
            color: opt_text(self.color),
            underline: self.underline,
            strike: self.strike,
        }
    }
}

/// The formatting of a table cell.
#[derive(Debug, Clone)]
pub struct TableCellInfo {
    pub width: Option<Fixed>,
    pub row_span: u32,
    pub col_span: u32,
    pub vertical_align: Option<String>,
}

/// The formatting of a paragraph.
#[derive(Debug, Clone)]
pub struct ParagraphInfo {
    pub font_family: Option<String>,
    pub font_size: Option<Fixed>,
    pub is_bold: bool,
    pub is_italic: bool,
    pub color: Option<String>,
    pub alignment: Option<String>,
    pub indent_left: Option<Fixed>,
    pub indent_right: Option<Fixed>,
    pub indent_first_line: Option<Fixed>,
    pub spacing_before: Option<Fixed>,
    pub spacing_after: Option<Fixed>,
    pub line_spacing: Option<Fixed>,
}

impl Default for ParagraphInfo {
    fn default() -> (p: Self)
        ensures
            p.font_family is None,
            p.font_size is None,
            !p.is_bold,
            !p.is_italic,
            p.color is None,
            p.alignment is None,
            p.indent_left is None,
            p.indent_right is None,
            p.indent_first_line is None,
            p.spacing_before is None,
            p.spacing_after is None,
            p.line_spacing is None,
    {
        ParagraphInfo {
            font_family: None,
            font_size: None,
            is_bold: false,
            is_italic: false,
            color: None,
            alignment: None,
            indent_left: None,
            indent_right: None,
            indent_first_line: None,
            spacing_before: None,
            spacing_after: None,
            line_spacing: None,
        }
    }
}

impl Default for TableCellInfo {
    fn default() -> (c: Self)
        ensures
            c.width is None,
            c.row_span == 0,
            c.col_span == 0,
            c.vertical_align is None,
    {
        TableCellInfo { width: None, row_span: 0, col_span: 0, vertical_align: None }
    }
}

/// The font of a run with what its paragraph adds: a run in `Arial`, the
/// family of a run that names none, takes the family of the paragraph or
/// else the default font; size and colour of the paragraph fill in where the
/// run has none; bold and italic add up.
pub open spec fn merged(
    run: FontInfoModel,
    para_family: Option<Seq<char>>,
    para_size: Option<Fixed>,
    para_bold: bool,
    para_italic: bool,
    para_color: Option<Seq<char>>,
    default_font: Seq<char>,
) -> FontInfoModel {
    FontInfoModel {
        resolved: if run.resolved != "Arial"@ {
            run.resolved
        } else {
            match para_family {
                Some(f) => f,
                None => default_font,
            }
        },
        size: match run.size {
            Some(s) => Some(s),
            None => para_size,
        },
        is_bold: run.is_bold || para_bold,
        is_italic: run.is_italic || para_italic,
        color: match run.color {
            Some(c) => Some(c),
            None => para_color,
        },
        ..run
    }
}

fn copy_opt(s: &Option<String>) -> (r: Option<String>)
    ensures
        opt_text(r) == opt_text(*s),
{
    match s {
        Some(t) => Some(t.clone()),
        None => None,
    }
}

/// Merges the font of a run with what its paragraph adds.
pub fn merge_font_info(run_info: &DocxFontInfo, para_info: &ParagraphInfo, default_font: &str) -> (
    out: DocxFontInfo)
    ensures
        out@ == merged(
            run_info@,
            opt_text(para_info.font_family),
            para_info.font_size,
            para_info.is_bold,
            para_info.is_italic,
            opt_text(para_info.color),
            default_font@,
        ),
{
    DocxFontInfo {
        ascii: copy_opt(&run_info.ascii),
        east_asia: copy_opt(&run_info.east_asia),
        h_ansi: copy_opt(&run_info.h_ansi),
        cs: copy_opt(&run_info.cs),
        theme_font: copy_opt(&run_info.theme_font),
        resolved: if !same_text(run_info.resolved.as_str(), "Arial") {
            run_info.resolved.clone()
        } else {
            match &para_info.font_family {
                Some(f) => f.clone(),
                None => default_font.to_string(),
            }
        },
        size: match run_info.size {
            Some(s) => Some(s),
            None => para_info.font_size,
        },
        is_bold: run_info.is_bold || para_info.is_bold,
        is_italic: run_info.is_italic || para_info.is_italic,
        color: match &run_info.color {
            Some(c) => Some(c.clone()),
            None => copy_opt(&para_info.color),
        },
        underline: run_info.underline,
        strike: run_info.strike,
    }
}

/// The font names that the properties of a run give.
#[derive(Debug, Clone)]
pub struct RunFonts {
    pub ascii: Option<String>,
    pub east_asia: Option<String>,
    pub h_ansi: Option<String>,
}

/// The properties of a run as the document holds them: the size in half
/// points, the colour as six hexadecimal digits.
#[derive(Debug, Clone)]
pub struct RunProps {
    pub fonts: Option<RunFonts>,
    pub half_points: Option<i64>,
    pub bold: bool,
    pub italics: bool,
    pub underline: bool,
    pub strike: bool,
    pub color: Option<String>,
}

/// The family that is used for a run with the given font names: the first
/// that is there of the ASCII, the high ANSI and the East Asian name, else
/// `Arial`.
pub open spec fn resolved_family(fonts: Option<RunFonts>) -> Seq<char> {
    match fonts {
        Some(f) => match (f.ascii, f.h_ansi, f.east_asia) {
            (Some(a), _, _) => a@,
            (None, Some(h), _) => h@,
            (None, None, Some(e)) => e@,
            (None, None, None) => "Arial"@,
        },
        None => "Arial"@,
    }
}

/// A length in points that the document holds in units of which `per_point`
/// make a point.
pub open spec fn scaled_down(units: int, per_point: int) -> Fixed {
    Fixed::spec_from_int(units).spec_over(Fixed::spec_from_int(per_point))
}

fn scale_down(units: i64, per_point: i64) -> (r: Fixed)
    ensures
        r == scaled_down(units as int, per_point as int),
{
    Fixed::from_int(units).over(Fixed::from_int(per_point))
}

/// An optional length in points.
pub open spec fn opt_scaled(units: Option<i64>, per_point: int) -> Option<Fixed> {
    match units {
        Some(u) => Some(scaled_down(u as int, per_point)),
        None => None,
    }
}

fn scale_opt(units: Option<i64>, per_point: i64) -> (r: Option<Fixed>)
    ensures
        r == opt_scaled(units, per_point as int),
{
    match units {
        Some(u) => Some(scale_down(u, per_point)),
        None => None,
    }
}

/// The font of a run with the given properties; without properties it is
/// plain `Arial`.
pub open spec fn run_font_of(props: Option<RunProps>) -> FontInfoModel {
    match props {
        Some(p) => FontInfoModel {
            ascii: match p.fonts {
                Some(f) => opt_text(f.ascii),
                None => None,
            },
            east_asia: match p.fonts {
                Some(f) => opt_text(f.east_asia),
                None => None,
            },
            h_ansi: match p.fonts {
                Some(f) => opt_text(f.h_ansi),
                None => None,
            },
            cs: None,
            theme_font: None,
            resolved: resolved_family(p.fonts),
            size: opt_scaled(p.half_points, 2),
            is_bold: p.bold,
            is_italic: p.italics,
            color: match p.color {
                Some(c) => Some(seq!['#'] + c@),
                None => None,
            },
            underline: p.underline,
            strike: p.strike,
        },
        None => FontInfoModel {
            ascii: None,
            east_asia: None,
            h_ansi: None,
            cs: None,
            theme_font: None,
            resolved: "Arial"@,
            size: None,
            is_bold: false,
            is_italic: false,
            color: None,
            underline: false,
            strike: false,
        },
    }
}

fn resolve_family(fonts: &Option<RunFonts>) -> (r: String)
    ensures
        r@ == resolved_family(*fonts),
{
    match fonts {
        Some(f) => match &f.ascii {
            Some(a) => a.clone(),
            None => match &f.h_ansi {
                Some(h) => h.clone(),
                None => match &f.east_asia {
                    Some(e) => e.clone(),
                    None => "Arial".to_string(),
                },
            },
        },
        None => "Arial".to_string(),
    }
}

/// Reads the font of a run from its properties.
pub fn extract_run_font(props: &Option<RunProps>) -> (info: DocxFontInfo)
    ensures
        info@ == run_font_of(*props),
{
    match props {
        Some(p) => {
            let resolved = resolve_family(&p.fonts);
            let (ascii, east_asia, h_ansi) = match &p.fonts {
                Some(f) => (copy_opt(&f.ascii), copy_opt(&f.east_asia), copy_opt(&f.h_ansi)),
                None => (None, None, None),
            };
            let color = match &p.color {
                Some(c) => {
                    let mut text = "#".to_string();
                    push_text(&mut text, c.as_str());
                    proof {
                        reveal_strlit("#");
                        assert("#"@ =~= seq!['#']);
                    }
                    Some(text)
                },
                None => None,
            };
            DocxFontInfo {
                ascii,
                east_asia,
                h_ansi,
                cs: None,
                theme_font: None,
                resolved,
                size: scale_opt(p.half_points, 2),
                is_bold: p.bold,
                is_italic: p.italics,
                color,
                underline: p.underline,
                strike: p.strike,
            }
        },
        None => DocxFontInfo {
            ascii: None,
            east_asia: None,
            h_ansi: None,
            cs: None,
            theme_font: None,
            resolved: "Arial".to_string(),
            size: None,
            is_bold: false,
            is_italic: false,
            color: None,
            underline: false,
            strike: false,
        },
    }
}

/// How a paragraph is justified.
#[derive(Debug, Clone, Copy, PartialEq, Eq, Structural)]
pub enum Justification {
    Left,
    Center,
    Right,
    Both,
    Other,
}

/// The name of a justification; one that has no name of its own counts as
/// left.
pub open spec fn justification_name(j: Justification) -> Seq<char> {
    match j {
        Justification::Left => "left"@,
        Justification::Center => "center"@,
        Justification::Right => "right"@,
        Justification::Both => "justify"@,
        Justification::Other => "left"@,
    }
}

fn name_of_justification(j: Justification) -> (r: String)
    ensures
        r@ == justification_name(j),
{
    match j {
        Justification::Left => "left".to_string(),
        Justification::Center => "center".to_string(),
        Justification::Right => "right".to_string(),
        Justification::Both => "justify".to_string(),
        Justification::Other => "left".to_string(),
    }
}

/// The properties of a paragraph as the document holds them: indents and
/// spacing in twentieths of a point, the line spacing in 240ths of a line.
#[derive(Debug, Clone, Copy, PartialEq, Eq, Structural)]
pub struct ParagraphProps {
    pub justification: Option<Justification>,
    pub indent_left: Option<i64>,
    pub indent_right: Option<i64>,
    pub indent_first_line: Option<i64>,
    pub spacing_before: Option<i64>,
    pub spacing_after: Option<i64>,
    pub spacing_line: Option<i64>,
}

/// Reads the formatting of a paragraph from its properties; without
/// properties nothing is set. Family, size, weight, slant and colour are
/// not read here.
pub fn extract_paragraph_props(props: &Option<ParagraphProps>) -> (info: ParagraphInfo)
    ensures
        info.font_family is None,
        info.font_size is None,
        !info.is_bold,
        !info.is_italic,
        info.color is None,
        match *props {
            Some(p) => {
                &&& opt_text(info.alignment) == match p.justification {
                    Some(j) => Some(justification_name(j)),
                    None => None,
                }
                &&& info.indent_left == opt_scaled(p.indent_left, 20)
                &&& info.indent_right == opt_scaled(p.indent_right, 20)
                &&& info.indent_first_line == opt_scaled(p.indent_first_line, 20)
                &&& info.spacing_before == opt_scaled(p.spacing_before, 20)
                &&& info.spacing_after == opt_scaled(p.spacing_after, 20)
                &&& info.line_spacing == opt_scaled(p.spacing_line, 240)
            },
            None => {
                &&& info.alignment is None
                &&& info.indent_left is None
                &&& info.indent_right is None
                &&& info.indent_first_line is None
                &&& info.spacing_before is None
                &&& info.spacing_after is None
                &&& info.line_spacing is None
            },
        },
{
    let mut info = ParagraphInfo::default();
    match props {
        Some(p) => {
            info.alignment = match p.justification {
                Some(j) => Some(name_of_justification(j)),
                None => None,
            };
            info.indent_left = scale_opt(p.indent_left, 20);
            info.indent_right = scale_opt(p.indent_right, 20);
            info.indent_first_line = scale_opt(p.indent_first_line, 20);
            info.spacing_before = scale_opt(p.spacing_before, 20);
            info.spacing_after = scale_opt(p.spacing_after, 20);
            info.line_spacing = scale_opt(p.spacing_line, 240);
        },
        None => {},
    }
    info
}

/// How the content of a cell is aligned from top to bottom.
#[derive(Debug, Clone, Copy, PartialEq, Eq, Structural)]
pub enum VerticalAlign {
    Top,
    Center,
    Bottom,
    Other,
}

/// The name of a vertical alignment; one that has no name of its own counts
/// as top.
pub open spec fn vertical_name(v: VerticalAlign) -> Seq<char> {
    match v {
        VerticalAlign::Top => "top"@,
        VerticalAlign::Center => "middle"@,
        VerticalAlign::Bottom => "bottom"@,
        VerticalAlign::Other => "top"@,
    }
}

/// Reads the formatting of a table cell: its width, held in twentieths of a
/// point, and its vertical alignment. It spans one row and one column.
pub fn extract_cell_props(width: Option<i64>, v_align: VerticalAlign) -> (info: TableCellInfo)
    ensures
        info.width == opt_scaled(width, 20),
        info.row_span == 1,
        info.col_span == 1,
        opt_text(info.vertical_align) == Some(vertical_name(v_align)),
{
    TableCellInfo {
        width: scale_opt(width, 20),
        row_span: 1,
        col_span: 1,
        vertical_align: Some(
            match v_align {
                VerticalAlign::Top => "top".to_string(),
                VerticalAlign::Center => "middle".to_string(),
                VerticalAlign::Bottom => "bottom".to_string(),
                VerticalAlign::Other => "top".to_string(),
            },
        ),
    }
}

/// Reads the widths of the grid columns of a table, held in twentieths of a
/// point.
pub fn extract_table_grid(widths: &Vec<i64>) -> (grid: Vec<Fixed>)
    ensures
        grid@.len() == widths@.len(),
        forall|i: int| 0 <= i < grid@.len() ==> #[trigger] grid@[i] == scaled_down(widths@[i] as int, 20),
{
    let mut grid: Vec<Fixed> = Vec::new();
    let mut i: usize = 0;
    while i < widths.len()
        invariant
            i <= widths.len(),
            grid@.len() == i,
            forall|k: int| 0 <= k < i ==> #[trigger] grid@[k] == scaled_down(widths@[k] as int, 20),
        decreases widths.len() - i,
    {
        grid.push(scale_down(widths[i], 20));
        i += 1;
    }
    grid
}

/// How a table is placed between the margins.
#[derive(Debug, Clone, Copy, PartialEq, Eq, Structural)]
pub enum TableJustification {
    Left,
    Center,
    Right,
    Other,
}

/// The name of the placement of a table; one that has no name of its own
/// counts as left.
pub open spec fn table_justification_name(j: TableJustification) -> Seq<char> {
    match j {
        TableJustification::Left => "left"@,
        TableJustification::Center => "center"@,
        TableJustification::Right => "right"@,
        TableJustification::Other => "left"@,
    }
}

/// Reads the width of a table, held in twentieths of a point, and its
/// placement.
pub fn extract_table_props(width: Option<i64>, justification: Option<TableJustification>) -> (r: (
    Option<Fixed>,
    Option<String>,
))
    ensures
        r.0 == opt_scaled(width, 20),
        opt_text(r.1) == match justification {
            Some(j) => Some(table_justification_name(j)),
            None => None,
        },
{
    let alignment = match justification {
        Some(TableJustification::Left) => Some("left".to_string()),
        Some(TableJustification::Center) => Some("center".to_string()),
        Some(TableJustification::Right) => Some("right".to_string()),
        Some(TableJustification::Other) => Some("left".to_string()),
        None => None,
    };
    (scale_opt(width, 20), alignment)
}

/// `found` with the names of `more` added in order, each unless it is empty
/// or already there.
pub open spec fn gathered(found: Seq<Seq<char>>, more: Seq<Seq<char>>) -> Seq<Seq<char>>
    decreases more.len(),
{
    if more.len() == 0 {
        found
    } else {
        let before = gathered(found, more.drop_last());
        if more.last().len() == 0 || before.contains(more.last()) {
            before
        } else {
            before.push(more.last())
        }
    }
}

/// Gathering two lists one after the other is gathering their concatenation.
pub proof fn lemma_gathered_concat(found: Seq<Seq<char>>, a: Seq<Seq<char>>, b: Seq<Seq<char>>)
    ensures
        gathered(found, a + b) == gathered(gathered(found, a), b),
    decreases b.len(),
{
    if b.len() == 0 {
        assert(a + b =~= a);
    } else {
        lemma_gathered_concat(found, a, b.drop_last());
        assert((a + b).drop_last() =~= a + b.drop_last());
        assert((a + b).last() == b.last());
    }
}

/// The families of the runs, in order.
pub open spec fn run_families(runs: Seq<DocxRun>) -> Seq<Seq<char>> {
    Seq::new(runs.len(), |i: int| runs[i].font.resolved@)
}

/// The families of the runs of the paragraphs, in order.
pub open spec fn paragraph_families(paras: Seq<DocxParagraph>) -> Seq<Seq<char>>
    decreases paras.len(),
{
    if paras.len() == 0 {
        Seq::empty()
    } else {
        paragraph_families(paras.drop_last()) + run_families(paras.last().runs@)
    }
}

/// The families of the runs in the cells, in order.
pub open spec fn cell_families(cells: Seq<DocxCell>) -> Seq<Seq<char>>
    decreases cells.len(),
{
    if cells.len() == 0 {
        Seq::empty()
    } else {
        cell_families(cells.drop_last()) + paragraph_families(cells.last().paragraphs@)
    }
}

/// The families of the runs in the rows, in order.
pub open spec fn row_families(rows: Seq<DocxRow>) -> Seq<Seq<char>>
    decreases rows.len(),
{
    if rows.len() == 0 {
        Seq::empty()
    } else {
        row_families(rows.drop_last()) + cell_families(rows.last().cells@)
    }
}

/// The families of all runs of a body, in order.
pub open spec fn body_families(elements: Seq<BodyElement>) -> Seq<Seq<char>>
    decreases elements.len(),
{
    if elements.len() == 0 {
        Seq::empty()
    } else {
        body_families(elements.drop_last()) + match elements.last() {
            BodyElement::Paragraph(para) => run_families(para.runs@),
            BodyElement::Table(table) => row_families(table.rows@),
            BodyElement::Other => Seq::empty(),
        }
    }
}

fn holds_text(found: &Vec<String>, name: &str) -> (r: bool)
    ensures
        r == views(found@).contains(name@),
{
    let mut i: usize = 0;
    while i < found.len()
        invariant
            i <= found.len(),
            forall|k: int| 0 <= k < i ==> views(found@)[k] != name@,
        decreases found.len() - i,
    {
        assert(views(found@)[i as int] == found@[i as int]@);
        if same_text(found[i].as_str(), name) {
            return true;
        }
        i += 1;
    }
    false
}

fn gather_runs(found: &mut Vec<String>, runs: &Vec<DocxRun>)
    ensures
        views(final(found)@) == gathered(views(old(found)@), run_families(runs@)),
{
    let mut i: usize = 0;
    assert(run_families(runs@).take(0) =~= Seq::<Seq<char>>::empty());
    while i < runs.len()
        invariant
            i <= runs.len(),
            views(found@) == gathered(views(old(found)@), run_families(runs@).take(i as int)),
        decreases runs.len() - i,
    {
        proof {
            assert(run_families(runs@).take(i + 1).drop_last() =~= run_families(runs@).take(
                i as int,
            ));
            assert(run_families(runs@).take(i + 1).last() == runs@[i as int].font.resolved@);
        }
        let name = runs[i].font.resolved.as_str();
        if name.unicode_len() > 0 && !holds_text(found, name) {
            let ghost before = views(found@);
            found.push(name.to_string());
            assert(views(found@) =~= before.push(name@));
        }
        i += 1;
    }
    assert(run_families(runs@).take(runs.len() as int) =~= run_families(runs@));
}

fn gather_paragraphs(found: &mut Vec<String>, paras: &Vec<DocxParagraph>)
    ensures
        views(final(found)@) == gathered(views(old(found)@), paragraph_families(paras@)),
{
    let mut i: usize = 0;
    while i < paras.len()
        invariant
            i <= paras.len(),
            views(found@) == gathered(views(old(found)@), paragraph_families(paras@.take(i as int))),
        decreases paras.len() - i,
    {
        proof {
            assert(paras@.take(i + 1).drop_last() =~= paras@.take(i as int));
            lemma_gathered_concat(
                views(old(found)@),
                paragraph_families(paras@.take(i as int)),
                run_families(paras@[i as int].runs@),
            );
        }
        gather_runs(found, &paras[i].runs);
        i += 1;
    }
    assert(paras@.take(paras.len() as int) =~= paras@);
}

fn gather_cells(found: &mut Vec<String>, cells: &Vec<DocxCell>)
    ensures
        views(final(found)@) == gathered(views(old(found)@), cell_families(cells@)),
{
    let mut i: usize = 0;
    while i < cells.len()
        invariant
            i <= cells.len(),
            views(found@) == gathered(views(old(found)@), cell_families(cells@.take(i as int))),
        decreases cells.len() - i,
    {
        proof {
            assert(cells@.take(i + 1).drop_last() =~= cells@.take(i as int));
            lemma_gathered_concat(
                views(old(found)@),
                cell_families(cells@.take(i as int)),
                paragraph_families(cells@[i as int].paragraphs@),
            );
        }
        gather_paragraphs(found, &cells[i].paragraphs);
        i += 1;
    }
    assert(cells@.take(cells.len() as int) =~= cells@);
}

fn gather_rows(found: &mut Vec<String>, rows: &Vec<DocxRow>)
    ensures
        views(final(found)@) == gathered(views(old(found)@), row_families(rows@)),
{
    let mut i: usize = 0;
    while i < rows.len()
        invariant
            i <= rows.len(),
            views(found@) == gathered(views(old(found)@), row_families(rows@.take(i as int))),
        decreases rows.len() - i,
    {
        proof {
            assert(rows@.take(i + 1).drop_last() =~= rows@.take(i as int));
            lemma_gathered_concat(
                views(old(found)@),
                row_families(rows@.take(i as int)),
                cell_families(rows@[i as int].cells@),
            );
        }
        gather_cells(found, &rows[i].cells);
        i += 1;
    }
    assert(rows@.take(rows.len() as int) =~= rows@);
}

/// The font families that a body uses: those of its runs, in paragraphs and
/// in table cells, each once and in the order in which they first occur; a
/// run without a family adds none.
pub fn extract_document_fonts(elements: &Vec<BodyElement>) -> (fonts: Vec<String>)
    ensures
        views(fonts@) == gathered(Seq::empty(), body_families(elements@)),
{
    let mut fonts: Vec<String> = Vec::new();
    let mut i: usize = 0;
    assert(views(fonts@) =~= Seq::<Seq<char>>::empty());
    while i < elements.len()
        invariant
            i <= elements.len(),
            views(fonts@) == gathered(Seq::empty(), body_families(elements@.take(i as int))),
        decreases elements.len() - i,
    {
        proof {
            assert(elements@.take(i + 1).drop_last() =~= elements@.take(i as int));
            assert(elements@.take(i + 1).last() == elements@[i as int]);
            lemma_gathered_concat(
                Seq::empty(),
                body_families(elements@.take(i as int)),
                match elements@[i as int] {
                    BodyElement::Paragraph(para) => run_families(para.runs@),
                    BodyElement::Table(table) => row_families(table.rows@),
                    BodyElement::Other => Seq::empty(),
                },
            );
        }
        match &elements[i] {
            BodyElement::Paragraph(para) => {
                gather_runs(&mut fonts, &para.runs);
            },
            BodyElement::Table(table) => {
                gather_rows(&mut fonts, &table.rows);
            },
            BodyElement::Other => {},
        }
        i += 1;
    }
    assert(elements@.take(elements.len() as int) =~= elements@);
    fonts
}

/// The font that a document uses where nothing else is said.
pub fn get_default_font() -> (f: String)
    ensures
        f@ == "Calibri"@,
{
    "Calibri".to_string()
}

} // verus!
