//! Saddle-stitch booklet imposition: page ordering, creep compensation and
//! page placement.

use crate::fixed::Fixed;
use crate::models::TransformMatrix;
use vstd::prelude::*;

verus! {

broadcast use vstd::string::group_string_axioms;

/// Points per millimetre: 2.83465.
pub open spec fn mm_to_pt() -> Fixed {
    Fixed { micros: 2_834_650 }
}

/// Standard paper sizes.
#[derive(Debug, Clone, Copy, PartialEq, Eq, Structural)]
pub enum PaperSize {
    /// 297 × 420 mm
    A3,
    /// 210 × 297 mm
    A4,
    /// 148 × 210 mm
    A5,
    /// 8.5 × 11 in
    Letter,
    /// 8.5 × 14 in
    Legal,
    /// Any other size, in points.
    Custom { width: Fixed, height: Fixed },
}

/// A length in whole millimetres, in points.
pub open spec fn mm(n: int) -> Fixed {
    Fixed::spec_from_int(n).spec_times(mm_to_pt())
}

impl PaperSize {
    /// Width and height in points, portrait.
    pub open spec fn spec_dimensions(self) -> (Fixed, Fixed) {
        match self {
            PaperSize::A3 => (mm(297), mm(420)),
            PaperSize::A4 => (mm(210), mm(297)),
            PaperSize::A5 => (mm(148), mm(210)),
            PaperSize::Letter => (Fixed::spec_from_int(612), Fixed::spec_from_int(792)),
            PaperSize::Legal => (Fixed::spec_from_int(612), Fixed::spec_from_int(1008)),
            PaperSize::Custom { width, height } => (width, height),
        }
    }

    /// Width and height in points, portrait.
    pub fn dimensions(&self) -> (d: (Fixed, Fixed))
        ensures
            d == self.spec_dimensions(),
    {
        let k = Fixed::from_micros(2_834_650);
        match self {
            PaperSize::A3 => (Fixed::from_int(297).times(k), Fixed::from_int(420).times(k)),
            PaperSize::A4 => (Fixed::from_int(210).times(k), Fixed::from_int(297).times(k)),
            PaperSize::A5 => (Fixed::from_int(148).times(k), Fixed::from_int(210).times(k)),
            PaperSize::Letter => (Fixed::from_int(612), Fixed::from_int(792)),
            PaperSize::Legal => (Fixed::from_int(612), Fixed::from_int(1008)),
            PaperSize::Custom { width, height } => (*width, *height),
        }
    }

    /// Width and height in points, landscape: the portrait pair swapped.
    pub fn landscape(&self) -> (d: (Fixed, Fixed))
        ensures
            d == (self.spec_dimensions().1, self.spec_dimensions().0),
    {
        let (w, h) = self.dimensions();
        (h, w)
    }
}

/// The half of the sheet on which a page stands.
#[derive(Debug, Clone, Copy, PartialEq, Eq, Structural)]
pub enum PagePosition {
    Left,
    Right,
}

/// One page on one half of one side of a sheet.
#[derive(Debug, Clone, Copy, PartialEq, Eq, Structural)]
pub struct PagePlacement {
    /// The page number, counted from 1; 0 is a blank.
    pub page_num: u32,
    pub position: PagePosition,
    /// The rotation in degrees: 0 or 180.
    pub rotation: u16,
}

/// The four pages of one sheet.
#[derive(Debug, Clone, Copy)]
pub struct SheetLayout {
    pub sheet_index: usize,
    /// Left and right page of the front.
    pub front: [PagePlacement; 2],
    /// Left and right page of the back.
    pub back: [PagePlacement; 2],
}

/// How a booklet is imposed.
#[derive(Debug, Clone, Copy)]
pub struct ImpositionConfig {
    pub paper_size: PaperSize,
    pub final_size: PaperSize,
    /// Paper thickness in millimetres.
    pub paper_thickness_mm: Fixed,
    /// Whether inner sheets are shifted against creep.
    pub apply_creep: bool,
    /// Bleed in millimetres.
    pub bleed_mm: Fixed,
    pub crop_marks: bool,
    pub fold_marks: bool,
}

impl Default for ImpositionConfig {
    fn default() -> (c: Self)
        ensures
            c.paper_size == PaperSize::A4,
            c.final_size == PaperSize::A5,
            c.paper_thickness_mm.micros == 100_000,
            c.apply_creep,
            c.bleed_mm == Fixed::spec_from_int(3),
            !c.crop_marks,
            !c.fold_marks,
    {
        ImpositionConfig {
            paper_size: PaperSize::A4,
            final_size: PaperSize::A5,
            paper_thickness_mm: Fixed::from_micros(100_000),
            apply_creep: true,
            bleed_mm: Fixed::from_int(3),
            crop_marks: false,
            fold_marks: false,
        }
    }
}

/// The sheets of a booklet.
#[derive(Debug, Clone)]
pub struct ImpositionResult {
    pub sheets: Vec<SheetLayout>,
    pub total_pages: u32,
    pub padded_pages: u32,
    pub total_creep_mm: Fixed,
}

/// The least multiple of four that is not below `pages`.
pub open spec fn padded_count(pages: int) -> int {
    ((pages + 3) / 4) * 4
}

/// Rounds a page count up to a multiple of four.
pub fn pad_to_multiple_of_4(pages: u32) -> (padded: u32)
    requires
        pages <= u32::MAX - 3,
    ensures
        padded == padded_count(pages as int),
        padded % 4 == 0,
        pages <= padded < pages + 4,
{
    ((pages + 3) / 4) * 4
}

/// The page number printed for page `page` of a booklet of `total` pages:
/// pages beyond the last are blanks.
pub open spec fn printed(page: int, total: int) -> u32 {
    if page <= total {
        page as u32
    } else {
        0
    }
}

/// Sheet `s` of a booklet of `total` pages padded to `padded`: counted from
/// the outside, its front carries pages `padded - 2s` and `1 + 2s`, its back
/// pages `2 + 2s` and `padded - 1 - 2s`, the back turned by 180 degrees.
pub open spec fn is_sheet(sheet: SheetLayout, s: int, total: int, padded: int) -> bool {
    &&& sheet.sheet_index == s
    &&& sheet.front@[0] == (PagePlacement {
        page_num: printed(padded - 2 * s, total),
        position: PagePosition::Left,
        rotation: 0,
    })
    &&& sheet.front@[1] == (PagePlacement {
        page_num: printed(1 + 2 * s, total),
        position: PagePosition::Right,
        rotation: 0,
    })
    &&& sheet.back@[0] == (PagePlacement {
        page_num: printed(2 + 2 * s, total),
        position: PagePosition::Left,
        rotation: 180,
    })
    &&& sheet.back@[1] == (PagePlacement {
        page_num: printed(padded - 1 - 2 * s, total),
        position: PagePosition::Right,
        rotation: 180,
    })
}

/// The sheets are those of a saddle-stitched booklet of `total` pages, the
/// outermost first.
pub open spec fn is_ordering(sheets: Seq<SheetLayout>, total: int) -> bool {
    &&& sheets.len() == padded_count(total) / 4
    &&& forall|s: int|
        0 <= s < sheets.len() ==> is_sheet(#[trigger] sheets[s], s, total, padded_count(total))
}

fn printed_page(page: u32, total: u32) -> (n: u32)
    ensures
        n == printed(page as int, total as int),
{
    if page <= total {
        page
    } else {
        0
    }
}

/// Orders the pages of a saddle-stitched booklet: the page count is padded to
/// a multiple of four, each sheet takes four pages, and pages beyond the last
/// are left blank.
pub fn calculate_page_ordering(total_pages: u32) -> (result: ImpositionResult)
    requires
        total_pages <= u32::MAX - 3,
    ensures
        result.total_pages == total_pages,
        result.padded_pages == padded_count(total_pages as int),
        result.total_creep_mm == Fixed::spec_zero(),
        is_ordering(result.sheets@, total_pages as int),
{
    let padded = pad_to_multiple_of_4(total_pages);
    let sheets_count = padded / 4;
    let mut sheets: Vec<SheetLayout> = Vec::new();
    let mut sheet_idx: u32 = 0;
    while sheet_idx < sheets_count
        invariant
            sheet_idx <= sheets_count,
            sheets_count == padded / 4,
            padded == padded_count(total_pages as int),
            sheets.len() == sheet_idx,
            forall|s: int|
                0 <= s < sheets.len() ==> is_sheet(
                    #[trigger] sheets@[s],
                    s,
                    total_pages as int,
                    padded as int,
                ),
        decreases sheets_count - sheet_idx,
    {
        let front_left = padded - (sheet_idx * 2);
        let front_right = 1 + (sheet_idx * 2);
        let back_left = 2 + (sheet_idx * 2);
        let back_right = padded - 1 - (sheet_idx * 2);
        let sheet = SheetLayout {
            sheet_index: sheet_idx as usize,
            front: [
                PagePlacement {
                    page_num: printed_page(front_left, total_pages),
                    position: PagePosition::Left,
                    rotation: 0,
                },
                PagePlacement {
                    page_num: printed_page(front_right, total_pages),
                    position: PagePosition::Right,
                    rotation: 0,
                },
            ],
            back: [
                PagePlacement {
                    page_num: printed_page(back_left, total_pages),
                    position: PagePosition::Left,
                    rotation: 180,
                },
                PagePlacement {
                    page_num: printed_page(back_right, total_pages),
                    position: PagePosition::Right,
                    rotation: 180,
                },
            ],
        };
        assert(is_sheet(sheet, sheet_idx as int, total_pages as int, padded as int));
        sheets.push(sheet);
        sheet_idx += 1;
    }
    ImpositionResult {
        sheets,
        total_pages,
        padded_pages: padded,
        total_creep_mm: Fixed::zero(),
    }
}

/// On every sheet the two pages of a side add up to one more than the padded
/// page count, as folding asks; and all four lie within the booklet.
pub proof fn law_facing_pages_sum(s: int, total: int)
    requires
        0 <= total,
        0 <= s < padded_count(total) / 4,
    ensures
        ({
            let padded = padded_count(total);
            &&& (padded - 2 * s) + (1 + 2 * s) == padded + 1
            &&& (2 + 2 * s) + (padded - 1 - 2 * s) == padded + 1
            &&& 1 <= 1 + 2 * s < 2 + 2 * s <= padded / 2
            &&& padded / 2 < padded - 1 - 2 * s < padded - 2 * s <= padded
        }),
{
}

/// How far the sheets of a booklet are pushed out by the paper inside them.
#[derive(Debug, Clone)]
pub struct CreepData {
    pub total_creep_mm: Fixed,
    pub creep_per_sheet_mm: Fixed,
    /// The offset of each sheet, the outermost first.
    pub sheet_offsets_mm: Vec<Fixed>,
}

/// The creep of a booklet of `sheets` sheets of the given thickness: the
/// innermost sheet is pushed out by the thickness of all sheets around it.
pub open spec fn total_creep(sheets: int, thickness: Fixed) -> Fixed {
    if sheets <= 1 {
        Fixed::spec_zero()
    } else {
        Fixed::spec_from_int(sheets - 1).spec_times(thickness)
    }
}

/// The creep that each sheet adds to the one outside it.
pub open spec fn creep_step(sheets: int, thickness: Fixed) -> Fixed {
    if sheets <= 1 {
        Fixed::spec_zero()
    } else {
        total_creep(sheets, thickness).spec_over(Fixed::spec_from_int(sheets - 1))
    }
}

/// The offsets of all sheets: sheet `i` is shifted by `i` steps; a booklet of
/// at most one sheet has the single offset zero.
pub open spec fn creep_offsets(sheets: int, thickness: Fixed) -> Seq<Fixed> {
    if sheets <= 1 {
        seq![Fixed::spec_zero()]
    } else {
        Seq::new(
            sheets as nat,
            |i: int| Fixed::spec_from_int(i).spec_times(creep_step(sheets, thickness)),
        )
    }
}

/// Computes the creep of a booklet.
pub fn calculate_creep(sheets_count: u32, paper_thickness_mm: Fixed) -> (creep: CreepData)
    ensures
        creep.total_creep_mm == total_creep(sheets_count as int, paper_thickness_mm),
        creep.creep_per_sheet_mm == creep_step(sheets_count as int, paper_thickness_mm),
        creep.sheet_offsets_mm@ == creep_offsets(sheets_count as int, paper_thickness_mm),
{
    if sheets_count <= 1 {
        let mut offsets: Vec<Fixed> = Vec::new();
        offsets.push(Fixed::zero());
        assert(offsets@ =~= seq![Fixed::spec_zero()]);
        return CreepData {
            total_creep_mm: Fixed::zero(),
            creep_per_sheet_mm: Fixed::zero(),
            sheet_offsets_mm: offsets,
        };
    }
    let inner = Fixed::from_int((sheets_count - 1) as i64);
    let total_creep = inner.times(paper_thickness_mm);
    let creep_increment = total_creep.over(inner);
    let mut offsets: Vec<Fixed> = Vec::new();
    let mut i: u32 = 0;
    while i < sheets_count
        invariant
            i <= sheets_count,
            sheets_count > 1,
            creep_increment == creep_step(sheets_count as int, paper_thickness_mm),
            offsets@ == creep_offsets(sheets_count as int, paper_thickness_mm).take(i as int),
        decreases sheets_count - i,
    {
        offsets.push(Fixed::from_int(i as i64).times(creep_increment));
        assert(offsets@ =~= creep_offsets(sheets_count as int, paper_thickness_mm).take(i + 1));
        i += 1;
    }
    assert(offsets@ =~= creep_offsets(sheets_count as int, paper_thickness_mm));
    CreepData {
        total_creep_mm: total_creep,
        creep_per_sheet_mm: creep_increment,
        sheet_offsets_mm: offsets,
    }
}

/// The scale that fits a page into half a sheet: the smaller of the
/// horizontal and the vertical ratio.
pub open spec fn fit_scale(
    sheet_width: Fixed,
    sheet_height: Fixed,
    page_width: Fixed,
    page_height: Fixed,
) -> Fixed {
    sheet_width.spec_over(Fixed::spec_from_int(2)).spec_over(page_width).spec_min(
        sheet_height.spec_over(page_height),
    )
}

/// The matrix that places a page on its half of the sheet: scaled to fit,
/// shifted to its half and by the creep offset, and for a rotation of 180
/// degrees turned about so that it fills the same half.
pub open spec fn page_transform(
    position: PagePosition,
    rotation: u16,
    sheet_width: Fixed,
    sheet_height: Fixed,
    page_width: Fixed,
    page_height: Fixed,
    creep_offset_pt: Fixed,
) -> TransformMatrix {
    let scale = fit_scale(sheet_width, sheet_height, page_width, page_height);
    let base_x = match position {
        PagePosition::Left => creep_offset_pt,
        PagePosition::Right => sheet_width.spec_over(Fixed::spec_from_int(2)).spec_plus(
            creep_offset_pt,
        ),
    };
    if rotation == 180 {
        TransformMatrix {
            a: scale.spec_negated(),
            b: Fixed::spec_zero(),
            c: Fixed::spec_zero(),
            d: scale.spec_negated(),
            e: base_x.spec_plus(page_width.spec_times(scale)),
            f: sheet_height,
        }
    } else {
        TransformMatrix {
            a: scale,
            b: Fixed::spec_zero(),
            c: Fixed::spec_zero(),
            d: scale,
            e: base_x,
            f: Fixed::spec_zero(),
        }
    }
}

/// Computes the matrix that places a page on a sheet.
pub fn generate_page_transform(
    position: PagePosition,
    rotation: u16,
    sheet_width: Fixed,
    sheet_height: Fixed,
    page_width: Fixed,
    page_height: Fixed,
    creep_offset_pt: Fixed,
) -> (m: TransformMatrix)
    ensures
        m == page_transform(
            position,
            rotation,
            sheet_width,
            sheet_height,
            page_width,
            page_height,
            creep_offset_pt,
        ),
{
    let half_width = sheet_width.over(Fixed::from_int(2));
    let scale_x = half_width.over(page_width);
    let scale_y = sheet_height.over(page_height);
    let scale = scale_x.min(scale_y);
    let base_x = match position {
        PagePosition::Left => creep_offset_pt,
        PagePosition::Right => half_width.plus(creep_offset_pt),
    };
    if rotation == 180 {
        TransformMatrix {
            a: scale.negated(),
            b: Fixed::zero(),
            c: Fixed::zero(),
            d: scale.negated(),
            e: base_x.plus(page_width.times(scale)),
            f: sheet_height,
        }
    } else {
        TransformMatrix {
            a: scale,
            b: Fixed::zero(),
            c: Fixed::zero(),
            d: scale,
            e: base_x,
            f: Fixed::zero(),
        }
    }
}

/// The creep that an imposition reports: that of its sheets where creep
/// compensation is on and there is more than one sheet, else zero.
pub open spec fn reported_creep(total: int, apply_creep: bool, thickness: Fixed) -> Fixed {
    if apply_creep && padded_count(total) / 4 > 1 {
        total_creep(padded_count(total) / 4, thickness)
    } else {
        Fixed::spec_zero()
    }
}

/// Imposes a booklet: the page ordering, with the total creep where creep
/// compensation is asked for.
pub fn impose_booklet(total_pages: u32, config: &ImpositionConfig) -> (result: ImpositionResult)
    requires
        total_pages <= u32::MAX - 3,
    ensures
        result.total_pages == total_pages,
        result.padded_pages == padded_count(total_pages as int),
        is_ordering(result.sheets@, total_pages as int),
        result.total_creep_mm == reported_creep(
            total_pages as int,
            config.apply_creep,
            config.paper_thickness_mm,
        ),
{
    let mut result = calculate_page_ordering(total_pages);
    let sheets_count = (result.padded_pages / 4) as u32;
    if config.apply_creep && sheets_count > 1 {
        let creep = calculate_creep(sheets_count, config.paper_thickness_mm);
        result.total_creep_mm = creep.total_creep_mm;
    }
    result
}

/// One sheet of an imposition, flat.
#[derive(Debug, Clone, Copy, PartialEq, Eq, Structural)]
pub struct SheetLayoutResponse {
    pub sheet_index: usize,
    pub front_left: u32,
    pub front_right: u32,
    pub back_left: u32,
    pub back_right: u32,
    pub creep_offset_mm: Fixed,
}

/// An imposition, flat.
#[derive(Debug, Clone)]
pub struct BookletImpositionResponse {
    pub total_pages: u32,
    pub padded_pages: u32,
    pub sheets_count: u32,
    pub total_creep_mm: Fixed,
    pub sheets: Vec<SheetLayoutResponse>,
}

/// The flat form of sheet `s` of a booklet.
pub open spec fn sheet_response(
    s: int,
    total: int,
    apply_creep: bool,
    thickness: Fixed,
) -> SheetLayoutResponse {
    let padded = padded_count(total);
    SheetLayoutResponse {
        sheet_index: s as usize,
        front_left: printed(padded - 2 * s, total),
        front_right: printed(1 + 2 * s, total),
        back_left: printed(2 + 2 * s, total),
        back_right: printed(padded - 1 - 2 * s, total),
        creep_offset_mm: if apply_creep && padded / 4 > 1 {
            creep_offsets(padded / 4, thickness)[s]
        } else {
            Fixed::spec_zero()
        },
    }
}

/// The message for a booklet without pages.
pub open spec fn no_pages_message() -> Seq<char> {
    "Page count must be greater than 0"@
}

/// Imposes a booklet and gives the result in flat form; `None` for the
/// configuration stands for the default. A booklet needs at least one page.
pub fn calculate_booklet_imposition(total_pages: u32, config: Option<ImpositionConfig>) -> (r:
    Result<BookletImpositionResponse, String>)
    requires
        total_pages <= u32::MAX - 3,
    ensures
        total_pages == 0 ==> (r matches Err(msg) && msg@ == no_pages_message()),
        total_pages > 0 ==> (r matches Ok(resp) && {
            let cfg = match config {
                Some(c) => c,
                None => ImpositionConfig {
                    paper_size: PaperSize::A4,
                    final_size: PaperSize::A5,
                    paper_thickness_mm: Fixed { micros: 100_000 },
                    apply_creep: true,
                    bleed_mm: Fixed::spec_from_int(3),
                    crop_marks: false,
                    fold_marks: false,
                },
            };
            &&& resp.total_pages == total_pages
            &&& resp.padded_pages == padded_count(total_pages as int)
            &&& resp.sheets_count == padded_count(total_pages as int) / 4
            &&& resp.total_creep_mm == reported_creep(
                total_pages as int,
                cfg.apply_creep,
                cfg.paper_thickness_mm,
            )
            &&& resp.sheets@.len() == resp.sheets_count
            &&& forall|s: int|
                0 <= s < resp.sheets@.len() ==> #[trigger] resp.sheets@[s] == sheet_response(
                    s,
                    total_pages as int,
                    cfg.apply_creep,
                    cfg.paper_thickness_mm,
                )
        }),
{
    if total_pages == 0 {
        return Err("Page count must be greater than 0".to_string());
    }
    let cfg = match config {
        Some(c) => c,
        None => ImpositionConfig::default(),
    };
    let result = impose_booklet(total_pages, &cfg);
    let sheets_count: u32 = result.padded_pages / 4;
    let with_creep = cfg.apply_creep && sheets_count > 1;
    let creep = calculate_creep(sheets_count, cfg.paper_thickness_mm);
    let mut sheet_layouts: Vec<SheetLayoutResponse> = Vec::new();
    let mut idx: usize = 0;
    while idx < result.sheets.len()
        invariant
            idx <= result.sheets.len(),
            total_pages <= u32::MAX - 3,
            result.sheets.len() == sheets_count,
            sheets_count == padded_count(total_pages as int) / 4,
            is_ordering(result.sheets@, total_pages as int),
            with_creep == (cfg.apply_creep && sheets_count > 1),
            creep.sheet_offsets_mm@ == creep_offsets(sheets_count as int, cfg.paper_thickness_mm),
            sheet_layouts.len() == idx,
            forall|s: int|
                0 <= s < idx ==> #[trigger] sheet_layouts@[s] == sheet_response(
                    s,
                    total_pages as int,
                    cfg.apply_creep,
                    cfg.paper_thickness_mm,
                ),
        decreases result.sheets.len() - idx,
    {
        let sheet = &result.sheets[idx];
        assert(is_sheet(
            result.sheets@[idx as int],
            idx as int,
            total_pages as int,
            padded_count(total_pages as int),
        ));
        let creep_offset = if with_creep && idx < creep.sheet_offsets_mm.len() {
            creep.sheet_offsets_mm[idx]
        } else {
            Fixed::zero()
        };
        sheet_layouts.push(
            SheetLayoutResponse {
                sheet_index: idx,
                front_left: sheet.front[0].page_num,
                front_right: sheet.front[1].page_num,
                back_left: sheet.back[0].page_num,
                back_right: sheet.back[1].page_num,
                creep_offset_mm: creep_offset,
            },
        );
        idx += 1;
    }
    Ok(
        BookletImpositionResponse {
            total_pages,
            padded_pages: result.padded_pages,
            sheets_count,
            total_creep_mm: result.total_creep_mm,
            sheets: sheet_layouts,
        },
    )
}

/// Width and height of a paper size in points, portrait or landscape.
pub fn get_paper_dimensions(paper_size: PaperSize, landscape: bool) -> (d: (Fixed, Fixed))
    ensures
        d == if landscape {
            (paper_size.spec_dimensions().1, paper_size.spec_dimensions().0)
        } else {
            paper_size.spec_dimensions()
        },
{
    if landscape {
        paper_size.landscape()
    } else {
        paper_size.dimensions()
    }
}

} // verus!
