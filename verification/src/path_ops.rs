//! Painted paths: placing a path on the page and measuring its extent.

use crate::fixed::Fixed;
use crate::models::{Bounds, PathCommand, TransformMatrix};
use vstd::prelude::*;

verus! {

/// A painted path in page coordinates: origin top-left, y growing downwards.
#[derive(Debug)]
pub struct ExtractedPath {
    pub commands: Vec<PathCommand>,
    pub stroke_color: Option<[Fixed; 4]>,
    pub fill_color: Option<[Fixed; 4]>,
    pub line_width: Fixed,
    pub bounds: Bounds,
    pub transform: TransformMatrix,
}

/// The mathematical content of an [`ExtractedPath`].
pub struct PathModel {
    pub commands: Seq<PathCommand>,
    pub stroke_color: Option<Seq<Fixed>>,
    pub fill_color: Option<Seq<Fixed>>,
    pub line_width: Fixed,
    pub bounds: Bounds,
    pub transform: TransformMatrix,
}

/// The channels of an optional colour.
pub open spec fn color_view(color: Option<[Fixed; 4]>) -> Option<Seq<Fixed>> {
    match color {
        Some(c) => Some(c@),
        None => None,
    }
}

impl View for ExtractedPath {
    type V = PathModel;

    open spec fn view(&self) -> PathModel {
        PathModel {
            commands: self.commands@,
            stroke_color: color_view(self.stroke_color),
            fill_color: color_view(self.fill_color),
            line_width: self.line_width,
            bounds: self.bounds,
            transform: self.transform,
        }
    }
}

/// A copy of a command list.
pub fn copy_commands(commands: &Vec<PathCommand>) -> (r: Vec<PathCommand>)
    ensures
        r@ == commands@,
{
    let mut r: Vec<PathCommand> = Vec::new();
    let mut i: usize = 0;
    while i < commands.len()
        invariant
            i <= commands.len(),
            r@ == commands@.take(i as int),
        decreases commands.len() - i,
    {
        r.push(commands[i]);
        assert(commands@.take(i + 1) =~= commands@.take(i as int).push(commands@[i as int]));
        i += 1;
    }
    assert(commands@.take(commands.len() as int) =~= commands@);
    r
}

impl Clone for ExtractedPath {
    fn clone(&self) -> (r: Self)
        ensures
            r@ == self@,
    {
        ExtractedPath {
            commands: copy_commands(&self.commands),
            stroke_color: self.stroke_color,
            fill_color: self.fill_color,
            line_width: self.line_width,
            bounds: self.bounds,
            transform: self.transform,
        }
    }
}

/// The smallest and largest coordinates seen so far.
#[derive(Debug, Clone, Copy, PartialEq, Eq, Structural)]
pub struct Extent {
    pub min_x: Fixed,
    pub min_y: Fixed,
    pub max_x: Fixed,
    pub max_y: Fixed,
}

impl Extent {
    /// The extent of no point at all.
    pub open spec fn spec_empty() -> Extent {
        Extent {
            min_x: Fixed::spec_largest(),
            min_y: Fixed::spec_largest(),
            max_x: Fixed::spec_smallest(),
            max_y: Fixed::spec_smallest(),
        }
    }

    /// The extent widened to hold `(x, y)`.
    pub open spec fn with_point(self, x: Fixed, y: Fixed) -> Extent {
        Extent {
            min_x: self.min_x.spec_min(x),
            min_y: self.min_y.spec_min(y),
            max_x: self.max_x.spec_max(x),
            max_y: self.max_y.spec_max(y),
        }
    }

    /// The extent widened to hold every point of `cmd`, control points
    /// included.
    pub open spec fn with_command(self, cmd: PathCommand) -> Extent {
        match cmd {
            PathCommand::MoveTo { x, y } => self.with_point(x, y),
            PathCommand::LineTo { x, y } => self.with_point(x, y),
            PathCommand::CurveTo { x1, y1, x2, y2, x, y } => self.with_point(x1, y1).with_point(
                x2,
                y2,
            ).with_point(x, y),
            PathCommand::ClosePath => self,
        }
    }

    /// `(x, y)` lies within the extent.
    pub open spec fn holds(self, x: Fixed, y: Fixed) -> bool {
        self.min_x.micros <= x.micros <= self.max_x.micros && self.min_y.micros <= y.micros
            <= self.max_y.micros
    }

    /// Every point of `cmd` lies within the extent.
    pub open spec fn covers(self, cmd: PathCommand) -> bool {
        match cmd {
            PathCommand::MoveTo { x, y } => self.holds(x, y),
            PathCommand::LineTo { x, y } => self.holds(x, y),
            PathCommand::CurveTo { x1, y1, x2, y2, x, y } => self.holds(x1, y1) && self.holds(
                x2,
                y2,
            ) && self.holds(x, y),
            PathCommand::ClosePath => true,
        }
    }

    /// `self` reaches at least as far as `inner` on every side.
    pub open spec fn encloses(self, inner: Extent) -> bool {
        self.min_x.micros <= inner.min_x.micros && self.min_y.micros <= inner.min_y.micros
            && inner.max_x.micros <= self.max_x.micros && inner.max_y.micros <= self.max_y.micros
    }

    /// The extent of no point at all.
    pub fn empty() -> (e: Extent)
        ensures
            e == Extent::spec_empty(),
    {
        Extent {
            min_x: Fixed::largest(),
            min_y: Fixed::largest(),
            max_x: Fixed::smallest(),
            max_y: Fixed::smallest(),
        }
    }
}

/// The extent of all points of a command list.
pub open spec fn extent_of(commands: Seq<PathCommand>) -> Extent
    decreases commands.len(),
{
    if commands.len() == 0 {
        Extent::spec_empty()
    } else {
        extent_of(commands.drop_last()).with_command(commands.last())
    }
}

/// A user-space point on the page: mapped by `ctm`, then flipped so that y
/// counts down from the top edge.
pub open spec fn placed_point(ctm: TransformMatrix, page_height: Fixed, x: Fixed, y: Fixed) -> (
    Fixed,
    Fixed,
) {
    let p = ctm.spec_transform_point(x, y);
    (p.0, page_height.spec_minus(p.1))
}

/// A user-space command on the page.
pub open spec fn placed_command(
    cmd: PathCommand,
    ctm: TransformMatrix,
    page_height: Fixed,
) -> PathCommand {
    match cmd {
        PathCommand::MoveTo { x, y } => {
            let p = placed_point(ctm, page_height, x, y);
            PathCommand::MoveTo { x: p.0, y: p.1 }
        },
        PathCommand::LineTo { x, y } => {
            let p = placed_point(ctm, page_height, x, y);
            PathCommand::LineTo { x: p.0, y: p.1 }
        },
        PathCommand::CurveTo { x1, y1, x2, y2, x, y } => {
            let p1 = placed_point(ctm, page_height, x1, y1);
            let p2 = placed_point(ctm, page_height, x2, y2);
            let p = placed_point(ctm, page_height, x, y);
            PathCommand::CurveTo { x1: p1.0, y1: p1.1, x2: p2.0, y2: p2.1, x: p.0, y: p.1 }
        },
        PathCommand::ClosePath => PathCommand::ClosePath,
    }
}

/// A user-space command list on the page.
pub open spec fn placed(
    commands: Seq<PathCommand>,
    ctm: TransformMatrix,
    page_height: Fixed,
) -> Seq<PathCommand> {
    Seq::new(commands.len(), |i: int| placed_command(commands[i], ctm, page_height))
}

/// The box around an extent, each side at least one point long.
pub open spec fn bounds_of(e: Extent) -> Bounds {
    Bounds {
        x: e.min_x,
        y: e.min_y,
        width: e.max_x.spec_minus(e.min_x).spec_max(Fixed::spec_one()),
        height: e.max_y.spec_minus(e.min_y).spec_max(Fixed::spec_one()),
    }
}

/// The painted path that a user-space command list gives under `ctm` on a
/// page of the given height.
pub open spec fn path_record(
    commands: Seq<PathCommand>,
    stroke: Option<Seq<Fixed>>,
    fill: Option<Seq<Fixed>>,
    line_width: Fixed,
    ctm: TransformMatrix,
    page_height: Fixed,
) -> PathModel {
    let out = placed(commands, ctm, page_height);
    PathModel {
        commands: out,
        stroke_color: stroke,
        fill_color: fill,
        line_width: line_width.spec_times(ctm.spec_scale_x().spec_abs()),
        bounds: bounds_of(extent_of(out)),
        transform: ctm,
    }
}

/// Widens an extent to hold `(x, y)`.
pub fn update_bounds(x: Fixed, y: Fixed, extent: &mut Extent)
    ensures
        *final(extent) == old(extent).with_point(x, y),
{
    extent.min_x = extent.min_x.min(x);
    extent.min_y = extent.min_y.min(y);
    extent.max_x = extent.max_x.max(x);
    extent.max_y = extent.max_y.max(y);
}

fn place_point(ctm: &TransformMatrix, page_height: Fixed, x: Fixed, y: Fixed) -> (p: (Fixed, Fixed))
    ensures
        p == placed_point(*ctm, page_height, x, y),
{
    let (tx, ty) = ctm.transform_point(x, y);
    (tx, page_height.minus(ty))
}

/// Places one command on the page and widens the extent by its points.
pub fn transform_command(
    cmd: &PathCommand,
    ctm: &TransformMatrix,
    page_height: Fixed,
    extent: &mut Extent,
) -> (out: PathCommand)
    ensures
        out == placed_command(*cmd, *ctm, page_height),
        *final(extent) == old(extent).with_command(out),
{
    match cmd {
        PathCommand::MoveTo { x, y } => {
            let (tx, ty) = place_point(ctm, page_height, *x, *y);
            update_bounds(tx, ty, extent);
            PathCommand::MoveTo { x: tx, y: ty }
        },
        PathCommand::LineTo { x, y } => {
            let (tx, ty) = place_point(ctm, page_height, *x, *y);
            update_bounds(tx, ty, extent);
            PathCommand::LineTo { x: tx, y: ty }
        },
        PathCommand::CurveTo { x1, y1, x2, y2, x, y } => {
            let (tx1, ty1) = place_point(ctm, page_height, *x1, *y1);
            let (tx2, ty2) = place_point(ctm, page_height, *x2, *y2);
            let (tx, ty) = place_point(ctm, page_height, *x, *y);
            update_bounds(tx1, ty1, extent);
            update_bounds(tx2, ty2, extent);
            update_bounds(tx, ty, extent);
            PathCommand::CurveTo { x1: tx1, y1: ty1, x2: tx2, y2: ty2, x: tx, y: ty }
        },
        PathCommand::ClosePath => PathCommand::ClosePath,
    }
}

/// Places a finished path on the page: every point goes through `ctm` and is
/// flipped against the page height; the box is the extent of all placed
/// points; the line width is scaled by the horizontal scale of `ctm`.
pub fn transform_path(
    commands: &Vec<PathCommand>,
    stroke: Option<[Fixed; 4]>,
    fill: Option<[Fixed; 4]>,
    line_width: Fixed,
    ctm: &TransformMatrix,
    page_height: Fixed,
) -> (path: ExtractedPath)
    ensures
        path@ == path_record(
            commands@,
            color_view(stroke),
            color_view(fill),
            line_width,
            *ctm,
            page_height,
        ),
{
    let mut extent = Extent::empty();
    let mut transformed: Vec<PathCommand> = Vec::new();
    let ghost target = placed(commands@, *ctm, page_height);
    let mut i: usize = 0;
    while i < commands.len()
        invariant
            i <= commands.len(),
            target == placed(commands@, *ctm, page_height),
            transformed@ == target.take(i as int),
            extent == extent_of(transformed@),
        decreases commands.len() - i,
    {
        let out = transform_command(&commands[i], ctm, page_height, &mut extent);
        transformed.push(out);
        proof {
            assert(transformed@.drop_last() =~= target.take(i as int));
            assert(transformed@ =~= target.take(i + 1));
        }
        i += 1;
    }
    proof {
        assert(target.take(commands.len() as int) =~= target);
    }
    ExtractedPath {
        commands: transformed,
        stroke_color: stroke,
        fill_color: fill,
        line_width: line_width.times(ctm.scale_x().abs()),
        bounds: Bounds::new(
            extent.min_x,
            extent.min_y,
            extent.max_x.minus(extent.min_x).max(Fixed::one()),
            extent.max_y.minus(extent.min_y).max(Fixed::one()),
        ),
        transform: *ctm,
    }
}

/// Widening an extent keeps all that it held.
pub proof fn lemma_with_command_encloses(e: Extent, cmd: PathCommand)
    ensures
        e.with_command(cmd).encloses(e),
        e.with_command(cmd).covers(cmd),
{
}

/// Every point of every command lies within the extent of the list.
pub proof fn law_extent_covers(commands: Seq<PathCommand>, i: int)
    requires
        0 <= i < commands.len(),
    ensures
        extent_of(commands).covers(commands[i]),
    decreases commands.len(),
{
    let head = commands.drop_last();
    lemma_with_command_encloses(extent_of(head), commands.last());
    if i < commands.len() - 1 {
        law_extent_covers(head, i);
        assert(head[i] == commands[i]);
    }
}

/// Under the identity on a page of height `h`, a point `(x, y)` is placed at
/// `(x, h - y)`: the flip is applied once.
pub proof fn law_flip_once(page_height: Fixed, x: Fixed, y: Fixed)
    ensures
        placed_point(TransformMatrix::spec_identity(), page_height, x, y) == (
            x,
            page_height.spec_minus(y),
        ),
{
    crate::models::law_identity_fixes_points(x, y);
}

} // verus!
