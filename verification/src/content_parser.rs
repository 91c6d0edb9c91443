//! The content-stream interpreter: a single pass over the operators of a page
//! that keeps the graphics state and emits positioned text runs and painted
//! paths.

use crate::fixed::Fixed;
use crate::graphics_state::{cmyk_to_rgb, rgba, spec_cmyk_to_rgb, GraphicsState, StateModel};
use crate::graphics_state::{hex_of, normalize_font_name, rgba_to_hex, web_family};
use crate::models::{
    LayerModel, LayerObject, LayerRole, LayerType, PathCommand, PathData, SourceType, TextAlign,
    TransformMatrix,
};
use crate::operand::{
    extract_string, get_float, join_array, joined, lossy_decoded, lossy_text,
    matrix_of, number_or_zero, parse_matrix, text_at, Operand, Operation,
};
use crate::path_ops::{color_view, path_record, transform_path, ExtractedPath, PathModel};
use crate::text::{
    blank, contains_chars, decimal, has_substring, is_blank, lowercase, push_decimal, to_chars,
    to_lowercase,
};
use crate::text_ops::{create_text, text_record, ExtractedText, TextModel};
use vstd::prelude::*;

verus! {

broadcast use vstd::string::group_string_axioms;

/// The operators that the interpreter knows.
#[derive(Debug, Clone, Copy, PartialEq, Eq, Structural)]
pub enum Operator {
    /// `q`
    Save,
    /// `Q`
    Restore,
    /// `cm`
    Concat,
    /// `w`
    LineWidth,
    /// `m`
    MoveTo,
    /// `l`
    LineTo,
    /// `c`
    CurveTo,
    /// `v`
    CurveFromCurrent,
    /// `y`
    CurveToEnd,
    /// `h`
    ClosePath,
    /// `re`
    Rectangle,
    /// `S`
    Stroke,
    /// `s`
    CloseStroke,
    /// `f`, `F`, `f*`
    Fill,
    /// `B`, `B*`
    FillStroke,
    /// `b`, `b*`
    CloseFillStroke,
    /// `n`
    EndPath,
    /// `g`
    FillGray,
    /// `G`
    StrokeGray,
    /// `rg`
    FillRgb,
    /// `RG`
    StrokeRgb,
    /// `k`
    FillCmyk,
    /// `K`
    StrokeCmyk,
    /// `Tc`
    CharSpacing,
    /// `Tw`
    WordSpacing,
    /// `TL`
    Leading,
    /// `Ts`
    Rise,
    /// `Tf`
    Font,
    /// `BT`
    BeginText,
    /// `Tm`
    TextMatrix,
    /// `Td`
    MoveText,
    /// `TD`
    MoveTextSetLeading,
    /// `T*`
    NextLine,
    /// `Tj`
    Show,
    /// `TJ`
    ShowArray,
    /// `'`
    NextLineShow,
    /// `"`
    SpacingShow,
    /// Anything else; it has no effect.
    Unknown,
}

/// The operator that a name in a content stream stands for.
pub open spec fn operator_of(name: Seq<char>) -> Operator {
    if name == "q"@ {
        Operator::Save
    } else if name == "Q"@ {
        Operator::Restore
    } else if name == "cm"@ {
        Operator::Concat
    } else if name == "w"@ {
        Operator::LineWidth
    } else if name == "m"@ {
        Operator::MoveTo
    } else if name == "l"@ {
        Operator::LineTo
    } else if name == "c"@ {
        Operator::CurveTo
    } else if name == "v"@ {
        Operator::CurveFromCurrent
    } else if name == "y"@ {
        Operator::CurveToEnd
    } else if name == "h"@ {
        Operator::ClosePath
    } else if name == "re"@ {
        Operator::Rectangle
    } else if name == "S"@ {
        Operator::Stroke
    } else if name == "s"@ {
        Operator::CloseStroke
    } else if name == "f"@ || name == "F"@ || name == "f*"@ {
        Operator::Fill
    } else if name == "B"@ || name == "B*"@ {
        Operator::FillStroke
    } else if name == "b"@ || name == "b*"@ {
        Operator::CloseFillStroke
    } else if name == "n"@ {
        Operator::EndPath
    } else if name == "g"@ {
        Operator::FillGray
    } else if name == "G"@ {
        Operator::StrokeGray
    } else if name == "rg"@ {
        Operator::FillRgb
    } else if name == "RG"@ {
        Operator::StrokeRgb
    } else if name == "k"@ {
        Operator::FillCmyk
    } else if name == "K"@ {
        Operator::StrokeCmyk
    } else if name == "Tc"@ {
        Operator::CharSpacing
    } else if name == "Tw"@ {
        Operator::WordSpacing
    } else if name == "TL"@ {
        Operator::Leading
    } else if name == "Ts"@ {
        Operator::Rise
    } else if name == "Tf"@ {
        Operator::Font
    } else if name == "BT"@ {
        Operator::BeginText
    } else if name == "Tm"@ {
        Operator::TextMatrix
    } else if name == "Td"@ {
        Operator::MoveText
    } else if name == "TD"@ {
        Operator::MoveTextSetLeading
    } else if name == "T*"@ {
        Operator::NextLine
    } else if name == "Tj"@ {
        Operator::Show
    } else if name == "TJ"@ {
        Operator::ShowArray
    } else if name == "'"@ {
        Operator::NextLineShow
    } else if name == "\""@ {
        Operator::SpacingShow
    } else {
        Operator::Unknown
    }
}

fn is_name(name: &Vec<char>, literal: &str) -> (r: bool)
    ensures
        r == (name@ == literal@),
{
    let lit = to_chars(literal);
    if name.len() != lit.len() {
        return false;
    }
    let mut i: usize = 0;
    while i < name.len()
        invariant
            i <= name.len(),
            name.len() == lit.len(),
            lit@ == literal@,
            forall|k: int| 0 <= k < i ==> name@[k] == lit@[k],
        decreases name.len() - i,
    {
        if name[i] != lit[i] {
            return false;
        }
        i += 1;
    }
    assert(name@ =~= lit@);
    true
}

impl Operator {
    /// Reads an operator name.
    pub fn parse(op: &str) -> (r: Operator)
        ensures
            r == operator_of(op@),
    {
        let name = to_chars(op);
        if is_name(&name, "q") {
            Operator::Save
        } else if is_name(&name, "Q") {
            Operator::Restore
        } else if is_name(&name, "cm") {
            Operator::Concat
        } else if is_name(&name, "w") {
            Operator::LineWidth
        } else if is_name(&name, "m") {
            Operator::MoveTo
        } else if is_name(&name, "l") {
            Operator::LineTo
        } else if is_name(&name, "c") {
            Operator::CurveTo
        } else if is_name(&name, "v") {
            Operator::CurveFromCurrent
        } else if is_name(&name, "y") {
            Operator::CurveToEnd
        } else if is_name(&name, "h") {
            Operator::ClosePath
        } else if is_name(&name, "re") {
            Operator::Rectangle
        } else if is_name(&name, "S") {
            Operator::Stroke
        } else if is_name(&name, "s") {
            Operator::CloseStroke
        } else if is_name(&name, "f") || is_name(&name, "F") || is_name(&name, "f*") {
            Operator::Fill
        } else if is_name(&name, "B") || is_name(&name, "B*") {
            Operator::FillStroke
        } else if is_name(&name, "b") || is_name(&name, "b*") {
            Operator::CloseFillStroke
        } else if is_name(&name, "n") {
            Operator::EndPath
        } else if is_name(&name, "g") {
            Operator::FillGray
        } else if is_name(&name, "G") {
            Operator::StrokeGray
        } else if is_name(&name, "rg") {
            Operator::FillRgb
        } else if is_name(&name, "RG") {
            Operator::StrokeRgb
        } else if is_name(&name, "k") {
            Operator::FillCmyk
        } else if is_name(&name, "K") {
            Operator::StrokeCmyk
        } else if is_name(&name, "Tc") {
            Operator::CharSpacing
        } else if is_name(&name, "Tw") {
            Operator::WordSpacing
        } else if is_name(&name, "TL") {
            Operator::Leading
        } else if is_name(&name, "Ts") {
            Operator::Rise
        } else if is_name(&name, "Tf") {
            Operator::Font
        } else if is_name(&name, "BT") {
            Operator::BeginText
        } else if is_name(&name, "Tm") {
            Operator::TextMatrix
        } else if is_name(&name, "Td") {
            Operator::MoveText
        } else if is_name(&name, "TD") {
            Operator::MoveTextSetLeading
        } else if is_name(&name, "T*") {
            Operator::NextLine
        } else if is_name(&name, "Tj") {
            Operator::Show
        } else if is_name(&name, "TJ") {
            Operator::ShowArray
        } else if is_name(&name, "'") {
            Operator::NextLineShow
        } else if is_name(&name, "\"") {
            Operator::SpacingShow
        } else {
            Operator::Unknown
        }
    }
}

/// The views of the elements of a sequence.
pub open spec fn views<T: View>(s: Seq<T>) -> Seq<T::V> {
    Seq::new(s.len(), |i: int| s[i]@)
}

/// The mathematical content of a [`ParseContext`].
pub struct ContextModel {
    pub texts: Seq<TextModel>,
    pub paths: Seq<PathModel>,
    pub stack: Seq<StateModel>,
    pub current_path: Seq<PathCommand>,
    pub path_start: (Fixed, Fixed),
    pub current_point: (Fixed, Fixed),
    pub page_height: Fixed,
}

/// The five commands of the rectangle with corner `(x, y)` and extents
/// `(w, h)`.
pub open spec fn rectangle(x: Fixed, y: Fixed, w: Fixed, h: Fixed) -> Seq<PathCommand> {
    seq![
        PathCommand::MoveTo { x, y },
        PathCommand::LineTo { x: x.spec_plus(w), y },
        PathCommand::LineTo { x: x.spec_plus(w), y: y.spec_plus(h) },
        PathCommand::LineTo { x, y: y.spec_plus(h) },
        PathCommand::ClosePath,
    ]
}

impl ContextModel {
    /// The context in which a page of the given height starts.
    pub open spec fn initial(page_height: Fixed) -> ContextModel {
        ContextModel {
            texts: Seq::empty(),
            paths: Seq::empty(),
            stack: seq![crate::graphics_state::initial_state()],
            current_path: Seq::empty(),
            path_start: (Fixed::spec_zero(), Fixed::spec_zero()),
            current_point: (Fixed::spec_zero(), Fixed::spec_zero()),
            page_height,
        }
    }

    /// The state stack is never empty.
    pub open spec fn wf(self) -> bool {
        self.stack.len() >= 1
    }

    /// The current graphics state.
    pub open spec fn top(self) -> StateModel {
        self.stack.last()
    }

    /// The context with `s` as its current graphics state.
    pub open spec fn with_top(self, s: StateModel) -> ContextModel {
        ContextModel { stack: self.stack.update(self.stack.len() - 1, s), ..self }
    }

    /// `q`: the current state is pushed once more.
    pub open spec fn save(self) -> ContextModel {
        ContextModel { stack: self.stack.push(self.top()), ..self }
    }

    /// `Q`: the current state is dropped, unless it is the only one.
    pub open spec fn restore(self) -> ContextModel {
        if self.stack.len() > 1 {
            ContextModel { stack: self.stack.drop_last(), ..self }
        } else {
            self
        }
    }

    /// `cm`: the current transform is composed with the operand matrix.
    pub open spec fn concat(self, ops: Seq<Operand>) -> ContextModel {
        if ops.len() >= 6 {
            self.with_top(
                StateModel { ctm: self.top().ctm.spec_multiply(matrix_of(ops)), ..self.top() },
            )
        } else {
            self
        }
    }

    /// `w`: with an operand, the line width is set; an operand that is no
    /// number counts as zero.
    pub open spec fn line_width(self, ops: Seq<Operand>) -> ContextModel {
        if ops.len() >= 1 {
            self.with_top(StateModel { line_width: number_or_zero(ops, 0), ..self.top() })
        } else {
            self
        }
    }

    /// `m`: with two operands, a new subpath starts at the point that they
    /// give; an operand that is no number counts as zero.
    pub open spec fn move_to(self, ops: Seq<Operand>) -> ContextModel {
        if ops.len() >= 2 {
            let x = number_or_zero(ops, 0);
            let y = number_or_zero(ops, 1);
            ContextModel {
                current_path: self.current_path.push(PathCommand::MoveTo { x, y }),
                path_start: (x, y),
                current_point: (x, y),
                ..self
            }
        } else {
            self
        }
    }

    /// `l`: with two operands, a line is drawn to the point that they give;
    /// an operand that is no number counts as zero.
    pub open spec fn line_to(self, ops: Seq<Operand>) -> ContextModel {
        if ops.len() >= 2 {
            let x = number_or_zero(ops, 0);
            let y = number_or_zero(ops, 1);
            ContextModel {
                current_path: self.current_path.push(PathCommand::LineTo { x, y }),
                current_point: (x, y),
                ..self
            }
        } else {
            self
        }
    }

    /// `c`: a curve with both control points given.
    pub open spec fn curve_to(self, ops: Seq<Operand>) -> ContextModel {
        if ops.len() >= 6 {
            ContextModel {
                current_path: self.current_path.push(
                    PathCommand::CurveTo {
                        x1: number_or_zero(ops, 0),
                        y1: number_or_zero(ops, 1),
                        x2: number_or_zero(ops, 2),
                        y2: number_or_zero(ops, 3),
                        x: number_or_zero(ops, 4),
                        y: number_or_zero(ops, 5),
                    },
                ),
                current_point: (number_or_zero(ops, 4), number_or_zero(ops, 5)),
                ..self
            }
        } else {
            self
        }
    }

    /// `v`: a curve whose first control point is the current point.
    pub open spec fn curve_from_current(self, ops: Seq<Operand>) -> ContextModel {
        if ops.len() >= 4 {
            ContextModel {
                current_path: self.current_path.push(
                    PathCommand::CurveTo {
                        x1: self.current_point.0,
                        y1: self.current_point.1,
                        x2: number_or_zero(ops, 0),
                        y2: number_or_zero(ops, 1),
                        x: number_or_zero(ops, 2),
                        y: number_or_zero(ops, 3),
                    },
                ),
                current_point: (number_or_zero(ops, 2), number_or_zero(ops, 3)),
                ..self
            }
        } else {
            self
        }
    }

    /// `y`: a curve whose second control point is its end point.
    pub open spec fn curve_to_end(self, ops: Seq<Operand>) -> ContextModel {
        if ops.len() >= 4 {
            ContextModel {
                current_path: self.current_path.push(
                    PathCommand::CurveTo {
                        x1: number_or_zero(ops, 0),
                        y1: number_or_zero(ops, 1),
                        x2: number_or_zero(ops, 2),
                        y2: number_or_zero(ops, 3),
                        x: number_or_zero(ops, 2),
                        y: number_or_zero(ops, 3),
                    },
                ),
                current_point: (number_or_zero(ops, 2), number_or_zero(ops, 3)),
                ..self
            }
        } else {
            self
        }
    }

    /// `h`: the subpath is closed and the current point goes back to its
    /// start.
    pub open spec fn close_path(self) -> ContextModel {
        ContextModel {
            current_path: self.current_path.push(PathCommand::ClosePath),
            current_point: self.path_start,
            ..self
        }
    }

    /// `re`: a closed rectangle is appended as five commands.
    pub open spec fn rect(self, ops: Seq<Operand>) -> ContextModel {
        if ops.len() >= 4 {
            let x = number_or_zero(ops, 0);
            let y = number_or_zero(ops, 1);
            ContextModel {
                current_path: self.current_path + rectangle(
                    x,
                    y,
                    number_or_zero(ops, 2),
                    number_or_zero(ops, 3),
                ),
                path_start: (x, y),
                current_point: (x, y),
                ..self
            }
        } else {
            self
        }
    }

    /// A painting operator: an empty path paints nothing; otherwise the path,
    /// closed first where `close` is set, is placed on the page with the
    /// colours asked for, and the buffer is emptied.
    pub open spec fn paint(self, close: bool, stroke: bool, fill: bool) -> ContextModel {
        if self.current_path.len() == 0 {
            self
        } else {
            let commands = if close {
                self.current_path.push(PathCommand::ClosePath)
            } else {
                self.current_path
            };
            let state = self.top();
            ContextModel {
                paths: self.paths.push(
                    path_record(
                        commands,
                        if stroke {
                            Some(state.stroke_color)
                        } else {
                            None
                        },
                        if fill {
                            Some(state.fill_color)
                        } else {
                            None
                        },
                        state.line_width,
                        state.ctm,
                        self.page_height,
                    ),
                ),
                current_path: Seq::empty(),
                ..self
            }
        }
    }

    /// `n`: the path is dropped unpainted.
    pub open spec fn end_path(self) -> ContextModel {
        ContextModel { current_path: Seq::empty(), ..self }
    }

    /// The context with the fill colour (or, with `stroke`, the stroke colour)
    /// of the current state set.
    pub open spec fn with_color(self, stroke: bool, color: Seq<Fixed>) -> ContextModel {
        if stroke {
            self.with_top(StateModel { stroke_color: color, ..self.top() })
        } else {
            self.with_top(StateModel { fill_color: color, ..self.top() })
        }
    }

    /// `g`, `G`: with an operand, an opaque gray; an operand that is no
    /// number counts as zero.
    pub open spec fn gray(self, stroke: bool, ops: Seq<Operand>) -> ContextModel {
        if ops.len() >= 1 {
            let g = number_or_zero(ops, 0);
            self.with_color(stroke, rgba(g, g, g, Fixed::spec_one()))
        } else {
            self
        }
    }

    /// `rg`, `RG`: an opaque RGB colour.
    pub open spec fn rgb(self, stroke: bool, ops: Seq<Operand>) -> ContextModel {
        if ops.len() >= 3 {
            self.with_color(
                stroke,
                rgba(
                    number_or_zero(ops, 0),
                    number_or_zero(ops, 1),
                    number_or_zero(ops, 2),
                    Fixed::spec_one(),
                ),
            )
        } else {
            self
        }
    }

    /// `k`, `K`: an opaque CMYK colour, converted to RGB.
    pub open spec fn cmyk(self, stroke: bool, ops: Seq<Operand>) -> ContextModel {
        if ops.len() >= 4 {
            let c = spec_cmyk_to_rgb(
                number_or_zero(ops, 0),
                number_or_zero(ops, 1),
                number_or_zero(ops, 2),
                number_or_zero(ops, 3),
            );
            self.with_color(stroke, rgba(c.0, c.1, c.2, Fixed::spec_one()))
        } else {
            self
        }
    }

    /// `Tc`: with an operand, the value is set; an operand that is no number
    /// counts as zero.
    pub open spec fn char_spacing(self, ops: Seq<Operand>) -> ContextModel {
        if ops.len() >= 1 {
            self.with_top(StateModel { char_spacing: number_or_zero(ops, 0), ..self.top() })
        } else {
            self
        }
    }

    /// `Tw`: with an operand, the value is set; an operand that is no number
    /// counts as zero.
    pub open spec fn word_spacing(self, ops: Seq<Operand>) -> ContextModel {
        if ops.len() >= 1 {
            self.with_top(StateModel { word_spacing: number_or_zero(ops, 0), ..self.top() })
        } else {
            self
        }
    }

    /// `TL`: with an operand, the value is set; an operand that is no number
    /// counts as zero.
    pub open spec fn leading(self, ops: Seq<Operand>) -> ContextModel {
        if ops.len() >= 1 {
            self.with_top(StateModel { leading: number_or_zero(ops, 0), ..self.top() })
        } else {
            self
        }
    }

    /// `Ts`: with an operand, the value is set; an operand that is no number
    /// counts as zero.
    pub open spec fn rise(self, ops: Seq<Operand>) -> ContextModel {
        if ops.len() >= 1 {
            self.with_top(StateModel { text_rise: number_or_zero(ops, 0), ..self.top() })
        } else {
            self
        }
    }

    /// `Tf`: the nominal font size is set, and the font name where the first
    /// operand is a name.
    pub open spec fn font(self, ops: Seq<Operand>) -> ContextModel {
        if ops.len() >= 2 {
            let named = match ops[0] {
                Operand::Name(bytes) => Some(lossy_decoded(bytes@)),
                _ => self.top().font_name,
            };
            self.with_top(
                StateModel { font_name: named, font_size: number_or_zero(ops, 1), ..self.top() },
            )
        } else {
            self
        }
    }

    /// The context with both text matrices of the current state set to `m`.
    pub open spec fn with_text_matrices(self, m: TransformMatrix) -> ContextModel {
        self.with_top(StateModel { text_matrix: m, line_matrix: m, ..self.top() })
    }

    /// `BT`: both text matrices become the identity.
    pub open spec fn begin_text(self) -> ContextModel {
        self.with_text_matrices(TransformMatrix::spec_identity())
    }

    /// `Tm`: both text matrices become the operand matrix.
    pub open spec fn text_matrix(self, ops: Seq<Operand>) -> ContextModel {
        if ops.len() >= 6 {
            self.with_text_matrices(matrix_of(ops))
        } else {
            self
        }
    }

    /// The line origin moves by `(tx, ty)` and the text matrix follows it.
    pub open spec fn shifted(self, tx: Fixed, ty: Fixed) -> ContextModel {
        self.with_text_matrices(
            self.top().line_matrix.spec_multiply(TransformMatrix::spec_translate(tx, ty)),
        )
    }

    /// `Td`: with two operands, the line origin moves by what they give; an
    /// operand that is no number counts as zero.
    pub open spec fn move_text(self, ops: Seq<Operand>) -> ContextModel {
        if ops.len() >= 2 {
            self.shifted(number_or_zero(ops, 0), number_or_zero(ops, 1))
        } else {
            self
        }
    }

    /// `TD`: as `Td`, and the leading becomes `-ty`.
    pub open spec fn move_text_set_leading(self, ops: Seq<Operand>) -> ContextModel {
        if ops.len() >= 2 {
            let ty = number_or_zero(ops, 1);
            self.with_top(StateModel { leading: ty.spec_negated(), ..self.top() }).shifted(
                number_or_zero(ops, 0),
                ty,
            )
        } else {
            self
        }
    }

    /// `T*`: the line origin moves down by the leading.
    pub open spec fn next_line(self) -> ContextModel {
        self.shifted(Fixed::spec_zero(), self.top().leading.spec_negated())
    }

    /// A text is shown: unless it is blank, one record is emitted.
    pub open spec fn emit(self, text: Seq<char>) -> ContextModel {
        if blank(text) {
            self
        } else {
            ContextModel {
                texts: self.texts.push(text_record(text, self.top(), self.page_height)),
                ..self
            }
        }
    }

    /// Shows the text at position `idx` of the operands, if there is one.
    pub open spec fn show_at(self, ops: Seq<Operand>, idx: int) -> ContextModel {
        match text_at(ops, idx) {
            Some(text) => self.emit(text),
            None => self,
        }
    }

    /// `TJ`: the elements of the array are joined and shown as one text.
    pub open spec fn show_array(self, ops: Seq<Operand>) -> ContextModel {
        if ops.len() >= 1 {
            match ops[0] {
                Operand::Array(items) => self.emit(joined(items@)),
                _ => self,
            }
        } else {
            self
        }
    }

    /// `"`: word and character spacing are set, then the text is shown on the
    /// next line.
    pub open spec fn spacing_show(self, ops: Seq<Operand>) -> ContextModel {
        if ops.len() >= 3 {
            self.with_top(
                StateModel {
                    word_spacing: number_or_zero(ops, 0),
                    char_spacing: number_or_zero(ops, 1),
                    ..self.top()
                },
            ).next_line().show_at(ops, 2)
        } else {
            self
        }
    }

    /// The effect of one operator.
    pub open spec fn step(self, op: Operator, ops: Seq<Operand>) -> ContextModel {
        match op {
            Operator::Save => self.save(),
            Operator::Restore => self.restore(),
            Operator::Concat => self.concat(ops),
            Operator::LineWidth => self.line_width(ops),
            Operator::MoveTo => self.move_to(ops),
            Operator::LineTo => self.line_to(ops),
            Operator::CurveTo => self.curve_to(ops),
            Operator::CurveFromCurrent => self.curve_from_current(ops),
            Operator::CurveToEnd => self.curve_to_end(ops),
            Operator::ClosePath => self.close_path(),
            Operator::Rectangle => self.rect(ops),
            Operator::Stroke => self.paint(false, true, false),
            Operator::CloseStroke => self.paint(true, true, false),
            Operator::Fill => self.paint(false, false, true),
            Operator::FillStroke => self.paint(false, true, true),
            Operator::CloseFillStroke => self.paint(true, true, true),
            Operator::EndPath => self.end_path(),
            Operator::FillGray => self.gray(false, ops),
            Operator::StrokeGray => self.gray(true, ops),
            Operator::FillRgb => self.rgb(false, ops),
            Operator::StrokeRgb => self.rgb(true, ops),
            Operator::FillCmyk => self.cmyk(false, ops),
            Operator::StrokeCmyk => self.cmyk(true, ops),
            Operator::CharSpacing => self.char_spacing(ops),
            Operator::WordSpacing => self.word_spacing(ops),
            Operator::Leading => self.leading(ops),
            Operator::Rise => self.rise(ops),
            Operator::Font => self.font(ops),
            Operator::BeginText => self.begin_text(),
            Operator::TextMatrix => self.text_matrix(ops),
            Operator::MoveText => self.move_text(ops),
            Operator::MoveTextSetLeading => self.move_text_set_leading(ops),
            Operator::NextLine => self.next_line(),
            Operator::Show => self.show_at(ops, 0),
            Operator::ShowArray => self.show_array(ops),
            Operator::NextLineShow => self.next_line().show_at(ops, 0),
            Operator::SpacingShow => self.spacing_show(ops),
            Operator::Unknown => self,
        }
    }

    /// The effect of a whole stream, operator by operator.
    pub open spec fn run(self, stream: Seq<Operation>) -> ContextModel
        decreases stream.len(),
    {
        if stream.len() == 0 {
            self
        } else {
            self.run(stream.drop_last()).step(
                operator_of(stream.last().operator@),
                stream.last().operands@,
            )
        }
    }
}

/// The state of the interpreter while it walks one page.
#[derive(Debug)]
pub struct ParseContext {
    pub texts: Vec<ExtractedText>,
    pub paths: Vec<ExtractedPath>,
    pub state_stack: Vec<GraphicsState>,
    pub current_path: Vec<PathCommand>,
    pub path_start: (Fixed, Fixed),
    pub current_point: (Fixed, Fixed),
    pub page_height: Fixed,
}

impl View for ParseContext {
    type V = ContextModel;

    open spec fn view(&self) -> ContextModel {
        ContextModel {
            texts: views(self.texts@),
            paths: views(self.paths@),
            stack: views(self.state_stack@),
            current_path: self.current_path@,
            path_start: self.path_start,
            current_point: self.current_point,
            page_height: self.page_height,
        }
    }
}

#[allow(non_snake_case)]
impl ParseContext {
    /// The state stack is never empty.
    pub open spec fn wf(&self) -> bool {
        self.state_stack@.len() >= 1
    }

    /// `self` differs from `before` in nothing but the graphics state stack.
    pub open spec fn kept_but_states(self, before: ParseContext) -> bool {
        &&& self.texts == before.texts
        &&& self.paths == before.paths
        &&& self.current_path == before.current_path
        &&& self.path_start == before.path_start
        &&& self.current_point == before.current_point
        &&& self.page_height == before.page_height
    }

    /// `self` differs from `before` in nothing but the emitted texts.
    pub open spec fn kept_but_texts(self, before: ParseContext) -> bool {
        &&& self.paths == before.paths
        &&& self.state_stack == before.state_stack
        &&& self.current_path == before.current_path
        &&& self.path_start == before.path_start
        &&& self.current_point == before.current_point
        &&& self.page_height == before.page_height
    }

    /// `self` differs from `before` in nothing but the path in the making,
    /// its start and the current point.
    pub open spec fn kept_but_path(self, before: ParseContext) -> bool {
        &&& self.texts == before.texts
        &&& self.paths == before.paths
        &&& self.state_stack == before.state_stack
        &&& self.page_height == before.page_height
    }

    /// A fresh context for a page of the given height.
    pub fn new(page_height: Fixed) -> (ctx: ParseContext)
        ensures
            ctx.wf(),
            ctx@ == ContextModel::initial(page_height),
    {
        let mut state_stack: Vec<GraphicsState> = Vec::new();
        state_stack.push(GraphicsState::default());
        let ctx = ParseContext {
            texts: Vec::new(),
            paths: Vec::new(),
            state_stack,
            current_path: Vec::new(),
            path_start: (Fixed::zero(), Fixed::zero()),
            current_point: (Fixed::zero(), Fixed::zero()),
            page_height,
        };
        assert(ctx@.texts =~= Seq::empty());
        assert(ctx@.paths =~= Seq::empty());
        assert(ctx@.stack =~= seq![crate::graphics_state::initial_state()]);
        ctx
    }

    /// The current graphics state.
    pub fn state(&self) -> (s: &GraphicsState)
        requires
            self.wf(),
        ensures
            s@ == self@.top(),
    {
        &self.state_stack[self.state_stack.len() - 1]
    }

    /// The number of states on the stack.
    pub fn depth(&self) -> (n: usize)
        ensures
            n == self@.stack.len(),
    {
        self.state_stack.len()
    }

    /// Takes the current state off the stack, to be put back by `put_state`.
    fn take_state(&mut self) -> (s: GraphicsState)
        requires
            old(self).wf(),
        ensures
            s == old(self).state_stack@.last(),
            s@ == old(self)@.top(),
            final(self).state_stack@ == old(self).state_stack@.drop_last(),
            final(self).texts == old(self).texts,
            final(self).paths == old(self).paths,
            final(self).current_path == old(self).current_path,
            final(self).path_start == old(self).path_start,
            final(self).current_point == old(self).current_point,
            final(self).page_height == old(self).page_height,
    {
        self.state_stack.pop().unwrap()
    }

    /// Puts a state on top of the stack.
    fn put_state(&mut self, s: GraphicsState)
        ensures
            final(self).wf(),
            final(self).state_stack@ == old(self).state_stack@.push(s),
            final(self).texts == old(self).texts,
            final(self).paths == old(self).paths,
            final(self).current_path == old(self).current_path,
            final(self).path_start == old(self).path_start,
            final(self).current_point == old(self).current_point,
            final(self).page_height == old(self).page_height,
    {
        self.state_stack.push(s);
    }

    /// `q`: a copy of the current graphics state is pushed.
    pub fn op_save(&mut self)
        requires
            old(self).wf(),
        ensures
            final(self).wf(),
            final(self)@ == old(self)@.save(),
    {
        let copy = self.state().clone();
        self.put_state(copy);
        assert(final(self)@.stack =~= old(self)@.stack.push(old(self)@.top()));
    }

    /// `Q`: the current graphics state is dropped, unless it is the only one.
    pub fn op_restore(&mut self)
        requires
            old(self).wf(),
        ensures
            final(self).wf(),
            final(self)@ == old(self)@.restore(),
    {
        if self.state_stack.len() > 1 {
            self.state_stack.pop();
            assert(self@.stack =~= old(self)@.stack.drop_last());
        }
    }

    /// `cm`: with six operands, the operand matrix is put on the right of the
    /// current transform. Nothing else changes: not the other fields of the
    /// current state, not the states below it, not the path in the making,
    /// not what was emitted. With fewer operands nothing changes at all.
    pub fn op_cm(&mut self, ops: &[Operand])
        requires
            old(self).wf(),
        ensures
            final(self).wf(),
            final(self)@ == old(self)@.concat(ops@),
            (*final(self)).kept_but_states(*old(self)),
            final(self).state_stack@.len() == old(self).state_stack@.len(),
            final(self).state_stack@.drop_last() == old(self).state_stack@.drop_last(),
            ops@.len() >= 6 ==> final(self).state_stack@.last() == (GraphicsState {
                ctm: old(self).state_stack@.last().ctm.spec_multiply(matrix_of(ops@)),
                ..old(self).state_stack@.last()
            }),
            ops@.len() < 6 ==> final(self).state_stack@ == old(self).state_stack@,
    {
        if ops.len() >= 6 {
            let m = parse_matrix(ops);
            let mut state = self.take_state();
            state.ctm = state.ctm.multiply(&m);
            self.put_state(state);
            assert(self@.stack =~= old(self)@.concat(ops@).stack);
            assert(self.state_stack@.drop_last() =~= old(self).state_stack@.drop_last());
        }
    }

    /// `w`: the line width is set, where there is an operand; one that is no
    /// number counts as zero.
    pub fn op_w(&mut self, ops: &[Operand])
        requires
            old(self).wf(),
        ensures
            final(self).wf(),
            final(self)@ == old(self)@.line_width(ops@),
    {
        if ops.len() >= 1 {
            let mut state = self.take_state();
            state.line_width = get_float(ops, 0);
            self.put_state(state);
            assert(self@.stack =~= old(self)@.line_width(ops@).stack);
        }
    }

    /// `m`: a new subpath starts at the point given, where there are two
    /// operands; one that is no number counts as zero.
    pub fn op_m(&mut self, ops: &[Operand])
        ensures
            final(self).wf() == old(self).wf(),
            final(self)@ == old(self)@.move_to(ops@),
    {
        if ops.len() >= 2 {
            let x = get_float(ops, 0);
            let y = get_float(ops, 1);
            self.current_path.push(PathCommand::MoveTo { x, y });
            self.path_start = (x, y);
            self.current_point = (x, y);
        }
    }

    /// `l`: a line is drawn to the point given, where there are two
    /// operands; one that is no number counts as zero.
    pub fn op_l(&mut self, ops: &[Operand])
        ensures
            final(self).wf() == old(self).wf(),
            final(self)@ == old(self)@.line_to(ops@),
    {
        if ops.len() >= 2 {
            let x = get_float(ops, 0);
            let y = get_float(ops, 1);
            self.current_path.push(PathCommand::LineTo { x, y });
            self.current_point = (x, y);
        }
    }

    /// `c`: a curve with two control points is drawn, where there are six
    /// operands.
    pub fn op_c(&mut self, ops: &[Operand])
        ensures
            final(self).wf() == old(self).wf(),
            final(self)@ == old(self)@.curve_to(ops@),
    {
        if ops.len() >= 6 {
            let cmd = PathCommand::CurveTo {
                x1: get_float(ops, 0),
                y1: get_float(ops, 1),
                x2: get_float(ops, 2),
                y2: get_float(ops, 3),
                x: get_float(ops, 4),
                y: get_float(ops, 5),
            };
            self.current_path.push(cmd);
            self.current_point = (get_float(ops, 4), get_float(ops, 5));
        }
    }

    /// `v`: a curve whose first control point is the current point is drawn,
    /// where there are four operands.
    pub fn op_v(&mut self, ops: &[Operand])
        ensures
            final(self).wf() == old(self).wf(),
            final(self)@ == old(self)@.curve_from_current(ops@),
    {
        if ops.len() >= 4 {
            let cmd = PathCommand::CurveTo {
                x1: self.current_point.0,
                y1: self.current_point.1,
                x2: get_float(ops, 0),
                y2: get_float(ops, 1),
                x: get_float(ops, 2),
                y: get_float(ops, 3),
            };
            self.current_path.push(cmd);
            self.current_point = (get_float(ops, 2), get_float(ops, 3));
        }
    }

    /// `y`: a curve whose second control point is its end is drawn, where
    /// there are four operands.
    pub fn op_y(&mut self, ops: &[Operand])
        ensures
            final(self).wf() == old(self).wf(),
            final(self)@ == old(self)@.curve_to_end(ops@),
    {
        if ops.len() >= 4 {
            let x = get_float(ops, 2);
            let y = get_float(ops, 3);
            self.current_path.push(
                PathCommand::CurveTo {
                    x1: get_float(ops, 0),
                    y1: get_float(ops, 1),
                    x2: x,
                    y2: y,
                    x,
                    y,
                },
            );
            self.current_point = (x, y);
        }
    }

    /// `h`: the subpath is closed, and the current point goes back to its
    /// start.
    pub fn op_h(&mut self)
        ensures
            final(self).wf() == old(self).wf(),
            final(self)@ == old(self)@.close_path(),
    {
        self.current_path.push(PathCommand::ClosePath);
        self.current_point = self.path_start;
    }

    /// `re`: with four operands `x y w h`, the five commands of the rectangle
    /// are appended to the path in the making, and both its start and the
    /// current point become `(x, y)`. Nothing else changes; with fewer
    /// operands nothing changes at all.
    pub fn op_re(&mut self, ops: &[Operand])
        ensures
            final(self).wf() == old(self).wf(),
            final(self)@ == old(self)@.rect(ops@),
            (*final(self)).kept_but_path(*old(self)),
            ops@.len() >= 4 ==> {
                let x = number_or_zero(ops@, 0);
                let y = number_or_zero(ops@, 1);
                &&& final(self).current_path@ == old(self).current_path@ + rectangle(
                    x,
                    y,
                    number_or_zero(ops@, 2),
                    number_or_zero(ops@, 3),
                )
                &&& final(self).current_path@.len() == old(self).current_path@.len() + 5
                &&& final(self).path_start == (x, y)
                &&& final(self).current_point == (x, y)
            },
            ops@.len() < 4 ==> *final(self) == *old(self),
    {
        if ops.len() >= 4 {
            let x = get_float(ops, 0);
            let y = get_float(ops, 1);
            let w = get_float(ops, 2);
            let h = get_float(ops, 3);
            self.current_path.push(PathCommand::MoveTo { x, y });
            self.current_path.push(PathCommand::LineTo { x: x.plus(w), y });
            self.current_path.push(PathCommand::LineTo { x: x.plus(w), y: y.plus(h) });
            self.current_path.push(PathCommand::LineTo { x, y: y.plus(h) });
            self.current_path.push(PathCommand::ClosePath);
            self.path_start = (x, y);
            self.current_point = (x, y);
            assert(self.current_path@ =~= old(self).current_path@ + rectangle(x, y, w, h));
        }
    }

    /// Paints the current path, closing it first where `close` is set, with
    /// the stroke and fill colours asked for.
    fn paint(&mut self, close: bool, stroke: bool, fill: bool)
        requires
            old(self).wf(),
        ensures
            final(self).wf(),
            final(self)@ == old(self)@.paint(close, stroke, fill),
    {
        if self.current_path.len() > 0 {
            if close {
                self.current_path.push(PathCommand::ClosePath);
            }
            let state = self.state();
            let stroke_color = if stroke {
                Some(state.stroke_color)
            } else {
                None
            };
            let fill_color = if fill {
                Some(state.fill_color)
            } else {
                None
            };
            let path = transform_path(
                &self.current_path,
                stroke_color,
                fill_color,
                state.line_width,
                &state.ctm,
                self.page_height,
            );
            self.paths.push(path);
            self.current_path.clear();
            assert(self@.paths =~= old(self)@.paint(close, stroke, fill).paths);
            assert(self@.stack =~= old(self)@.stack);
            assert(self@.texts =~= old(self)@.texts);
        }
    }

    /// `S` and `s`: the path is stroked, closed first where `close` is set.
    pub fn paint_stroke(&mut self, close: bool)
        requires
            old(self).wf(),
        ensures
            final(self).wf(),
            final(self)@ == old(self)@.paint(close, true, false),
    {
        self.paint(close, true, false);
    }

    /// `f`, `F` and `f*`: the path is filled.
    pub fn paint_fill(&mut self)
        requires
            old(self).wf(),
        ensures
            final(self).wf(),
            final(self)@ == old(self)@.paint(false, false, true),
    {
        self.paint(false, false, true);
    }

    /// `B`, `B*`, `b` and `b*`: the path is filled and stroked, closed first
    /// where `close` is set.
    pub fn paint_both(&mut self, close: bool)
        requires
            old(self).wf(),
        ensures
            final(self).wf(),
            final(self)@ == old(self)@.paint(close, true, true),
    {
        self.paint(close, true, true);
    }

    /// `n`: the path in the making is given up.
    pub fn op_n(&mut self)
        ensures
            final(self).wf() == old(self).wf(),
            final(self)@ == old(self)@.end_path(),
    {
        self.current_path.clear();
    }

    /// Sets the fill colour or, with `stroke`, the stroke colour.
    fn set_color(&mut self, stroke: bool, color: [Fixed; 4])
        requires
            old(self).wf(),
        ensures
            final(self).wf(),
            final(self)@ == old(self)@.with_color(stroke, color@),
    {
        let mut state = self.take_state();
        if stroke {
            state.stroke_color = color;
        } else {
            state.fill_color = color;
        }
        self.put_state(state);
        assert(self@.stack =~= old(self)@.with_color(stroke, color@).stack);
    }

    fn op_gray(&mut self, stroke: bool, ops: &[Operand])
        requires
            old(self).wf(),
        ensures
            final(self).wf(),
            final(self)@ == old(self)@.gray(stroke, ops@),
    {
        if ops.len() >= 1 {
            let g = get_float(ops, 0);
            let color = [g, g, g, Fixed::one()];
            assert(color@ =~= rgba(g, g, g, Fixed::spec_one()));
            self.set_color(stroke, color);
        }
    }

    fn op_rgb(&mut self, stroke: bool, ops: &[Operand])
        requires
            old(self).wf(),
        ensures
            final(self).wf(),
            final(self)@ == old(self)@.rgb(stroke, ops@),
    {
        if ops.len() >= 3 {
            let color = [get_float(ops, 0), get_float(ops, 1), get_float(ops, 2), Fixed::one()];
            assert(color@ =~= rgba(
                number_or_zero(ops@, 0),
                number_or_zero(ops@, 1),
                number_or_zero(ops@, 2),
                Fixed::spec_one(),
            ));
            self.set_color(stroke, color);
        }
    }

    fn op_cmyk(&mut self, stroke: bool, ops: &[Operand])
        requires
            old(self).wf(),
        ensures
            final(self).wf(),
            final(self)@ == old(self)@.cmyk(stroke, ops@),
    {
        if ops.len() >= 4 {
            let (r, g, b) = cmyk_to_rgb(
                get_float(ops, 0),
                get_float(ops, 1),
                get_float(ops, 2),
                get_float(ops, 3),
            );
            let color = [r, g, b, Fixed::one()];
            assert(color@ =~= rgba(r, g, b, Fixed::spec_one()));
            self.set_color(stroke, color);
        }
    }

    /// `g`: the fill colour is set to a gray.
    pub fn op_g(&mut self, ops: &[Operand])
        requires
            old(self).wf(),
        ensures
            final(self).wf(),
            final(self)@ == old(self)@.gray(false, ops@),
    {
        self.op_gray(false, ops);
    }

    /// `G`: the stroke colour is set to a gray.
    pub fn op_G(&mut self, ops: &[Operand])
        requires
            old(self).wf(),
        ensures
            final(self).wf(),
            final(self)@ == old(self)@.gray(true, ops@),
    {
        self.op_gray(true, ops);
    }

    /// `rg`: the fill colour is set by red, green and blue.
    pub fn op_rg(&mut self, ops: &[Operand])
        requires
            old(self).wf(),
        ensures
            final(self).wf(),
            final(self)@ == old(self)@.rgb(false, ops@),
    {
        self.op_rgb(false, ops);
    }

    /// `RG`: the stroke colour is set by red, green and blue.
    pub fn op_RG(&mut self, ops: &[Operand])
        requires
            old(self).wf(),
        ensures
            final(self).wf(),
            final(self)@ == old(self)@.rgb(true, ops@),
    {
        self.op_rgb(true, ops);
    }

    /// `k`: the fill colour is set by cyan, magenta, yellow and black.
    pub fn op_k(&mut self, ops: &[Operand])
        requires
            old(self).wf(),
        ensures
            final(self).wf(),
            final(self)@ == old(self)@.cmyk(false, ops@),
    {
        self.op_cmyk(false, ops);
    }

    /// `K`: the stroke colour is set by cyan, magenta, yellow and black.
    pub fn op_K(&mut self, ops: &[Operand])
        requires
            old(self).wf(),
        ensures
            final(self).wf(),
            final(self)@ == old(self)@.cmyk(true, ops@),
    {
        self.op_cmyk(true, ops);
    }

    /// `Tc`: the character spacing is set, where there is an operand; one that
    /// is no number counts as zero.
    pub fn op_Tc(&mut self, ops: &[Operand])
        requires
            old(self).wf(),
        ensures
            final(self).wf(),
            final(self)@ == old(self)@.char_spacing(ops@),
    {
        if ops.len() >= 1 {
            let mut state = self.take_state();
            state.char_spacing = get_float(ops, 0);
            self.put_state(state);
            assert(self@.stack =~= old(self)@.char_spacing(ops@).stack);
        }
    }

    /// `Tw`: the word spacing is set, where there is an operand; one that is no
    /// number counts as zero.
    pub fn op_Tw(&mut self, ops: &[Operand])
        requires
            old(self).wf(),
        ensures
            final(self).wf(),
            final(self)@ == old(self)@.word_spacing(ops@),
    {
        if ops.len() >= 1 {
            let mut state = self.take_state();
            state.word_spacing = get_float(ops, 0);
            self.put_state(state);
            assert(self@.stack =~= old(self)@.word_spacing(ops@).stack);
        }
    }

    /// `TL`: the leading is set, where there is an operand; one that is no
    /// number counts as zero.
    pub fn op_TL(&mut self, ops: &[Operand])
        requires
            old(self).wf(),
        ensures
            final(self).wf(),
            final(self)@ == old(self)@.leading(ops@),
    {
        if ops.len() >= 1 {
            let mut state = self.take_state();
            state.leading = get_float(ops, 0);
            self.put_state(state);
            assert(self@.stack =~= old(self)@.leading(ops@).stack);
        }
    }

    /// `Ts`: the text rise is set, where there is an operand; one that is no
    /// number counts as zero.
    pub fn op_Ts(&mut self, ops: &[Operand])
        requires
            old(self).wf(),
        ensures
            final(self).wf(),
            final(self)@ == old(self)@.rise(ops@),
    {
        if ops.len() >= 1 {
            let mut state = self.take_state();
            state.text_rise = get_float(ops, 0);
            self.put_state(state);
            assert(self@.stack =~= old(self)@.rise(ops@).stack);
        }
    }

    /// `Tf`: font and font size are set, where there are two operands.
    pub fn op_Tf(&mut self, ops: &[Operand])
        requires
            old(self).wf(),
        ensures
            final(self).wf(),
            final(self)@ == old(self)@.font(ops@),
    {
        if ops.len() >= 2 {
            let mut state = self.take_state();
            match &ops[0] {
                Operand::Name(bytes) => {
                    state.font_name = Some(lossy_text(bytes.as_slice()));
                },
                _ => {},
            }
            state.font_size = get_float(ops, 1);
            self.put_state(state);
            assert(self@.stack =~= old(self)@.font(ops@).stack);
        }
    }

    /// Sets both text matrices of the current state.
    fn set_text_matrices(&mut self, m: TransformMatrix)
        requires
            old(self).wf(),
        ensures
            final(self).wf(),
            final(self)@ == old(self)@.with_text_matrices(m),
    {
        let mut state = self.take_state();
        state.text_matrix = m;
        state.line_matrix = m;
        self.put_state(state);
        assert(self@.stack =~= old(self)@.with_text_matrices(m).stack);
    }

    /// Moves the line origin by `(tx, ty)`.
    fn shift_line(&mut self, tx: Fixed, ty: Fixed)
        requires
            old(self).wf(),
        ensures
            final(self).wf(),
            final(self)@ == old(self)@.shifted(tx, ty),
    {
        let translate = TransformMatrix::translate(tx, ty);
        let m = self.state().line_matrix.multiply(&translate);
        self.set_text_matrices(m);
    }

    /// `BT`: text matrix and line matrix start anew as the identity.
    pub fn op_BT(&mut self)
        requires
            old(self).wf(),
        ensures
            final(self).wf(),
            final(self)@ == old(self)@.begin_text(),
    {
        self.set_text_matrices(TransformMatrix::identity());
    }

    /// `Tm`: text matrix and line matrix are set, where there are six
    /// operands.
    pub fn op_Tm(&mut self, ops: &[Operand])
        requires
            old(self).wf(),
        ensures
            final(self).wf(),
            final(self)@ == old(self)@.text_matrix(ops@),
    {
        if ops.len() >= 6 {
            self.set_text_matrices(parse_matrix(ops));
        }
    }

    /// `Td`: the text position moves to the start of a line that is offset
    /// from the start of the current one, where there are two operands; one
    /// that is no number counts as zero.
    pub fn op_Td(&mut self, ops: &[Operand])
        requires
            old(self).wf(),
        ensures
            final(self).wf(),
            final(self)@ == old(self)@.move_text(ops@),
    {
        if ops.len() >= 2 {
            self.shift_line(get_float(ops, 0), get_float(ops, 1));
        }
    }

    /// `TD`: as `Td`, and the leading becomes the negated vertical offset.
    pub fn op_TD(&mut self, ops: &[Operand])
        requires
            old(self).wf(),
        ensures
            final(self).wf(),
            final(self)@ == old(self)@.move_text_set_leading(ops@),
    {
        if ops.len() >= 2 {
            let tx = get_float(ops, 0);
            let ty = get_float(ops, 1);
            let mut state = self.take_state();
            state.leading = ty.negated();
            self.put_state(state);
            assert(self@.stack =~= old(self)@.with_top(
                StateModel { leading: ty.spec_negated(), ..old(self)@.top() },
            ).stack);
            self.shift_line(tx, ty);
        }
    }

    /// `T*`: the text position moves to the start of the next line.
    pub fn op_Tstar(&mut self)
        requires
            old(self).wf(),
        ensures
            final(self).wf(),
            final(self)@ == old(self)@.next_line(),
    {
        let leading = self.state().leading;
        self.shift_line(Fixed::zero(), leading.negated());
    }

    /// Emits the record of a shown text, unless the text is blank.
    fn show(&mut self, text: &str)
        requires
            old(self).wf(),
        ensures
            final(self).wf(),
            final(self)@ == old(self)@.emit(text@),
            (*final(self)).kept_but_texts(*old(self)),
            blank(text@) ==> final(self).texts == old(self).texts,
    {
        if !is_blank(text) {
            let record = create_text(text, self.state(), self.page_height);
            self.texts.push(record);
            assert(self@.texts =~= old(self)@.emit(text@).texts);
            assert(self@.paths =~= old(self)@.paths);
            assert(self@.stack =~= old(self)@.stack);
        }
    }

    /// Shows the text at position `idx` of the operands, if there is one.
    fn show_operand(&mut self, ops: &[Operand], idx: usize)
        requires
            old(self).wf(),
        ensures
            final(self).wf(),
            final(self)@ == old(self)@.show_at(ops@, idx as int),
            (*final(self)).kept_but_texts(*old(self)),
            (text_at(ops@, idx as int) matches Some(t) ==> blank(t)) ==> final(self).texts == old(
                self,
            ).texts,
    {
        match extract_string(ops, idx) {
            Some(text) => {
                self.show(text.as_str());
            },
            None => {},
        }
    }

    /// `Tj`: the text of the first operand is shown. Only the emitted texts
    /// can change, and a blank text, or an operand that is no text, leaves
    /// them as they are.
    pub fn op_Tj(&mut self, ops: &[Operand])
        requires
            old(self).wf(),
        ensures
            final(self).wf(),
            final(self)@ == old(self)@.show_at(ops@, 0),
            (*final(self)).kept_but_texts(*old(self)),
            (text_at(ops@, 0) matches Some(t) ==> blank(t)) ==> final(self).texts == old(
                self,
            ).texts,
    {
        self.show_operand(ops, 0);
    }

    /// `TJ`: the elements of the array are joined and shown as one text.
    /// Only the emitted texts can change, and a blank joined text, an empty
    /// array or an operand that is no array leaves them as they are.
    pub fn op_TJ(&mut self, ops: &[Operand])
        requires
            old(self).wf(),
        ensures
            final(self).wf(),
            final(self)@ == old(self)@.show_array(ops@),
            (*final(self)).kept_but_texts(*old(self)),
            (ops@.len() >= 1 ==> (ops@[0] matches Operand::Array(items) ==> blank(joined(items@))))
                ==> final(self).texts == old(self).texts,
    {
        if ops.len() == 0 {
            return ;
        }
        match &ops[0] {
            Operand::Array(items) => {
                let combined = join_array(items.as_slice());
                self.show(combined.as_str());
            },
            _ => {},
        }
    }

    /// `'`: the text is shown on the next line.
    pub fn op_quote(&mut self, ops: &[Operand])
        requires
            old(self).wf(),
        ensures
            final(self).wf(),
            final(self)@ == old(self)@.next_line().show_at(ops@, 0),
    {
        self.op_Tstar();
        self.op_Tj(ops);
    }

    /// `"`: word and character spacing are set, then the text is shown on the
    /// next line.
    pub fn op_dquote(&mut self, ops: &[Operand])
        requires
            old(self).wf(),
        ensures
            final(self).wf(),
            final(self)@ == old(self)@.spacing_show(ops@),
    {
        if ops.len() >= 3 {
            let mut state = self.take_state();
            state.word_spacing = get_float(ops, 0);
            state.char_spacing = get_float(ops, 1);
            self.put_state(state);
            assert(self@.stack =~= old(self)@.with_top(
                StateModel {
                    word_spacing: number_or_zero(ops@, 0),
                    char_spacing: number_or_zero(ops@, 1),
                    ..old(self)@.top()
                },
            ).stack);
            self.op_Tstar();
            self.show_operand(ops, 2);
        }
    }

    /// Applies one operator to the context.
    pub fn apply(&mut self, op: Operator, operands: &[Operand])
        requires
            old(self).wf(),
        ensures
            final(self).wf(),
            final(self)@ == old(self)@.step(op, operands@),
    {
        match op {
            Operator::Save => self.op_save(),
            Operator::Restore => self.op_restore(),
            Operator::Concat => self.op_cm(operands),
            Operator::LineWidth => self.op_w(operands),
            Operator::MoveTo => self.op_m(operands),
            Operator::LineTo => self.op_l(operands),
            Operator::CurveTo => self.op_c(operands),
            Operator::CurveFromCurrent => self.op_v(operands),
            Operator::CurveToEnd => self.op_y(operands),
            Operator::ClosePath => self.op_h(),
            Operator::Rectangle => self.op_re(operands),
            Operator::Stroke => self.paint_stroke(false),
            Operator::CloseStroke => self.paint_stroke(true),
            Operator::Fill => self.paint_fill(),
            Operator::FillStroke => self.paint_both(false),
            Operator::CloseFillStroke => self.paint_both(true),
            Operator::EndPath => self.op_n(),
            Operator::FillGray => self.op_g(operands),
            Operator::StrokeGray => self.op_G(operands),
            Operator::FillRgb => self.op_rg(operands),
            Operator::StrokeRgb => self.op_RG(operands),
            Operator::FillCmyk => self.op_k(operands),
            Operator::StrokeCmyk => self.op_K(operands),
            Operator::CharSpacing => self.op_Tc(operands),
            Operator::WordSpacing => self.op_Tw(operands),
            Operator::Leading => self.op_TL(operands),
            Operator::Rise => self.op_Ts(operands),
            Operator::Font => self.op_Tf(operands),
            Operator::BeginText => self.op_BT(),
            Operator::TextMatrix => self.op_Tm(operands),
            Operator::MoveText => self.op_Td(operands),
            Operator::MoveTextSetLeading => self.op_TD(operands),
            Operator::NextLine => self.op_Tstar(),
            Operator::Show => self.op_Tj(operands),
            Operator::ShowArray => self.op_TJ(operands),
            Operator::NextLineShow => self.op_quote(operands),
            Operator::SpacingShow => self.op_dquote(operands),
            Operator::Unknown => {},
        }
    }

    /// Applies the operator named `op`; a name that stands for no known
    /// operator changes nothing.
    pub fn process_operator(&mut self, op: &str, operands: &[Operand])
        requires
            old(self).wf(),
        ensures
            final(self).wf(),
            final(self)@ == old(self)@.step(operator_of(op@), operands@),
    {
        self.apply(Operator::parse(op), operands);
    }
}

/// Interprets the operators of one page, in order, from a fresh context, and
/// gives back the text runs and the painted paths in the order in which they
/// were emitted.
pub fn parse_page_content(stream: &Vec<Operation>, page_height: Fixed) -> (out: (
    Vec<ExtractedText>,
    Vec<ExtractedPath>,
))
    ensures
        views(out.0@) == ContextModel::initial(page_height).run(stream@).texts,
        views(out.1@) == ContextModel::initial(page_height).run(stream@).paths,
{
    let mut ctx = ParseContext::new(page_height);
    let mut i: usize = 0;
    while i < stream.len()
        invariant
            i <= stream.len(),
            ctx.wf(),
            ctx@ == ContextModel::initial(page_height).run(stream@.take(i as int)),
        decreases stream.len() - i,
    {
        proof {
            assert(stream@.take(i + 1).drop_last() =~= stream@.take(i as int));
        }
        ctx.process_operator(stream[i].operator.as_str(), stream[i].operands.as_slice());
        i += 1;
    }
    proof {
        assert(stream@.take(stream.len() as int) =~= stream@);
    }
    (ctx.texts, ctx.paths)
}

/// The identifier of the `index`-th layer of a kind on a page:
/// kind, page index and index, joined by hyphens.
pub open spec fn layer_id(kind: Seq<char>, page_index: nat, index: nat) -> Seq<char> {
    kind + seq!['-'] + decimal(page_index) + seq!['-'] + decimal(index)
}

/// The hex form of an optional colour.
pub open spec fn opt_hex(color: Option<Seq<Fixed>>) -> Option<Seq<char>> {
    match color {
        Some(c) => Some(hex_of(c)),
        None => None,
    }
}

/// The vector layer that stands for a painted path.
pub open spec fn vector_layer(path: PathModel, page_index: nat, index: nat, z: int) -> LayerModel {
    LayerModel {
        id: layer_id("vector"@, page_index, index),
        layer_type: LayerType::Vector,
        bounds: path.bounds,
        visible: true,
        locked: false,
        z_index: z,
        opacity: Fixed::spec_one(),
        content: None,
        font_family: None,
        font_size: None,
        font_weight: None,
        font_style: None,
        color: opt_hex(path.fill_color),
        text_align: None,
        text_decoration: None,
        text_transform: None,
        line_height: None,
        letter_spacing: None,
        background_color: None,
        image_url: None,
        image_path: None,
        image_data: None,
        shape_type: None,
        stroke_color: opt_hex(path.stroke_color),
        stroke_width: Some(path.line_width),
        fill_color: opt_hex(path.fill_color),
        path_commands: Some(path.commands),
        path_fill_rule: None,
        transform: Some(path.transform),
        source_type: SourceType::Extracted,
        role: LayerRole::Content,
    }
}

/// The font weight that a font name suggests: 700 where its lower-case form
/// mentions "bold", else 400.
pub open spec fn weight_of(font_name: Seq<char>) -> u16 {
    if has_substring(lowercase(font_name), "bold"@) {
        700
    } else {
        400
    }
}

/// The font style that a font name suggests: italic where its lower-case
/// form mentions "italic".
pub open spec fn style_of(font_name: Seq<char>) -> Option<Seq<char>> {
    if has_substring(lowercase(font_name), "italic"@) {
        Some("italic"@)
    } else {
        None
    }
}

/// The text layer that stands for a text run.
pub open spec fn text_layer(text: TextModel, page_index: nat, index: nat, z: int) -> LayerModel {
    LayerModel {
        id: layer_id("text"@, page_index, index),
        layer_type: LayerType::Text,
        bounds: crate::models::Bounds {
            x: text.x,
            y: text.y,
            width: text.width,
            height: text.height,
        },
        visible: true,
        locked: false,
        z_index: z,
        opacity: Fixed::spec_one(),
        content: Some(text.text),
        font_family: Some(web_family(text.font_name)),
        font_size: Some(text.font_size),
        font_weight: Some(weight_of(text.font_name)),
        font_style: style_of(text.font_name),
        color: Some(hex_of(text.color)),
        text_align: Some(TextAlign::Left),
        text_decoration: None,
        text_transform: None,
        line_height: None,
        letter_spacing: None,
        background_color: None,
        image_url: None,
        image_path: None,
        image_data: None,
        shape_type: None,
        stroke_color: None,
        stroke_width: None,
        fill_color: None,
        path_commands: None,
        path_fill_rule: None,
        transform: Some(text.transform),
        source_type: SourceType::Extracted,
        role: LayerRole::Content,
    }
}

/// The layers of a page: first one vector layer per path, then one text layer
/// per text run, each group in emission order; the z-order counts up from
/// zero through both groups, and stays at the largest z-order once it has
/// reached it.
pub open spec fn layer_objects(
    texts: Seq<TextModel>,
    paths: Seq<PathModel>,
    page_index: nat,
) -> Seq<LayerModel> {
    Seq::new(
        paths.len() + texts.len(),
        |k: int|
            if k < paths.len() {
                vector_layer(paths[k], page_index, k as nat, crate::models::z_of(k))
            } else {
                text_layer(
                    texts[k - paths.len()],
                    page_index,
                    (k - paths.len()) as nat,
                    crate::models::z_of(k),
                )
            },
    )
}

fn make_id(kind: &str, page_index: usize, index: usize) -> (id: String)
    ensures
        id@ == layer_id(kind@, page_index as nat, index as nat),
{
    let mut id = kind.to_string();
    crate::text::push_char(&mut id, '-');
    push_decimal(&mut id, page_index as u64);
    crate::text::push_char(&mut id, '-');
    push_decimal(&mut id, index as u64);
    assert(id@ =~= layer_id(kind@, page_index as nat, index as nat));
    id
}

fn hex_option(color: &Option<[Fixed; 4]>) -> (r: Option<String>)
    ensures
        crate::models::opt_text(r) == opt_hex(color_view(*color)),
{
    match color {
        Some(c) => Some(rgba_to_hex(c)),
        None => None,
    }
}

fn make_vector_layer(path: &ExtractedPath, page_index: usize, index: usize, z: i32) -> (layer:
    LayerObject)
    ensures
        layer@ == vector_layer(path@, page_index as nat, index as nat, z as int),
{
    LayerObject {
        id: make_id("vector", page_index, index),
        layer_type: LayerType::Vector,
        bounds: path.bounds,
        visible: true,
        locked: false,
        z_index: z,
        opacity: Fixed::one(),
        content: None,
        font_family: None,
        font_size: None,
        font_weight: None,
        font_style: None,
        color: hex_option(&path.fill_color),
        text_align: None,
        text_decoration: None,
        text_transform: None,
        line_height: None,
        letter_spacing: None,
        background_color: None,
        image_url: None,
        image_path: None,
        image_data: None,
        shape_type: None,
        stroke_color: hex_option(&path.stroke_color),
        stroke_width: Some(path.line_width),
        fill_color: hex_option(&path.fill_color),
        source_type: SourceType::Extracted,
        role: LayerRole::Content,
        path_data: Some(
            PathData { commands: crate::path_ops::copy_commands(&path.commands), fill_rule: None },
        ),
        transform: Some(path.transform),
    }
}

fn make_text_layer(text: &ExtractedText, page_index: usize, index: usize, z: i32) -> (layer:
    LayerObject)
    ensures
        layer@ == text_layer(text@, page_index as nat, index as nat, z as int),
{
    let lower = to_chars(to_lowercase(text.font_name.as_str()).as_str());
    let is_italic = contains_chars(&lower, &to_chars("italic"));
    let is_bold = contains_chars(&lower, &to_chars("bold"));
    LayerObject {
        id: make_id("text", page_index, index),
        layer_type: LayerType::Text,
        bounds: crate::models::Bounds::new(text.x, text.y, text.width, text.height),
        visible: true,
        locked: false,
        z_index: z,
        opacity: Fixed::one(),
        content: Some(text.text.clone()),
        font_family: Some(normalize_font_name(text.font_name.as_str())),
        font_size: Some(text.font_size),
        font_weight: Some(
            if is_bold {
                700u16
            } else {
                400u16
            },
        ),
        font_style: if is_italic {
            Some("italic".to_string())
        } else {
            None
        },
        color: Some(rgba_to_hex(&text.color)),
        text_align: Some(TextAlign::Left),
        text_decoration: None,
        text_transform: None,
        line_height: None,
        letter_spacing: None,
        background_color: None,
        image_url: None,
        image_path: None,
        image_data: None,
        shape_type: None,
        stroke_color: None,
        stroke_width: None,
        fill_color: None,
        source_type: SourceType::Extracted,
        role: LayerRole::Content,
        path_data: None,
        transform: Some(text.transform),
    }
}

fn next_z(z: i32) -> (r: i32)
    requires
        z >= 0,
    ensures
        r == if z == i32::MAX {
            z
        } else {
            (z + 1) as i32
        },
{
    if z == 0x7fff_ffff {
        z
    } else {
        z + 1
    }
}

/// Projects the output of the interpreter onto layers: all paths first, then
/// all texts, with a z-order that counts up from zero.
pub fn to_layer_objects(
    texts: Vec<ExtractedText>,
    paths: Vec<ExtractedPath>,
    page_index: usize,
) -> (layers: Vec<LayerObject>)
    ensures
        views(layers@) == layer_objects(views(texts@), views(paths@), page_index as nat),
{
    let mut layers: Vec<LayerObject> = Vec::new();
    let ghost target = layer_objects(views(texts@), views(paths@), page_index as nat);
    let mut z: i32 = 0;
    let mut i: usize = 0;
    while i < paths.len()
        invariant
            i <= paths.len(),
            z == crate::models::z_of(i as int),
            layers@.len() == i,
            target.len() == paths.len() + texts.len(),
            target == layer_objects(views(texts@), views(paths@), page_index as nat),
            views(layers@) == target.take(i as int),
        decreases paths.len() - i,
    {
        let layer = make_vector_layer(&paths[i], page_index, i, z);
        let ghost before = layers@;
        let ghost made = layer@;
        layers.push(layer);
        proof {
            assert(views(paths@)[i as int] == paths@[i as int]@);
            assert(target[i as int] == made);
            assert forall|k: int| 0 <= k < i implies views(layers@)[k] == target[k] by {
                assert(layers@[k] == before[k]);
                assert(views(layers@)[k] == layers@[k]@);
                assert(views(before)[k] == before[k]@);
                assert(target.take(i as int)[k] == target[k]);
            }
            assert(views(layers@) =~= target.take(i + 1));
        }
        z = next_z(z);
        i += 1;
    }
    let mut j: usize = 0;
    while j < texts.len()
        invariant
            j <= texts.len(),
            z == crate::models::z_of(paths.len() + j),
            layers@.len() == paths.len() + j,
            target.len() == paths.len() + texts.len(),
            target == layer_objects(views(texts@), views(paths@), page_index as nat),
            views(layers@) == target.take(paths.len() + j),
        decreases texts.len() - j,
    {
        let layer = make_text_layer(&texts[j], page_index, j, z);
        let ghost before = layers@;
        let ghost made = layer@;
        layers.push(layer);
        proof {
            assert(views(texts@)[j as int] == texts@[j as int]@);
            assert(target[paths.len() + j] == made);
            assert forall|k: int| 0 <= k < paths.len() + j implies views(layers@)[k]
                == target[k] by {
                assert(layers@[k] == before[k]);
                assert(views(layers@)[k] == layers@[k]@);
                assert(views(before)[k] == before[k]@);
                assert(target.take(paths.len() + j)[k] == target[k]);
            }
            assert(views(layers@) =~= target.take(paths.len() + j + 1));
        }
        z = next_z(z);
        j += 1;
    }
    assert(target.take(paths.len() + texts.len()) =~= target);
    layers
}

} // verus!
