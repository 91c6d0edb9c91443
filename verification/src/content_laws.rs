//! What holds of the interpreter on every stream.

use crate::content_parser::{rectangle, ContextModel, Operator};
use crate::fixed::{lemma_root_is, lemma_times_one, Fixed};
use crate::graphics_state::StateModel;
use crate::models::{law_identity_is_neutral, PathCommand, TransformMatrix};
use crate::operand::{
    decoded, has_utf16be_mark, joined, lossy_decoded, matrix_of, number_of, number_or_zero,
    text_at, utf16be_decoded, Operand, Operation,
};
use crate::path_ops::path_record;
use crate::text::blank;
use crate::text_ops::{ascent_ratio, line_ratio, text_record, width_factor};
use vstd::prelude::*;
use vstd::utf8::{decode_first_scalar, decode_utf8, pop_first_scalar, valid_utf8};

verus! {

/// No operator empties the state stack.
pub proof fn law_step_keeps_a_state(m: ContextModel, op: Operator, ops: Seq<Operand>)
    requires
        m.wf(),
    ensures
        m.step(op, ops).wf(),
{
}

/// Whatever the stream, and however many more states it restores than it
/// saved, the state stack holds at least one state after it.
pub proof fn law_stack_never_empty(m: ContextModel, stream: Seq<Operation>)
    requires
        m.wf(),
    ensures
        m.run(stream).wf(),
    decreases stream.len(),
{
    if stream.len() > 0 {
        law_stack_never_empty(m, stream.drop_last());
        law_step_keeps_a_state(
            m.run(stream.drop_last()),
            crate::content_parser::operator_of(stream.last().operator@),
            stream.last().operands@,
        );
    }
}

/// A restore without a matching save changes nothing: the one state stays
/// as it was.
pub proof fn law_unbalanced_restore(m: ContextModel, ops: Seq<Operand>)
    requires
        m.stack.len() == 1,
    ensures
        m.step(Operator::Restore, ops) == m,
{
}

/// A restore undoes the save before it, whatever changed the current state
/// in between by way of `with_top`.
pub proof fn law_save_restore(m: ContextModel, changed: StateModel)
    requires
        m.wf(),
    ensures
        m.save().restore() == m,
        m.save().with_top(changed).restore() == m,
{
    assert(m.save().stack.drop_last() =~= m.stack);
    assert(m.save().with_top(changed).stack.drop_last() =~= m.stack);
}

/// The context after a run of `cm` operators with the given operand lists.
pub open spec fn concat_all(m: ContextModel, lists: Seq<Seq<Operand>>) -> ContextModel
    decreases lists.len(),
{
    if lists.len() == 0 {
        m
    } else {
        concat_all(m, lists.drop_last()).step(Operator::Concat, lists.last())
    }
}

/// The product of `start` with the matrices of the operand lists, in order.
pub open spec fn product(start: TransformMatrix, lists: Seq<Seq<Operand>>) -> TransformMatrix
    decreases lists.len(),
{
    if lists.len() == 0 {
        start
    } else {
        product(start, lists.drop_last()).spec_multiply(matrix_of(lists.last()))
    }
}

/// After any run of complete `cm` operators the current transform is the
/// product, in stream order, of the transform before with each operand
/// matrix.
pub proof fn law_concat_composes(m: ContextModel, lists: Seq<Seq<Operand>>)
    requires
        m.wf(),
        forall|i: int| 0 <= i < lists.len() ==> (#[trigger] lists[i]).len() >= 6,
    ensures
        concat_all(m, lists).wf(),
        concat_all(m, lists).top().ctm == product(m.top().ctm, lists),
    decreases lists.len(),
{
    if lists.len() > 0 {
        law_concat_composes(m, lists.drop_last());
        assert(lists.last().len() >= 6);
    }
}

/// From a fresh context, `cm M1` then `cm M2` leaves the transform
/// `identity · M1 · M2`.
pub proof fn law_concat_twice(page_height: Fixed, first: Seq<Operand>, second: Seq<Operand>)
    requires
        first.len() >= 6,
        second.len() >= 6,
    ensures
        ContextModel::initial(page_height).step(Operator::Concat, first).step(
            Operator::Concat,
            second,
        ).top().ctm == TransformMatrix::spec_identity().spec_multiply(
            matrix_of(first),
        ).spec_multiply(matrix_of(second)),
{
}

/// `re x y w h` on an empty path, followed at once by a stroke, paints
/// exactly the five commands of the closed rectangle with the corners
/// `(x, y)`, `(x + w, y)`, `(x + w, y + h)`, `(x, y + h)`, placed on the page;
/// the stroke colour is set, the fill colour is not.
pub proof fn law_rectangle_stroke(m: ContextModel, ops: Seq<Operand>, none: Seq<Operand>)
    requires
        m.wf(),
        m.current_path.len() == 0,
        ops.len() >= 4,
    ensures
        ({
            let corners = rectangle(
                number_or_zero(ops, 0),
                number_or_zero(ops, 1),
                number_or_zero(ops, 2),
                number_or_zero(ops, 3),
            );
            let out = m.step(Operator::Rectangle, ops).step(Operator::Stroke, none);
            &&& corners.len() == 5
            &&& out.paths == m.paths.push(
                path_record(
                    corners,
                    Some(m.top().stroke_color),
                    None,
                    m.top().line_width,
                    m.top().ctm,
                    m.page_height,
                ),
            )
            &&& out.paths.last().commands.len() == 5
            &&& out.current_path.len() == 0
        }),
{
    let corners = rectangle(
        number_or_zero(ops, 0),
        number_or_zero(ops, 1),
        number_or_zero(ops, 2),
        number_or_zero(ops, 3),
    );
    assert(m.current_path + corners =~= corners);
}

/// The length of the vector `(0, 1)` is one.
pub proof fn lemma_unit_length()
    ensures
        Fixed::spec_zero().spec_hypot(Fixed::spec_one()) == Fixed::spec_one(),
{
    assert(0 * 0 + 1_000_000 * 1_000_000 == 1_000_000_000_000) by (nonlinear_arith);
    assert(crate::fixed::is_root(1_000_000, 1_000_000_000_000)) by (nonlinear_arith);
    lemma_root_is(1_000_000, 1_000_000_000_000);
}

/// Under the identity transform a text shown at the text-space origin of a
/// text matrix `translate(tx, ty)` gets `x = tx` and
/// `y = page_height - (ty + rise) - 0.8 · font_size`: the flip against the
/// page height is applied once, then the ascent is taken off.
pub proof fn law_text_flip_once(text: Seq<char>, state: StateModel, page_height: Fixed)
    requires
        state.ctm == TransformMatrix::spec_identity(),
        exists|tx: Fixed, ty: Fixed| state.text_matrix == TransformMatrix::spec_translate(tx, ty),
    ensures
        text_record(text, state, page_height).x == state.text_matrix.e,
        text_record(text, state, page_height).font_size == state.font_size,
        text_record(text, state, page_height).y == page_height.spec_minus(
            state.text_matrix.f.spec_plus(state.text_rise),
        ).spec_minus(state.font_size.spec_times(ascent_ratio())),
{
    law_identity_is_neutral(state.text_matrix);
    lemma_unit_length();
    lemma_times_one(state.font_size);
}

/// The box of a text record follows the effective font size without a
/// floor: the width is the number of characters times that size times the
/// width factor of the font, the height is 1.15 times that size.
pub proof fn law_text_box_follows_the_size(text: Seq<char>, state: StateModel, page_height: Fixed)
    ensures
        ({
            let record = text_record(text, state, page_height);
            &&& record.width == Fixed::spec_from_int(text.len() as int).spec_times(
                record.font_size,
            ).spec_times(width_factor(record.font_name))
            &&& record.height == record.font_size.spec_times(line_ratio())
        }),
{
}

/// Showing a blank text emits nothing, through `Tj` as through `TJ`.
pub proof fn law_blank_text_emits_nothing(m: ContextModel, ops: Seq<Operand>)
    ensures
        text_at(ops, 0) matches Some(t) && blank(t) ==> m.step(Operator::Show, ops) == m,
        text_at(ops, 0) is None ==> m.step(Operator::Show, ops) == m,
        ops.len() >= 1 && (ops[0] matches Operand::Array(items) && blank(joined(items@)))
            ==> m.step(Operator::ShowArray, ops) == m,
{
}

/// A text-showing operator emits at most one record and changes nothing else
/// but, for `'` and `"`, the text state.
pub proof fn law_show_emits_at_most_one(m: ContextModel, ops: Seq<Operand>)
    ensures
        m.step(Operator::Show, ops).texts.len() <= m.texts.len() + 1,
        m.step(Operator::ShowArray, ops).texts.len() <= m.texts.len() + 1,
        m.step(Operator::Show, ops).paths == m.paths,
        m.step(Operator::ShowArray, ops).paths == m.paths,
        m.step(Operator::Show, ops).stack == m.stack,
        m.step(Operator::ShowArray, ops).stack == m.stack,
{
}

/// Every string object has a text, whatever its bytes: no string is dropped
/// for its encoding. Bytes that are neither valid UTF-8 nor, behind the
/// byte-order mark, valid UTF-16BE are read as UTF-8 with replacement
/// characters.
pub proof fn law_strings_always_decode(bytes: Seq<u8>)
    ensures
        decoded(bytes) is Some,
        !valid_utf8(bytes) && !(has_utf16be_mark(bytes) && utf16be_decoded(bytes.skip(2)) is Some)
            ==> decoded(bytes) == Some(lossy_decoded(bytes)),
{
}

/// The characters that stand for ASCII bytes, one for one.
pub open spec fn ascii_text(bytes: Seq<u8>) -> Seq<char> {
    Seq::new(bytes.len(), |i: int| bytes[i] as char)
}

/// A string object whose bytes are all ASCII has the characters of its
/// bytes as its text.
pub proof fn law_ascii_strings_read_as_written(bytes: Seq<u8>)
    requires
        forall|i: int| 0 <= i < bytes.len() ==> bytes[i] <= 0x7f,
    ensures
        valid_utf8(bytes),
        decode_utf8(bytes) == ascii_text(bytes),
        decoded(bytes) == Some(ascii_text(bytes)),
    decreases bytes.len(),
{
    if bytes.len() > 0 {
        let b = bytes[0];
        assert(b & 0x7f == b) by (bit_vector)
            requires
                b <= 0x7f,
        ;
        let rest = pop_first_scalar(bytes);
        assert(rest =~= bytes.subrange(1, bytes.len() as int));
        law_ascii_strings_read_as_written(rest);
        assert(decode_first_scalar(bytes) == b as u32);
        assert(decode_utf8(bytes) =~= ascii_text(bytes));
    } else {
        assert(decode_utf8(bytes) =~= ascii_text(bytes));
    }
}

/// The number of operands that an operator needs to have its effect.
pub open spec fn operands_needed(op: Operator) -> nat {
    match op {
        Operator::Concat | Operator::CurveTo | Operator::TextMatrix => 6,
        Operator::CurveFromCurrent | Operator::CurveToEnd | Operator::Rectangle => 4,
        Operator::FillCmyk | Operator::StrokeCmyk => 4,
        Operator::FillRgb | Operator::StrokeRgb | Operator::SpacingShow => 3,
        Operator::MoveTo | Operator::LineTo | Operator::Font => 2,
        Operator::MoveText | Operator::MoveTextSetLeading => 2,
        Operator::LineWidth | Operator::FillGray | Operator::StrokeGray => 1,
        Operator::CharSpacing | Operator::WordSpacing | Operator::Leading | Operator::Rise => 1,
        Operator::Show | Operator::ShowArray => 1,
        _ => 0,
    }
}

/// An operator with fewer operands than it needs is skipped: nothing
/// changes and nothing is emitted.
pub proof fn law_too_few_operands_skip(m: ContextModel, op: Operator, ops: Seq<Operand>)
    requires
        ops.len() < operands_needed(op),
    ensures
        m.step(op, ops) == m,
{
}

/// Whether the operands of an operator are all read as numbers.
pub open spec fn takes_numbers(op: Operator) -> bool {
    match op {
        Operator::Font | Operator::Show | Operator::ShowArray => false,
        Operator::NextLineShow | Operator::SpacingShow => false,
        _ => true,
    }
}

/// The operands with the number zero in place of each that is no number.
pub open spec fn with_zeros(ops: Seq<Operand>) -> Seq<Operand> {
    Seq::new(
        ops.len(),
        |i: int|
            if number_of(ops[i]) is Some {
                ops[i]
            } else {
                Operand::Integer(0)
            },
    )
}

/// Where an operator reads numbers, an operand of another type counts as
/// zero: the operator does what it does with a zero in that place.
pub proof fn law_other_operands_count_as_zero(m: ContextModel, op: Operator, ops: Seq<Operand>)
    requires
        takes_numbers(op),
    ensures
        m.step(op, ops) == m.step(op, with_zeros(ops)),
{
    let zeros = with_zeros(ops);
    assert forall|i: int| number_or_zero(zeros, i) == number_or_zero(ops, i) by {
        if 0 <= i < ops.len() {
            assert(zeros[i] == if number_of(ops[i]) is Some {
                ops[i]
            } else {
                Operand::Integer(0)
            });
        }
    }
    assert(matrix_of(zeros) == matrix_of(ops));
}

/// `m` with two operands starts a subpath at the point that they give, an
/// operand that is no number counting as zero; the path in the making grows
/// by that one command and nothing else changes.
pub proof fn law_move_to_always_moves(m: ContextModel, ops: Seq<Operand>)
    requires
        ops.len() >= 2,
    ensures
        ({
            let x = number_or_zero(ops, 0);
            let y = number_or_zero(ops, 1);
            let after = m.step(Operator::MoveTo, ops);
            &&& after.current_path == m.current_path.push(PathCommand::MoveTo { x, y })
            &&& after.path_start == (x, y)
            &&& after.current_point == (x, y)
            &&& after.stack == m.stack
            &&& after.texts == m.texts
            &&& after.paths == m.paths
        }),
{
}

/// `cm` with six operands puts the operand matrix on the right of the
/// current transform, `CTM = CTM · M`, and changes nothing else: not the
/// other fields of the current state, not the states below it, not the
/// path in the making, not what was emitted.
pub proof fn law_concat_changes_the_transform_only(m: ContextModel, ops: Seq<Operand>)
    requires
        m.wf(),
        ops.len() >= 6,
    ensures
        ({
            let after = m.step(Operator::Concat, ops);
            &&& after.top() == (StateModel {
                ctm: m.top().ctm.spec_multiply(matrix_of(ops)),
                ..m.top()
            })
            &&& after.stack.len() == m.stack.len()
            &&& after.stack.drop_last() == m.stack.drop_last()
            &&& after.texts == m.texts
            &&& after.paths == m.paths
            &&& after.current_path == m.current_path
            &&& after.path_start == m.path_start
            &&& after.current_point == m.current_point
            &&& after.page_height == m.page_height
        }),
{
    let after = m.step(Operator::Concat, ops);
    assert(after.stack.drop_last() =~= m.stack.drop_last());
}

/// `re x y w h` appends exactly the five commands of the closed rectangle
/// to the path in the making, in their order, sets the start of the subpath
/// and the current point to `(x, y)`, and changes nothing else.
pub proof fn law_rectangle_appends_five(m: ContextModel, ops: Seq<Operand>)
    requires
        ops.len() >= 4,
    ensures
        ({
            let after = m.step(Operator::Rectangle, ops);
            let x = number_or_zero(ops, 0);
            let y = number_or_zero(ops, 1);
            let w = number_or_zero(ops, 2);
            let h = number_or_zero(ops, 3);
            &&& after.current_path == m.current_path + seq![
                PathCommand::MoveTo { x, y },
                PathCommand::LineTo { x: x.spec_plus(w), y },
                PathCommand::LineTo { x: x.spec_plus(w), y: y.spec_plus(h) },
                PathCommand::LineTo { x, y: y.spec_plus(h) },
                PathCommand::ClosePath,
            ]
            &&& after.current_path.len() == m.current_path.len() + 5
            &&& after.path_start == (x, y)
            &&& after.current_point == (x, y)
            &&& after.stack == m.stack
            &&& after.texts == m.texts
            &&& after.paths == m.paths
            &&& after.page_height == m.page_height
        }),
{
}

} // verus!
