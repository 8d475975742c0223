//! Positioned text: where on a page each instruction of a group is set.
//!
//! All lengths are whole hundredths of a millimetre, measured from the left
//! and the bottom edge of the page. Titles sit at a fixed height. Body lines
//! and blank lines share one cursor that drops by one line pitch per line and
//! starts anew with every group. Nothing here looks at the page height: a long
//! group runs off the bottom edge.

use vstd::prelude::*;
use crate::instruction::{FormatType, Instruction, InstructionView};

verus! {

/// Distance of every text item from the left edge: 10 mm.
pub const LEFT_MARGIN: i128 = 1000;

/// Height of a title above the bottom edge: 260 mm.
pub const TITLE_HEIGHT: i128 = 26000;

/// Height from which the body cursor starts: 256 mm.
pub const BODY_TOP: i128 = 25600;

/// Drop of the body cursor per line: 3.86 mm.
pub const LINE_PITCH: i128 = 386;

/// Constant drop of every body line below the cursor: 2 mm.
pub const BODY_DROP: i128 = 200;

/// Font size of a title.
pub const TITLE_FONT_SIZE: i64 = 24;

/// Font size of a body line.
pub const BODY_FONT_SIZE: i64 = 11;

/// How the glyphs of a text item are painted.
#[derive(Clone, Copy, Debug, PartialEq, Eq, Structural)]
pub enum RenderMode {
    Fill,
    Stroke,
    FillStroke,
    Invisible,
    FillClip,
    StrokeClip,
    FillStrokeClip,
    Clip,
}

/// The style of a text item; one constant value per kind of instruction.
#[derive(Clone, Copy, Debug, PartialEq, Eq, Structural)]
pub struct TextStyle {
    pub line_height: i64,
    pub word_spacing: i64,
    pub character_spacing: i64,
    pub render_mode: RenderMode,
}

/// One instruction in page coordinates.
#[derive(Debug, PartialEq, Eq)]
pub struct PositionedTextItem {
    /// The text to set: the instruction's data, unchanged.
    pub text: String,
    /// Distance from the left edge.
    pub horizontal_offset: i128,
    /// Distance from the bottom edge; negative below the page.
    pub vertical_offset: i128,
    pub font_size: i64,
    pub style: TextStyle,
}

/// The mathematical value of a [`PositionedTextItem`].
pub struct PositionedTextItemView {
    pub text: Seq<char>,
    pub horizontal_offset: int,
    pub vertical_offset: int,
    pub font_size: int,
    pub style: TextStyle,
}

impl View for PositionedTextItem {
    type V = PositionedTextItemView;

    open spec fn view(&self) -> PositionedTextItemView {
        PositionedTextItemView {
            text: self.text@,
            horizontal_offset: self.horizontal_offset as int,
            vertical_offset: self.vertical_offset as int,
            font_size: self.font_size as int,
            style: self.style,
        }
    }
}

impl DeepView for PositionedTextItem {
    type V = PositionedTextItemView;

    open spec fn deep_view(&self) -> PositionedTextItemView {
        self@
    }
}

impl Clone for PositionedTextItem {
    fn clone(&self) -> (r: PositionedTextItem)
        ensures
            r@ == self@,
    {
        PositionedTextItem {
            text: self.text.clone(),
            horizontal_offset: self.horizontal_offset,
            vertical_offset: self.vertical_offset,
            font_size: self.font_size,
            style: self.style,
        }
    }
}

/// The style of every title.
pub open spec fn title_style() -> TextStyle {
    TextStyle {
        line_height: 8,
        word_spacing: 3,
        character_spacing: 2,
        render_mode: RenderMode::FillStroke,
    }
}

/// The style of every body line and blank line.
pub open spec fn body_style() -> TextStyle {
    TextStyle {
        line_height: 3,
        word_spacing: 3,
        character_spacing: 2,
        render_mode: RenderMode::FillStroke,
    }
}

/// Height above the bottom edge of the `n`-th body line of a group, counted
/// from 1.
pub open spec fn body_offset(n: nat) -> int {
    BODY_TOP - n * LINE_PITCH - BODY_DROP
}

/// The number of instructions in `group` that are no title.
pub open spec fn body_lines(group: Seq<InstructionView>) -> nat
    decreases group.len(),
{
    if group.len() == 0 {
        0
    } else {
        let before = body_lines(group.drop_last());
        if group.last().kind == FormatType::Title {
            before
        } else {
            before + 1
        }
    }
}

/// The text item for `instruction`, given the number `n` of body lines of its
/// group up to and including it.
pub open spec fn placed(instruction: InstructionView, n: nat) -> PositionedTextItemView {
    if instruction.kind == FormatType::Title {
        PositionedTextItemView {
            text: instruction.data,
            horizontal_offset: LEFT_MARGIN as int,
            vertical_offset: TITLE_HEIGHT as int,
            font_size: TITLE_FONT_SIZE as int,
            style: title_style(),
        }
    } else {
        PositionedTextItemView {
            text: instruction.data,
            horizontal_offset: LEFT_MARGIN as int,
            vertical_offset: body_offset(n),
            font_size: BODY_FONT_SIZE as int,
            style: body_style(),
        }
    }
}

/// The text items of a group, one per instruction and in the same order.
pub open spec fn laid_out(group: Seq<InstructionView>) -> Seq<PositionedTextItemView> {
    Seq::new(group.len(), |k: int| placed(group[k], body_lines(group.take(k + 1))))
}

/// One more instruction adds one to the count of body lines unless it is a
/// title.
pub proof fn lemma_body_lines_step(group: Seq<InstructionView>, k: int)
    requires
        0 <= k < group.len(),
    ensures
        body_lines(group.take(k + 1)) == body_lines(group.take(k)) + if group[k].kind
            == FormatType::Title {
            0nat
        } else {
            1nat
        },
        body_lines(group.take(k + 1)) <= k + 1,
    decreases k,
{
    assert(group.take(k + 1).drop_last() =~= group.take(k));
    if k > 0 {
        lemma_body_lines_step(group, k - 1);
    }
}

/// In a group without titles the `k`-th instruction, counted from 0, is body
/// line `k + 1`: it stands 254 mm above the bottom edge less `k + 1` line
/// pitches.
pub proof fn lemma_untitled_group_offsets(group: Seq<InstructionView>, k: int)
    requires
        0 <= k < group.len(),
        forall|j: int| 0 <= j < group.len() ==> group[j].kind != FormatType::Title,
    ensures
        body_lines(group.take(k + 1)) == k + 1,
        laid_out(group)[k].vertical_offset == 25400 - 386 * (k + 1),
    decreases k,
{
    lemma_body_lines_step(group, k);
    if k > 0 {
        lemma_untitled_group_offsets(group, k - 1);
    } else {
        assert(group.take(0) =~= Seq::<InstructionView>::empty());
    }
}

/// Layout keeps every instruction's text as it is and sets one item per
/// instruction, in order. Titles all sit at one height; body lines and blank
/// lines drop by one pitch each, and a title between them costs no pitch.
pub proof fn lemma_layout_keeps_text(group: Seq<InstructionView>, k: int)
    requires
        0 <= k < group.len(),
    ensures
        laid_out(group).len() == group.len(),
        laid_out(group)[k].text == group[k].data,
        laid_out(group)[k].horizontal_offset == LEFT_MARGIN,
        group[k].kind == FormatType::Title ==> laid_out(group)[k].vertical_offset
            == TITLE_HEIGHT,
        group[k].kind != FormatType::Title ==> laid_out(group)[k].vertical_offset
            == body_offset(body_lines(group.take(k)) + 1),
{
    lemma_body_lines_step(group, k);
}

/// Gives the style of a title.
pub fn make_title_style() -> (style: TextStyle)
    ensures
        style == title_style(),
{
    TextStyle {
        line_height: 8,
        word_spacing: 3,
        character_spacing: 2,
        render_mode: RenderMode::FillStroke,
    }
}

/// Gives the style of a body line.
pub fn make_body_style() -> (style: TextStyle)
    ensures
        style == body_style(),
{
    TextStyle {
        line_height: 3,
        word_spacing: 3,
        character_spacing: 2,
        render_mode: RenderMode::FillStroke,
    }
}

/// Positions one instruction. `n` counts the body lines of its group up to
/// and including this one; a title does not read it.
pub fn place(instruction: &Instruction, n: usize) -> (item: PositionedTextItem)
    ensures
        item@ == placed(instruction@, n as nat),
{
    match instruction.kind {
        FormatType::Title => PositionedTextItem {
            text: instruction.data.clone(),
            horizontal_offset: LEFT_MARGIN,
            vertical_offset: TITLE_HEIGHT,
            font_size: TITLE_FONT_SIZE,
            style: make_title_style(),
        },
        _ => PositionedTextItem {
            text: instruction.data.clone(),
            horizontal_offset: LEFT_MARGIN,
            vertical_offset: BODY_TOP - (n as i128) * LINE_PITCH - BODY_DROP,
            font_size: BODY_FONT_SIZE,
            style: make_body_style(),
        },
    }
}

/// Appends the text items of `group` to `items`.
pub fn lay_out_onto(items: &mut Vec<PositionedTextItem>, group: &Vec<Instruction>)
    ensures
        final(items).deep_view() == old(items).deep_view() + laid_out(group.deep_view()),
{
    let ghost before = items.deep_view();
    let ghost source = group.deep_view();
    let mut n: usize = 0;
    let mut k: usize = 0;
    while k < group.len()
        invariant
            k <= group.len(),
            n <= k,
            source == group.deep_view(),
            n == body_lines(source.take(k as int)),
            items.deep_view() == before + laid_out(source).take(k as int),
        decreases group.len() - k,
    {
        let instruction = &group[k];
        proof {
            lemma_body_lines_step(source, k as int);
            assert(source[k as int] == instruction@);
        }
        if !instruction.is_title() {
            n += 1;
        }
        let item = place(instruction, n);
        let ghost held = items.deep_view();
        items.push(item);
        proof {
            assert(items.deep_view() =~= held.push(item@));
            assert(laid_out(source).take(k + 1) =~= laid_out(source).take(k as int).push(
                item@,
            ));
            assert(before + laid_out(source).take(k + 1) =~= held.push(item@));
        }
        k += 1;
    }
    assert(laid_out(source).take(k as int) =~= laid_out(source));
}

/// Lays out one group on its own.
pub fn lay_out(group: &Vec<Instruction>) -> (items: Vec<PositionedTextItem>)
    ensures
        items.deep_view() == laid_out(group.deep_view()),
{
    let mut items: Vec<PositionedTextItem> = Vec::new();
    lay_out_onto(&mut items, group);
    assert(items.deep_view() =~= laid_out(group.deep_view()));
    items
}

} // verus!
