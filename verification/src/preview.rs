//! The console preview: groups as plain text.
//!
//! A title is printed on a line of its own and underlined with dashes, one
//! more than the title has bytes. A blank line is printed as an empty line,
//! whatever blank form it was read as. A body line is printed as it is. Behind
//! every group stands a separator with a tilde. The preview reads the groups
//! and nothing else; composition does not depend on it.

use vstd::prelude::*;
use vstd::utf8::encode_utf8;
use crate::instruction::{FormatType, Instruction, InstructionView};

verus! {

/// A run of `n` dashes.
pub open spec fn dashes(n: nat) -> Seq<char> {
    Seq::new(n, |i: int| '-')
}

/// What stands behind every group: an empty line, a tilde, an empty line.
pub open spec fn group_separator() -> Seq<char> {
    seq!['\n', '~', '\n', '\n']
}

/// The preview of one instruction, line ends included.
pub open spec fn instruction_preview(instruction: InstructionView) -> Seq<char> {
    match instruction.kind {
        FormatType::Title => instruction.data + seq!['\n'] + dashes(
            encode_utf8(instruction.data).len() + 1,
        ) + seq!['\n'],
        FormatType::Newline => seq!['\n'],
        FormatType::Text => instruction.data + seq!['\n'],
    }
}

/// The previews of a group's instructions, one behind the other.
pub open spec fn instructions_preview(group: Seq<InstructionView>) -> Seq<char>
    decreases group.len(),
{
    if group.len() == 0 {
        Seq::empty()
    } else {
        instructions_preview(group.drop_last()) + instruction_preview(group.last())
    }
}

/// The preview of one group: its instructions, then the separator.
pub open spec fn group_preview(group: Seq<InstructionView>) -> Seq<char> {
    instructions_preview(group) + group_separator()
}

/// The preview of a list of groups: the groups' previews in order.
pub open spec fn preview_text(groups: Seq<Seq<InstructionView>>) -> Seq<char>
    decreases groups.len(),
{
    if groups.len() == 0 {
        Seq::empty()
    } else {
        preview_text(groups.drop_last()) + group_preview(groups.last())
    }
}

/// Appends a run of `n + 1` dashes to `out`.
fn append_underline(out: &mut String, n: usize)
    ensures
        final(out)@ == old(out)@ + dashes((n + 1) as nat),
{
    proof {
        reveal_strlit("-");
    }
    let ghost before = out@;
    out.append("-");
    assert(out@ =~= before + dashes(1));
    let mut i: usize = 0;
    while i < n
        invariant
            i <= n,
            "-"@ == seq!['-'],
            out@ == before + dashes((i + 1) as nat),
        decreases n - i,
    {
        let ghost held = out@;
        out.append("-");
        assert(out@ =~= before + dashes((i + 2) as nat)) by {
            assert(held + seq!['-'] =~= before + dashes((i + 2) as nat));
        }
        i += 1;
    }
}

/// Appends the preview of one instruction to `out`.
pub fn append_instruction_preview(out: &mut String, instruction: &Instruction)
    ensures
        final(out)@ == old(out)@ + instruction_preview(instruction@),
{
    proof {
        reveal_strlit("\n");
    }
    let ghost before = out@;
    match instruction.kind {
        FormatType::Title => {
            out.append(instruction.data.as_str());
            out.append("\n");
            append_underline(out, instruction.data.as_str().as_bytes().len());
            out.append("\n");
            assert(out@ =~= before + instruction_preview(instruction@));
        },
        FormatType::Newline => {
            out.append("\n");
            assert(out@ =~= before + instruction_preview(instruction@));
        },
        FormatType::Text => {
            out.append(instruction.data.as_str());
            out.append("\n");
            assert(out@ =~= before + instruction_preview(instruction@));
        },
    }
}

/// Appends the preview of one group, separator included, to `out`.
pub fn append_group_preview(out: &mut String, group: &Vec<Instruction>)
    ensures
        final(out)@ == old(out)@ + group_preview(group.deep_view()),
{
    proof {
        reveal_strlit("\n~\n\n");
    }
    let ghost before = out@;
    let ghost source = group.deep_view();
    let mut k: usize = 0;
    while k < group.len()
        invariant
            k <= group.len(),
            source == group.deep_view(),
            out@ == before + instructions_preview(source.take(k as int)),
        decreases group.len() - k,
    {
        append_instruction_preview(out, &group[k]);
        proof {
            assert(source.take(k + 1).drop_last() =~= source.take(k as int));
            assert(source.take(k + 1).last() == group[k as int]@);
            assert(out@ =~= before + instructions_preview(source.take(k + 1)));
        }
        k += 1;
    }
    assert(source.take(k as int) =~= source);
    out.append("\n~\n\n");
    assert(out@ =~= before + group_preview(source));
}

/// Renders the preview of one group, separator included.
pub fn preview_group(group: &Vec<Instruction>) -> (out: String)
    ensures
        out@ == group_preview(group.deep_view()),
{
    let mut out = String::new();
    append_group_preview(&mut out, group);
    assert(out@ =~= group_preview(group.deep_view()));
    out
}

/// Renders the preview of a list of groups.
pub fn preview(groups: &Vec<Vec<Instruction>>) -> (out: String)
    ensures
        out@ == preview_text(groups.deep_view()),
{
    let mut out = String::new();
    let ghost source = groups.deep_view();
    let mut k: usize = 0;
    while k < groups.len()
        invariant
            k <= groups.len(),
            source == groups.deep_view(),
            out@ == preview_text(source.take(k as int)),
        decreases groups.len() - k,
    {
        append_group_preview(&mut out, &groups[k]);
        proof {
            assert(source.take(k + 1).drop_last() =~= source.take(k as int));
            assert(source.take(k + 1).last() == groups[k as int].deep_view());
        }
        k += 1;
    }
    assert(source.take(k as int) =~= source);
    out
}

} // verus!
