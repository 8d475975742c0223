//! The two stages together: from the lines of the source files to the pages.

use vstd::prelude::*;
use crate::compositor::{compose, composed, lemma_composed_pages, occupied, Page};
use crate::instruction::{FormatType, Instruction, InstructionView};
use crate::layout::lemma_layout_keeps_text;
use crate::parser::{is_blank, lemma_blank_data_is_line, parse, parse_lines};

verus! {

/// The groups of a list of files: one per file, in the order of the files.
pub open spec fn parsed_files(files: Seq<Seq<Seq<char>>>) -> Seq<Seq<InstructionView>> {
    Seq::new(files.len(), |i: int| parse_lines(files[i]))
}

/// The pages that a list of files is set on.
pub open spec fn typeset_pages(files: Seq<Seq<Seq<char>>>, width: int, height: int) -> Seq<
    crate::compositor::PageView,
> {
    composed(parsed_files(files), width, height)
}

/// A blank line comes through both stages as it was read. Take the file that
/// fills page `rank` and a line of it, before any sentinel, that was read as
/// a blank line: the line is one of the three blank forms, and the text item
/// at the line's position on that page holds exactly the line.
pub proof fn lemma_blank_line_round_trip(
    files: Seq<Seq<Seq<char>>>,
    width: int,
    height: int,
    rank: int,
    line: int,
)
    requires
        0 <= rank < occupied(parsed_files(files), files.len()).len(),
        0 <= line < parse_lines(
            files[occupied(parsed_files(files), files.len())[rank]],
        ).len(),
        parse_lines(files[occupied(parsed_files(files), files.len())[rank]])[line].kind
            == FormatType::Newline,
    ensures
        ({
            let file = files[occupied(parsed_files(files), files.len())[rank]];
            let page = typeset_pages(files, width, height)[rank];
            &&& line < file.len()
            &&& is_blank(file[line])
            &&& parse_lines(file)[line].data == file[line]
            &&& page.items.len() == parse_lines(file).len()
            &&& page.items[line].text == file[line]
        }),
{
    let groups = parsed_files(files);
    let index = occupied(groups, files.len())[rank];
    lemma_composed_pages(groups, width, height);
    assert(0 <= index < groups.len());
    assert(groups[index] == parse_lines(files[index]));
    lemma_blank_data_is_line(files[index], line);
    lemma_layout_keeps_text(groups[index], line);
}

/// Parses every file of a list, each on its own.
pub fn parse_files(files: &Vec<Vec<String>>) -> (groups: Vec<Vec<Instruction>>)
    ensures
        groups.deep_view() == parsed_files(files.deep_view()),
{
    let mut groups: Vec<Vec<Instruction>> = Vec::new();
    let mut i: usize = 0;
    while i < files.len()
        invariant
            i <= files.len(),
            groups.len() == i,
            forall|j: int|
                0 <= j < i ==> (#[trigger] groups[j]).deep_view() == parse_lines(
                    files[j].deep_view(),
                ),
        decreases files.len() - i,
    {
        groups.push(parse(&files[i]));
        i += 1;
    }
    assert(groups.deep_view() =~= parsed_files(files.deep_view())) by {
        assert forall|j: int| 0 <= j < groups.len() implies groups.deep_view()[j]
            == parsed_files(files.deep_view())[j] by {
            assert(groups.deep_view()[j] == groups[j].deep_view());
            assert(files.deep_view()[j] == files[j].deep_view());
        }
    }
    groups
}

/// Sets a list of files on pages of the given geometry: parses every file and
/// composes the groups.
pub fn typeset(files: &Vec<Vec<String>>, page_width: i128, page_height: i128) -> (pages: Vec<
    Page,
>)
    ensures
        pages.deep_view() == typeset_pages(
            files.deep_view(),
            page_width as int,
            page_height as int,
        ),
{
    let groups = parse_files(files);
    compose(&groups, page_width, page_height)
}

} // verus!
