//! The instruction parser: classifies the lines of one source file.
//!
//! Each line is tested in a fixed order and the first test that holds decides:
//! the termination sentinel, then the blank-line forms, then the title marker;
//! what remains is body text. A line that holds the sentinel ends the file:
//! neither it nor any line behind it yields an instruction.

use vstd::prelude::*;
use crate::instruction::{FormatType, Instruction, InstructionView};
use crate::text::{
    after_last, begins_with, chars_of, contains, has_substring, is_whitespace,
    lemma_after_last_found, lemma_trim_start_skips, rfind, starts_with, trim_start,
    whitespace_run,
};

verus! {

/// The character that marks a title.
pub const TITLE_MARK: char = '#';

/// The line holds one of the two spellings of the termination sentinel.
pub open spec fn has_sentinel(line: Seq<char>) -> bool {
    has_substring(line, "// unfinished"@) || has_substring(line, "//unfinished"@)
}

/// The line is one of the three blank forms: empty, one space, one line feed.
pub open spec fn is_blank(line: Seq<char>) -> bool {
    line =~= Seq::<char>::empty() || line =~= seq![' '] || line =~= seq!['\n']
}

/// The line opens with the title mark, or with one space and the title mark.
pub open spec fn is_title_marker(line: Seq<char>) -> bool {
    begins_with(line, seq!['#']) || begins_with(line, seq![' ', '#'])
}

/// The heading that a line carries: what stands behind its last title mark,
/// without leading whitespace. A line without any title mark is headed
/// `Untitled`.
pub open spec fn title_text(line: Seq<char>) -> Seq<char> {
    if line.contains('#') {
        trim_start(after_last(line, '#'))
    } else {
        "Untitled"@
    }
}

/// The instruction that a line without sentinel yields.
pub open spec fn instruction_of(line: Seq<char>) -> InstructionView {
    if is_blank(line) {
        InstructionView { data: line, kind: FormatType::Newline }
    } else if is_title_marker(line) {
        InstructionView { data: title_text(line), kind: FormatType::Title }
    } else {
        InstructionView { data: line, kind: FormatType::Text }
    }
}

/// What one line is classified as: `None` where it holds the sentinel.
pub open spec fn classify_line(line: Seq<char>) -> Option<InstructionView> {
    if has_sentinel(line) {
        None
    } else {
        Some(instruction_of(line))
    }
}

/// The number of lines that stand before the first line with a sentinel; all
/// of them where there is no such line.
pub open spec fn kept_lines(lines: Seq<Seq<char>>) -> nat
    decreases lines.len(),
{
    if lines.len() == 0 || has_sentinel(lines[0]) {
        0
    } else {
        1 + kept_lines(lines.drop_first())
    }
}

/// The group that a file's lines are parsed into.
pub open spec fn parse_lines(lines: Seq<Seq<char>>) -> Seq<InstructionView> {
    Seq::new(kept_lines(lines), |i: int| instruction_of(lines[i]))
}

/// `kept_lines` is the position of the first sentinel line.
pub proof fn lemma_kept_lines(lines: Seq<Seq<char>>, k: int)
    requires
        0 <= k <= lines.len(),
        forall|i: int| 0 <= i < k ==> !has_sentinel(lines[i]),
        k < lines.len() ==> has_sentinel(lines[k]),
    ensures
        kept_lines(lines) == k,
    decreases k,
{
    if k > 0 {
        let rest = lines.drop_first();
        assert forall|i: int| 0 <= i < k - 1 implies !has_sentinel(rest[i]) by {
            assert(rest[i] == lines[i + 1]);
        }
        assert(k - 1 < rest.len() ==> rest[k - 1] == lines[k]);
        lemma_kept_lines(rest, k - 1);
    }
}

/// `kept_lines` finds the first sentinel line: no line before it holds the
/// sentinel, and it holds one unless it is the end of the file.
pub proof fn lemma_kept_lines_stop(lines: Seq<Seq<char>>)
    ensures
        kept_lines(lines) <= lines.len(),
        forall|i: int| 0 <= i < kept_lines(lines) ==> !has_sentinel(#[trigger] lines[i]),
        kept_lines(lines) < lines.len() ==> has_sentinel(lines[kept_lines(lines) as int]),
    decreases lines.len(),
{
    if lines.len() > 0 && !has_sentinel(lines[0]) {
        let rest = lines.drop_first();
        lemma_kept_lines_stop(rest);
        assert forall|i: int| 0 <= i < kept_lines(lines) implies !has_sentinel(
            #[trigger] lines[i],
        ) by {
            if i > 0 {
                assert(lines[i] == rest[i - 1]);
            }
        }
        assert(kept_lines(lines) < lines.len() ==> lines[kept_lines(lines) as int] == rest[kept_lines(
            rest,
        ) as int]);
    }
}

/// Parsing keeps the order of the lines and stops for good at the first
/// sentinel: the group has one instruction for each line before that line, in
/// line order, and none for that line or any line behind it.
pub proof fn lemma_parse_truncates(lines: Seq<Seq<char>>)
    ensures
        parse_lines(lines).len() <= lines.len(),
        forall|i: int|
            0 <= i < parse_lines(lines).len() ==> classify_line(lines[i]) == Some(
                #[trigger] parse_lines(lines)[i],
            ),
        parse_lines(lines).len() < lines.len() ==> classify_line(
            lines[parse_lines(lines).len() as int],
        ) is None,
        parse_lines(lines).len() == lines.len() <==> forall|i: int|
            0 <= i < lines.len() ==> !has_sentinel(#[trigger] lines[i]),
{
    lemma_kept_lines_stop(lines);
}

/// The blank forms are tested before the title marker, and the sentinel
/// before both. Every line falls under exactly one of four cases: it ends the
/// file, or it yields one instruction of exactly one kind.
pub proof fn lemma_classification_precedence(line: Seq<char>)
    ensures
        has_sentinel(line) <==> classify_line(line) is None,
        !has_sentinel(line) && is_blank(line) ==> classify_line(line) == Some(
            InstructionView { data: line, kind: FormatType::Newline },
        ),
        !has_sentinel(line) && !is_blank(line) && is_title_marker(line) ==> classify_line(line)
            == Some(InstructionView { data: title_text(line), kind: FormatType::Title }),
        !has_sentinel(line) && !is_blank(line) && !is_title_marker(line) ==> classify_line(line)
            == Some(InstructionView { data: line, kind: FormatType::Text }),
{
}

/// No line is blank and something else at once: a blank line holds no
/// sentinel and opens with no title marker. So a blank line always yields a
/// blank-line instruction that holds the line as it was read.
pub proof fn lemma_blank_is_only_blank(line: Seq<char>)
    requires
        is_blank(line),
    ensures
        !has_sentinel(line),
        !is_title_marker(line),
        classify_line(line) == Some(InstructionView { data: line, kind: FormatType::Newline }),
{
    reveal_strlit("// unfinished");
    reveal_strlit("//unfinished");
    assert(line.len() <= 1);
    assert(seq!['#'][0] == '#');
    assert(seq![' ', '#'].len() == 2);
    if begins_with(line, seq!['#']) {
        assert(line.subrange(0, 1)[0] == '#');
    }
}

/// A blank-line instruction of a parsed group holds the line that it was read
/// from, which is one of the three blank forms.
pub proof fn lemma_blank_data_is_line(lines: Seq<Seq<char>>, i: int)
    requires
        0 <= i < parse_lines(lines).len(),
        parse_lines(lines)[i].kind == FormatType::Newline,
    ensures
        i < lines.len(),
        is_blank(lines[i]),
        parse_lines(lines)[i].data == lines[i],
{
    lemma_kept_lines_stop(lines);
}

/// Tells whether the line holds the termination sentinel.
pub fn is_sentinel(line: &str) -> (r: bool)
    ensures
        r == has_sentinel(line@),
{
    let chars = chars_of(line);
    let spaced = chars_of("// unfinished");
    let tight = chars_of("//unfinished");
    contains(chars.as_slice(), spaced.as_slice()) || contains(chars.as_slice(), tight.as_slice())
}

/// Classifies one line. `None` says that the line holds the sentinel, so that
/// the file ends here.
pub fn classify(line: &str) -> (r: Option<Instruction>)
    ensures
        match r {
            Some(instruction) => classify_line(line@) == Some(instruction@),
            None => classify_line(line@) is None,
        },
{
    let spaced = chars_of("// unfinished");
    let tight = chars_of("//unfinished");
    classify_with(line, spaced.as_slice(), tight.as_slice())
}

/// Parses the lines of one source file, in order, into its group.
pub fn parse(lines: &Vec<String>) -> (group: Vec<Instruction>)
    ensures
        group.deep_view() == parse_lines(lines.deep_view()),
{
    let spaced = chars_of("// unfinished");
    let tight = chars_of("//unfinished");
    let mut group: Vec<Instruction> = Vec::new();
    let mut i: usize = 0;
    while i < lines.len()
        invariant
            spaced@ == "// unfinished"@,
            tight@ == "//unfinished"@,
            group.len() == i <= lines.len(),
            forall|j: int| 0 <= j < group.len() ==> !has_sentinel(#[trigger] lines[j]@),
            forall|j: int| 0 <= j < group.len() ==> (#[trigger] group[j])@ == instruction_of(lines[j]@),
        ensures
            group.len() < lines.len() ==> has_sentinel(lines[group.len() as int]@),
        decreases lines.len() - i,
    {
        match classify_with(lines[i].as_str(), spaced.as_slice(), tight.as_slice()) {
            Some(instruction) => {
                group.push(instruction);
            },
            None => {
                break;
            },
        }
        i += 1;
    }
    proof {
        let texts = lines.deep_view();
        assert forall|j: int| 0 <= j < group.len() implies !has_sentinel(texts[j]) by {
            assert(texts[j] == lines[j]@);
        }
        assert(group.len() < lines.len() ==> texts[group.len() as int] == lines[group.len() as int]@);
        lemma_kept_lines(texts, group.len() as int);
        assert forall|j: int| 0 <= j < group.len() implies group.deep_view()[j] == parse_lines(
            texts,
        )[j] by {
            assert(texts[j] == lines[j]@);
            assert(group.deep_view()[j] == group[j]@);
        }
        assert(group.deep_view() =~= parse_lines(texts));
    }
    group
}

/// Extracts the heading of a line.
pub fn title_of(line: &str) -> (title: String)
    ensures
        title@ == title_text(line@),
{
    let chars = chars_of(line);
    title_from(line, chars.as_slice())
}

fn title_from(line: &str, chars: &[char]) -> (title: String)
    requires
        chars@ == line@,
    ensures
        title@ == title_text(line@),
{
    match rfind(chars, TITLE_MARK) {
        Some(k) => {
            assert(k < chars.len());
            let from: usize = k + 1;
            let run = whitespace_run(chars, from);
            proof {
                let tail = line@.skip(from as int);
                lemma_after_last_found(line@, '#', k as int);
                assert forall|j: int| 0 <= j < run implies is_whitespace(tail[j]) by {
                    assert(tail[j] == chars@[from + j]);
                }
                assert(run < tail.len() ==> tail[run as int] == chars@[from + run]);
                lemma_trim_start_skips(tail, run as int);
                assert(tail.skip(run as int) =~= line@.subrange(
                    from + run,
                    line@.len() as int,
                ));
                assert(line@.contains('#'));
            }
            line.substring_char(from + run, chars.len()).to_owned()
        },
        None => "Untitled".to_owned(),
    }
}

fn classify_with(line: &str, spaced: &[char], tight: &[char]) -> (r: Option<Instruction>)
    requires
        spaced@ == "// unfinished"@,
        tight@ == "//unfinished"@,
    ensures
        match r {
            Some(instruction) => classify_line(line@) == Some(instruction@),
            None => classify_line(line@) is None,
        },
{
    let owned = chars_of(line);
    let chars = owned.as_slice();
    if contains(chars, spaced) || contains(chars, tight) {
        return None;
    }
    if chars.len() == 0 || (chars.len() == 1 && (chars[0] == ' ' || chars[0] == '\n')) {
        return Some(Instruction { data: line.to_owned(), kind: FormatType::Newline });
    }
    assert(!is_blank(line@)) by {
        assert(seq![' '].len() == 1 && seq![' '][0] == ' ');
        assert(seq!['\n'].len() == 1 && seq!['\n'][0] == '\n');
    }
    let mark: [char; 1] = ['#'];
    let indented_mark: [char; 2] = [' ', '#'];
    assert(mark@ =~= seq!['#']);
    assert(indented_mark@ =~= seq![' ', '#']);
    if starts_with(chars, mark.as_slice()) || starts_with(chars, indented_mark.as_slice()) {
        return Some(Instruction { data: title_from(line, chars), kind: FormatType::Title });
    }
    Some(Instruction { data: line.to_owned(), kind: FormatType::Text })
}

} // verus!
