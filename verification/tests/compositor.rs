use rws::compositor::{compose, CompositionState, Page, PAGE_HEIGHT, PAGE_WIDTH};
use rws::instruction::{FormatType, Instruction};
use rws::layout::lay_out;
use rws::parser::parse;

fn instruction(data: &str, kind: FormatType) -> Instruction {
    Instruction { data: data.to_string(), kind }
}

fn text_group(texts: &[&str]) -> Vec<Instruction> {
    texts.iter().map(|t| instruction(t, FormatType::Text)).collect()
}

fn texts_of(page: &Page) -> Vec<&str> {
    page.items.iter().map(|item| item.text.as_str()).collect()
}

#[test]
fn page_geometry_is_letter_portrait() {
    assert_eq!(PAGE_WIDTH, 21590);
    assert_eq!(PAGE_HEIGHT, 27940);
    assert_eq!(PAGE_WIDTH as f64 / 100.0, 215.9);
    assert_eq!(PAGE_HEIGHT as f64 / 100.0, 279.4);
}

#[test]
fn empty_group_between_two_groups_leaves_no_page() {
    let groups = vec![text_group(&["a", "b"]), Vec::new(), text_group(&["c"])];
    let pages = compose(&groups, PAGE_WIDTH, PAGE_HEIGHT);
    assert_eq!(pages.len(), 2);
    assert_eq!(texts_of(&pages[0]), vec!["a", "b"]);
    assert_eq!(texts_of(&pages[1]), vec!["c"]);
    assert_eq!(pages[1].items[0].vertical_offset, 25014);
}

#[test]
fn page_numbers_follow_the_positions_of_the_groups() {
    let groups = vec![text_group(&["a"]), Vec::new(), text_group(&["c"]), text_group(&["d"])];
    let pages = compose(&groups, PAGE_WIDTH, PAGE_HEIGHT);
    let numbers: Vec<usize> = pages.iter().map(|page| page.number).collect();
    assert_eq!(numbers, vec![1, 2, 3]);
}

#[test]
fn page_numbers_may_repeat() {
    let groups = vec![text_group(&["a"]), text_group(&["b"]), text_group(&["c"])];
    let pages = compose(&groups, PAGE_WIDTH, PAGE_HEIGHT);
    let numbers: Vec<usize> = pages.iter().map(|page| page.number).collect();
    assert_eq!(numbers, vec![1, 1, 2]);
}

#[test]
fn page_numbers_may_skip() {
    let groups = vec![
        text_group(&["a"]),
        Vec::new(),
        Vec::new(),
        Vec::new(),
        text_group(&["e"]),
    ];
    let pages = compose(&groups, PAGE_WIDTH, PAGE_HEIGHT);
    let numbers: Vec<usize> = pages.iter().map(|page| page.number).collect();
    assert_eq!(numbers, vec![1, 4]);
}

#[test]
fn no_groups_give_one_blank_page() {
    let pages = compose(&Vec::new(), PAGE_WIDTH, PAGE_HEIGHT);
    assert_eq!(pages, vec![Page { width: 21590, height: 27940, number: 1, items: Vec::new() }]);
}

#[test]
fn only_empty_groups_give_one_blank_page() {
    let groups = vec![Vec::new(), Vec::new(), Vec::new()];
    let pages = compose(&groups, PAGE_WIDTH, PAGE_HEIGHT);
    assert_eq!(pages, vec![Page { width: 21590, height: 27940, number: 1, items: Vec::new() }]);
}

#[test]
fn leading_empty_groups_open_no_page() {
    let groups = vec![Vec::new(), Vec::new(), text_group(&["late"]), text_group(&["later"])];
    let pages = compose(&groups, PAGE_WIDTH, PAGE_HEIGHT);
    assert_eq!(pages.len(), 2);
    assert_eq!(pages[0].number, 1);
    assert_eq!(texts_of(&pages[0]), vec!["late"]);
    assert_eq!(pages[1].number, 3);
    assert_eq!(texts_of(&pages[1]), vec!["later"]);
}

#[test]
fn each_page_holds_the_layout_of_its_group() {
    let groups = vec![
        vec![instruction("T", FormatType::Title), instruction("a", FormatType::Text)],
        vec![
            instruction("", FormatType::Newline),
            instruction("U", FormatType::Title),
            instruction("b", FormatType::Text),
        ],
    ];
    let pages = compose(&groups, PAGE_WIDTH, PAGE_HEIGHT);
    assert_eq!(pages.len(), 2);
    assert_eq!(pages[0].items, lay_out(&groups[0]));
    assert_eq!(pages[1].items, lay_out(&groups[1]));
}

#[test]
fn the_line_count_starts_anew_on_every_page() {
    let groups = vec![text_group(&["a", "b", "c"]), text_group(&["d", "e"])];
    let pages = compose(&groups, PAGE_WIDTH, PAGE_HEIGHT);
    let first: Vec<i128> = pages[0].items.iter().map(|item| item.vertical_offset).collect();
    let second: Vec<i128> = pages[1].items.iter().map(|item| item.vertical_offset).collect();
    assert_eq!(first, vec![25014, 24628, 24242]);
    assert_eq!(second, vec![25014, 24628]);
}

#[test]
fn every_page_has_the_given_geometry() {
    let groups = vec![text_group(&["a"]), text_group(&["b"]), text_group(&["c"])];
    let pages = compose(&groups, 14800, 21000);
    assert_eq!(pages.len(), 3);
    for page in &pages {
        assert_eq!(page.width, 14800);
        assert_eq!(page.height, 21000);
    }
}

#[test]
fn a_long_group_stays_on_one_page() {
    let group: Vec<Instruction> = (0..200).map(|_| instruction("x", FormatType::Text)).collect();
    let pages = compose(&vec![group], PAGE_WIDTH, PAGE_HEIGHT);
    assert_eq!(pages.len(), 1);
    assert_eq!(pages[0].items.len(), 200);
    assert!(pages[0].items[199].vertical_offset < 0);
}

#[test]
fn composing_twice_gives_the_same_pages() {
    let groups = vec![
        vec![instruction("T", FormatType::Title), instruction("a", FormatType::Text)],
        Vec::new(),
        vec![instruction(" ", FormatType::Newline), instruction("b", FormatType::Text)],
    ];
    let first = compose(&groups, PAGE_WIDTH, PAGE_HEIGHT);
    let between = compose(&vec![text_group(&["other"])], PAGE_WIDTH, PAGE_HEIGHT);
    let second = compose(&groups, PAGE_WIDTH, PAGE_HEIGHT);
    assert_eq!(first, second);
    assert_eq!(between.len(), 1);
}

#[test]
fn fresh_state_has_one_blank_page_and_nothing_written() {
    let state = CompositionState::new(PAGE_WIDTH, PAGE_HEIGHT);
    assert!(!state.wrote);
    assert_eq!(
        state.pages,
        vec![Page { width: 21590, height: 27940, number: 1, items: Vec::new() }]
    );
}

#[test]
fn an_empty_group_changes_nothing() {
    let mut state = CompositionState::new(PAGE_WIDTH, PAGE_HEIGHT);
    state.place_group(&Vec::new(), 0);
    assert_eq!(state, CompositionState::new(PAGE_WIDTH, PAGE_HEIGHT));
    state.place_group(&text_group(&["a"]), 1);
    let held = state.into_pages();
    let mut again = CompositionState::new(PAGE_WIDTH, PAGE_HEIGHT);
    again.place_group(&text_group(&["a"]), 1);
    again.place_group(&Vec::new(), 2);
    assert!(again.wrote);
    assert_eq!(again.into_pages(), held);
}

#[test]
fn the_first_written_group_goes_onto_the_open_page() {
    let mut state = CompositionState::new(PAGE_WIDTH, PAGE_HEIGHT);
    state.place_group(&text_group(&["a"]), 5);
    assert!(state.wrote);
    assert_eq!(state.pages.len(), 1);
    assert_eq!(state.pages[0].number, 1);
    assert_eq!(texts_of(&state.pages[0]), vec!["a"]);
}

#[test]
fn a_later_group_opens_a_page_once_something_was_written() {
    let mut state = CompositionState::new(PAGE_WIDTH, PAGE_HEIGHT);
    state.place_group(&text_group(&["a"]), 0);
    state.place_group(&text_group(&["b"]), 7);
    assert_eq!(state.pages.len(), 2);
    assert_eq!(state.pages[1].number, 7);
    assert_eq!(state.pages[1].width, PAGE_WIDTH);
    assert_eq!(state.pages[1].height, PAGE_HEIGHT);
    assert_eq!(texts_of(&state.pages[1]), vec!["b"]);
    assert_eq!(texts_of(&state.pages[0]), vec!["a"]);
}

#[test]
fn a_group_at_position_zero_never_opens_a_page() {
    let mut state = CompositionState::new(PAGE_WIDTH, PAGE_HEIGHT);
    state.place_group(&text_group(&["a"]), 0);
    state.place_group(&text_group(&["b"]), 0);
    assert_eq!(state.pages.len(), 1);
    assert_eq!(texts_of(&state.pages[0]), vec!["a", "b"]);
    let offsets: Vec<i128> = state.pages[0].items.iter().map(|item| item.vertical_offset).collect();
    assert_eq!(offsets, vec![25014, 25014]);
}

#[test]
fn page_place_group_appends_to_the_page() {
    let mut page = Page::new(PAGE_WIDTH, PAGE_HEIGHT, 1);
    assert!(page.items.is_empty());
    page.place_group(&text_group(&["a", "b"]));
    assert_eq!(page.number, 1);
    assert_eq!(page.width, PAGE_WIDTH);
    assert_eq!(page.height, PAGE_HEIGHT);
    assert_eq!(page.items, lay_out(&text_group(&["a", "b"])));
}

#[test]
fn blank_lines_reach_the_page_as_they_were_read() {
    let lines: Vec<String> = ["", "text", " ", "\n"].iter().map(|t| t.to_string()).collect();
    let pages = compose(&vec![parse(&lines)], PAGE_WIDTH, PAGE_HEIGHT);
    assert_eq!(texts_of(&pages[0]), vec!["", "text", " ", "\n"]);
    let offsets: Vec<i128> = pages[0].items.iter().map(|item| item.vertical_offset).collect();
    assert_eq!(offsets, vec![25014, 24628, 24242, 23856]);
}

#[test]
fn a_file_cut_at_its_first_line_opens_no_page() {
    let files: Vec<Vec<String>> = vec![
        vec!["# One".to_string(), "a".to_string()],
        vec!["// unfinished".to_string(), "hidden".to_string()],
        vec!["# Three".to_string()],
    ];
    let groups: Vec<Vec<Instruction>> = files.iter().map(parse).collect();
    let pages = compose(&groups, PAGE_WIDTH, PAGE_HEIGHT);
    assert_eq!(pages.len(), 2);
    assert_eq!(texts_of(&pages[0]), vec!["One", "a"]);
    assert_eq!(texts_of(&pages[1]), vec!["Three"]);
    assert_eq!(pages[1].number, 2);
}

#[test]
fn typeset_parses_and_composes() {
    let files: Vec<Vec<String>> = vec![
        vec!["# One".to_string(), "a".to_string(), "".to_string()],
        vec!["//unfinished".to_string()],
        vec![" # Two".to_string(), "b // unfinished".to_string(), "c".to_string()],
    ];
    let groups = rws::pipeline::parse_files(&files);
    assert_eq!(groups.len(), 3);
    assert_eq!(groups[0], parse(&files[0]));
    assert!(groups[1].is_empty());
    assert_eq!(groups[2], vec![instruction("Two", FormatType::Title)]);
    let pages = rws::pipeline::typeset(&files, PAGE_WIDTH, PAGE_HEIGHT);
    assert_eq!(pages, compose(&groups, PAGE_WIDTH, PAGE_HEIGHT));
    assert_eq!(pages.len(), 2);
    assert_eq!(texts_of(&pages[0]), vec!["One", "a", ""]);
    assert_eq!(texts_of(&pages[1]), vec!["Two"]);
}
