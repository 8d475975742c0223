//! The page compositor: lays groups out over the pages of a document.
//!
//! Composition threads one state through the groups in input order: whether
//! anything was written yet, and the pages so far, the last of which is the
//! open page. An empty group changes nothing. A group with instructions goes
//! onto the open page if nothing was written yet, and onto a new page
//! otherwise.

use vstd::prelude::*;
use crate::instruction::{Instruction, InstructionView};
use crate::layout::{laid_out, lay_out_onto, PositionedTextItem, PositionedTextItemView};

verus! {

/// Width of the page of this system, portrait: 215.9 mm.
pub const PAGE_WIDTH: i128 = 21590;

/// Height of the page of this system, portrait: 279.4 mm.
pub const PAGE_HEIGHT: i128 = 27940;

/// The number that the first page is labelled with.
pub const FIRST_PAGE_NUMBER: usize = 1;

/// One page: text items in one coordinate space.
#[derive(Debug, PartialEq, Eq)]
pub struct Page {
    /// Width, in hundredths of a millimetre.
    pub width: i128,
    /// Height, in hundredths of a millimetre.
    pub height: i128,
    /// The number in the page's label. The first page has 1; a later page has
    /// the position, counted from 0, of the group that opened it in the list
    /// of groups. So labels may repeat or skip.
    pub number: usize,
    /// The text items, in the order in which they were placed.
    pub items: Vec<PositionedTextItem>,
}

/// The mathematical value of a [`Page`].
pub struct PageView {
    pub width: int,
    pub height: int,
    pub number: nat,
    pub items: Seq<PositionedTextItemView>,
}

impl View for Page {
    type V = PageView;

    open spec fn view(&self) -> PageView {
        PageView {
            width: self.width as int,
            height: self.height as int,
            number: self.number as nat,
            items: self.items.deep_view(),
        }
    }
}

impl DeepView for Page {
    type V = PageView;

    open spec fn deep_view(&self) -> PageView {
        self@
    }
}

/// What composition carries from group to group.
#[derive(Debug, PartialEq, Eq)]
pub struct CompositionState {
    /// Whether any text item was placed on any page yet.
    pub wrote: bool,
    /// The pages so far. The last one is the open page.
    pub pages: Vec<Page>,
}

/// The mathematical value of a [`CompositionState`].
pub struct CompositionStateView {
    pub wrote: bool,
    pub pages: Seq<PageView>,
}

impl View for CompositionState {
    type V = CompositionStateView;

    open spec fn view(&self) -> CompositionStateView {
        CompositionStateView { wrote: self.wrote, pages: self.pages.deep_view() }
    }
}

/// A page without text items.
pub open spec fn blank_page(width: int, height: int, number: nat) -> PageView {
    PageView { width, height, number, items: Seq::empty() }
}

/// The state before any group: nothing written, and one blank open page.
pub open spec fn initial_state(width: int, height: int) -> CompositionStateView {
    CompositionStateView {
        wrote: false,
        pages: seq![blank_page(width, height, FIRST_PAGE_NUMBER as nat)],
    }
}

/// A state has an open page.
pub open spec fn has_open_page(state: CompositionStateView) -> bool {
    state.pages.len() > 0
}

/// The pages on which a group at position `index` is laid out: one more page
/// where something was written before and the group is not the first of the
/// list; the new page has the geometry of the open one.
pub open spec fn with_open_page(state: CompositionStateView, index: nat) -> Seq<PageView> {
    if index != 0 && state.wrote {
        let open = state.pages.last();
        state.pages.push(blank_page(open.width, open.height, index))
    } else {
        state.pages
    }
}

/// The state after the group at position `index` of the list.
pub open spec fn after_group(
    state: CompositionStateView,
    group: Seq<InstructionView>,
    index: nat,
) -> CompositionStateView {
    if group.len() == 0 {
        state
    } else {
        let pages = with_open_page(state, index);
        let open = pages.last();
        CompositionStateView {
            wrote: true,
            pages: pages.update(
                pages.len() - 1,
                PageView { items: open.items + laid_out(group), ..open },
            ),
        }
    }
}

/// The state after the first `count` groups of the list.
pub open spec fn after_groups(
    groups: Seq<Seq<InstructionView>>,
    count: nat,
    width: int,
    height: int,
) -> CompositionStateView
    decreases count,
{
    if count == 0 {
        initial_state(width, height)
    } else {
        after_group(
            after_groups(groups, (count - 1) as nat, width, height),
            groups[count - 1],
            (count - 1) as nat,
        )
    }
}

/// The pages that a list of groups is composed into.
pub open spec fn composed(groups: Seq<Seq<InstructionView>>, width: int, height: int) -> Seq<
    PageView,
> {
    after_groups(groups, groups.len(), width, height).pages
}

/// The positions, among the first `count` groups of the list, of the groups
/// that hold instructions, in rising order.
pub open spec fn occupied(groups: Seq<Seq<InstructionView>>, count: nat) -> Seq<int>
    decreases count,
{
    if count == 0 {
        Seq::empty()
    } else if groups[count - 1].len() > 0 {
        occupied(groups, (count - 1) as nat).push(count - 1)
    } else {
        occupied(groups, (count - 1) as nat)
    }
}

/// The page that holds the group at position `index` as the `rank`-th group
/// with instructions, counted from 0.
pub open spec fn page_of_group(
    groups: Seq<Seq<InstructionView>>,
    rank: int,
    index: int,
    width: int,
    height: int,
) -> PageView {
    PageView {
        width,
        height,
        number: if rank == 0 {
            FIRST_PAGE_NUMBER as nat
        } else {
            index as nat
        },
        items: laid_out(groups[index]),
    }
}

/// The pages follow the groups that hold instructions, one page each and in
/// the same order.
///
/// After any number of groups: something was written exactly if one of them
/// held instructions. If none did, the document is its one blank first page.
/// Else it has as many pages as groups held instructions; each page holds the
/// text items of its group and nothing else; the first is numbered 1 and each
/// later one by the position of its group. Empty groups leave no trace.
pub proof fn lemma_pages_follow_groups(
    groups: Seq<Seq<InstructionView>>,
    count: nat,
    width: int,
    height: int,
)
    requires
        count <= groups.len(),
    ensures
        ({
            let state = after_groups(groups, count, width, height);
            let filled = occupied(groups, count);
            &&& state.wrote == (filled.len() > 0)
            &&& filled.len() <= count
            &&& filled.len() == 0 ==> state.pages == seq![
                blank_page(width, height, FIRST_PAGE_NUMBER as nat),
            ]
            &&& filled.len() > 0 ==> state.pages.len() == filled.len()
            &&& forall|rank: int|
                0 <= rank < filled.len() ==> {
                    &&& 0 <= #[trigger] filled[rank] < count
                    &&& groups[filled[rank]].len() > 0
                    &&& state.pages[rank] == page_of_group(
                        groups,
                        rank,
                        filled[rank],
                        width,
                        height,
                    )
                }
            &&& forall|low: int, high: int|
                0 <= low < high < filled.len() ==> #[trigger] filled[low] < #[trigger] filled[high]
        }),
    decreases count,
{
    if count > 0 {
        let index = (count - 1) as nat;
        lemma_pages_follow_groups(groups, index, width, height);
        let before = after_groups(groups, index, width, height);
        let state = after_groups(groups, count, width, height);
        let seen = occupied(groups, index);
        let filled = occupied(groups, count);
        let group = groups[index as int];
        if group.len() > 0 {
            let rank = seen.len() as int;
            assert(filled.len() == rank + 1);
            assert(filled[rank] == index);
            if rank == 0 {
                assert(Seq::<PositionedTextItemView>::empty() + laid_out(group) =~= laid_out(
                    group,
                ));
                assert(state.pages[0] == page_of_group(groups, 0, index as int, width, height));
            } else {
                assert(index != 0);
                assert(before.pages[rank - 1] == page_of_group(
                    groups,
                    rank - 1,
                    seen[rank - 1],
                    width,
                    height,
                ));
                assert(Seq::<PositionedTextItemView>::empty() + laid_out(group) =~= laid_out(
                    group,
                ));
                assert(state.pages[rank] == page_of_group(
                    groups,
                    rank,
                    index as int,
                    width,
                    height,
                ));
            }
            assert forall|r: int| 0 <= r < filled.len() implies {
                &&& 0 <= #[trigger] filled[r] < count
                &&& groups[filled[r]].len() > 0
                &&& state.pages[r] == page_of_group(groups, r, filled[r], width, height)
            } by {
                if r < rank {
                    assert(filled[r] == seen[r]);
                    assert(state.pages[r] == before.pages[r]);
                }
            }
            assert forall|low: int, high: int| 0 <= low < high < filled.len() implies #[trigger] filled[low]
                < #[trigger] filled[high] by {
                assert(filled[low] == seen[low]);
                if high < rank {
                    assert(filled[high] == seen[high]);
                }
            }
        }
    }
}

/// The page-break rule for a whole document: it has one page for every group
/// that holds instructions, in the order of the groups, and one blank page
/// where no group holds any.
pub proof fn lemma_composed_pages(groups: Seq<Seq<InstructionView>>, width: int, height: int)
    ensures
        ({
            let pages = composed(groups, width, height);
            let filled = occupied(groups, groups.len());
            &&& filled.len() == 0 ==> pages == seq![
                blank_page(width, height, FIRST_PAGE_NUMBER as nat),
            ]
            &&& filled.len() > 0 ==> pages.len() == filled.len()
            &&& forall|rank: int|
                0 <= rank < filled.len() ==> {
                    &&& 0 <= #[trigger] filled[rank] < groups.len()
                    &&& groups[filled[rank]].len() > 0
                    &&& pages[rank] == page_of_group(groups, rank, filled[rank], width, height)
                }
        }),
{
    lemma_pages_follow_groups(groups, groups.len(), width, height);
}

/// Composition has no memory: two runs on lists of groups with the same
/// contents and on the same geometry give the same pages, text item for text
/// item, whatever was composed before or between them.
pub proof fn lemma_compose_repeatable(
    first_groups: Vec<Vec<Instruction>>,
    first_pages: Vec<Page>,
    second_groups: Vec<Vec<Instruction>>,
    second_pages: Vec<Page>,
    width: int,
    height: int,
)
    requires
        first_groups.deep_view() == second_groups.deep_view(),
        first_pages.deep_view() == composed(first_groups.deep_view(), width, height),
        second_pages.deep_view() == composed(second_groups.deep_view(), width, height),
    ensures
        first_pages.len() == second_pages.len(),
        forall|p: int|
            0 <= p < first_pages.len() ==> (#[trigger] first_pages[p])@ == second_pages[p]@,
{
    assert(first_pages.deep_view().len() == second_pages.deep_view().len());
    assert forall|p: int| 0 <= p < first_pages.len() implies (#[trigger] first_pages[p])@
        == second_pages[p]@ by {
        assert(first_pages.deep_view()[p] == first_pages[p]@);
        assert(second_pages.deep_view()[p] == second_pages[p]@);
    }
}

impl Page {
    /// Makes a page without text items.
    pub fn new(width: i128, height: i128, number: usize) -> (page: Page)
        ensures
            page@ == blank_page(width as int, height as int, number as nat),
    {
        let page = Page { width, height, number, items: Vec::new() };
        assert(page@.items =~= Seq::empty());
        page
    }

    /// Lays a group out on this page, behind what the page holds.
    pub fn place_group(&mut self, group: &Vec<Instruction>)
        ensures
            final(self)@ == (PageView {
                items: old(self)@.items + laid_out(group.deep_view()),
                ..old(self)@
            }),
    {
        lay_out_onto(&mut self.items, group);
    }
}

impl CompositionState {
    /// Makes the state before any group, with one blank page of the given
    /// geometry.
    pub fn new(page_width: i128, page_height: i128) -> (state: CompositionState)
        ensures
            state@ == initial_state(page_width as int, page_height as int),
    {
        let mut pages: Vec<Page> = Vec::new();
        pages.push(Page::new(page_width, page_height, FIRST_PAGE_NUMBER));
        let state = CompositionState { wrote: false, pages };
        assert(state@.pages =~= initial_state(page_width as int, page_height as int).pages);
        state
    }

    /// Takes the group at position `index` of the list of groups.
    pub fn place_group(&mut self, group: &Vec<Instruction>, index: usize)
        requires
            has_open_page(old(self)@),
        ensures
            final(self)@ == after_group(old(self)@, group.deep_view(), index as nat),
            has_open_page(final(self)@),
    {
        if group.len() == 0 {
            return ;
        }
        let ghost before = self.pages.deep_view();
        if index != 0 && self.wrote {
            let last: usize = self.pages.len() - 1;
            let page = Page::new(self.pages[last].width, self.pages[last].height, index);
            self.pages.push(page);
            assert(self.pages.deep_view() =~= before.push(page@));
        }
        let ghost opened = self.pages.deep_view();
        assert(opened == with_open_page(old(self)@, index as nat));
        let last: usize = self.pages.len() - 1;
        let mut page = self.pages.pop().unwrap();
        let ghost rest = self.pages.deep_view();
        page.place_group(group);
        self.pages.push(page);
        self.wrote = true;
        assert(self.pages.deep_view() =~= opened.update(last as int, page@)) by {
            assert(rest =~= opened.drop_last());
        }
    }

    /// Gives up the state for its pages.
    pub fn into_pages(self) -> (pages: Vec<Page>)
        ensures
            pages.deep_view() == self@.pages,
    {
        self.pages
    }
}

/// Composes the groups, in order, into the pages of one document of the given
/// page geometry.
pub fn compose(groups: &Vec<Vec<Instruction>>, page_width: i128, page_height: i128) -> (pages:
    Vec<Page>)
    ensures
        pages.deep_view() == composed(
            groups.deep_view(),
            page_width as int,
            page_height as int,
        ),
{
    let mut state = CompositionState::new(page_width, page_height);
    let mut index: usize = 0;
    while index < groups.len()
        invariant
            index <= groups.len(),
            has_open_page(state@),
            state@ == after_groups(
                groups.deep_view(),
                index as nat,
                page_width as int,
                page_height as int,
            ),
        decreases groups.len() - index,
    {
        assert(groups.deep_view()[index as int] == groups[index as int].deep_view());
        state.place_group(&groups[index], index);
        index += 1;
    }
    state.into_pages()
}

} // verus!
