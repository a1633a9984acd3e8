//! A menu as a whole: the response of a server, read line by line.

use crate::models::{parse_line, GopherItem, MenuItem, MenuItemView};
use crate::navigation::item_views;
use crate::text::{chars_of, lines, split_lines, views};
use vstd::prelude::*;

verus! {

/// A menu, ready to be shown and selected from.
#[derive(Debug, PartialEq, Eq)]
pub struct Menu {
    /// The items that can be selected, each at its index.
    pub items: Vec<MenuItem>,
    /// What to show: one line for each item of the response, `Info` lines
    /// among them, in the order of the response.
    pub lines: Vec<String>,
}

pub ghost struct MenuView {
    pub items: Seq<MenuItemView>,
    pub lines: Seq<Seq<char>>,
}

impl View for Menu {
    type V = MenuView;

    open spec fn view(&self) -> MenuView {
        MenuView {
            items: item_views(self.items@),
            lines: self.lines@.map_values(|line: String| line@),
        }
    }
}

impl MenuView {
    /// The menu with one more line of the response taken in. A line that is no
    /// item is dropped. An `Info` line is shown and cannot be selected; any
    /// other item is shown with the index at which it can be selected.
    pub open spec fn with_line(self, line: Seq<char>) -> MenuView {
        match parse_line(line) {
            Err(_) => self,
            Ok(item) => if item.item_type == GopherItem::Info {
                MenuView { items: self.items, lines: self.lines.push(item.display(None)) }
            } else {
                MenuView {
                    items: self.items.push(item),
                    lines: self.lines.push(item.display(Some(self.items.len() as usize))),
                }
            },
        }
    }

    /// The menu that `lines` make, taken in from first to last.
    pub open spec fn of_lines(lines: Seq<Seq<char>>) -> MenuView
        decreases lines.len(),
    {
        if lines.len() == 0 {
            MenuView { items: Seq::empty(), lines: Seq::empty() }
        } else {
            MenuView::of_lines(lines.drop_last()).with_line(lines.last())
        }
    }
}

/// The menu that the text of a response holds.
pub open spec fn read_menu(response: Seq<char>) -> MenuView {
    MenuView::of_lines(lines(response))
}

/// Reads the response to a request for a menu. Lines that are no items,
/// blank lines among them, are passed over.
pub fn parse_menu(response: &str) -> (menu: Menu)
    ensures
        menu@ == read_menu(response@),
{
    let chars = chars_of(response);
    let found = split_lines(chars.as_slice());
    let mut menu = Menu { items: Vec::new(), lines: Vec::new() };
    let mut i: usize = 0;
    assert(views(found@).take(0) == Seq::<Seq<char>>::empty());
    assert(menu@.items == Seq::<MenuItemView>::empty());
    assert(menu@.lines == Seq::<Seq<char>>::empty());
    while i < found.len()
        invariant
            i <= found.len(),
            menu@ == MenuView::of_lines(views(found@).take(i as int)),
        decreases found.len() - i,
    {
        let ghost before = menu@;
        assert(views(found@).take(i + 1).drop_last() == views(found@).take(i as int));
        assert(views(found@).take(i + 1).last() == found[i as int]@);
        match MenuItem::parse_chars(found[i]) {
            Err(_) => {},
            Ok(item) => {
                let line = if item.item_type.is_selectable() {
                    item.display(Some(menu.items.len()))
                } else {
                    item.display(None)
                };
                let ghost shown = line@;
                let ghost taken = item@;
                menu.lines.push(line);
                assert(menu@.lines == before.lines.push(shown));
                if item.item_type.is_selectable() {
                    menu.items.push(item);
                    assert(menu@.items == before.items.push(taken));
                } else {
                    assert(menu@.items == before.items);
                }
            },
        }
        i += 1;
    }
    assert(views(found@).take(i as int) == views(found@));
    menu
}

/// No `Info` line is among the items of a menu, and each item has its line.
pub proof fn lemma_menu_items_are_selectable(lines: Seq<Seq<char>>)
    ensures
        forall|i: int|
            0 <= i < MenuView::of_lines(lines).items.len() ==> (
            #[trigger] MenuView::of_lines(lines).items[i]).item_type.selectable(),
        MenuView::of_lines(lines).items.len() <= MenuView::of_lines(lines).lines.len()
            <= lines.len(),
    decreases lines.len(),
{
    if lines.len() > 0 {
        lemma_menu_items_are_selectable(lines.drop_last());
    }
}

} // verus!
