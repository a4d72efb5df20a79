//! The menu rows derived from the registry and the current selection.
//!
//! [`render_menu`] turns every registry entry into one row: the entry's
//! route segment (the link target), its display label, and an active flag
//! that is set exactly when the segment equals the current selection.
//! With the registry invariant, at most one row is active, and exactly
//! one when the selection is a registered segment.

use vstd::prelude::*;

use crate::registry::DemoEntryModel;
use crate::registry::DemoRegistry;
use crate::registry::distinct_segments;
use crate::registry::has_segment;
use crate::selection::NavigationSelection;

verus! {

/// One menu row: where its link navigates, what it shows, and whether it
/// is the active entry.
pub struct MenuEntry {
    pub path_segment: String,
    pub display_label: String,
    pub active: bool,
}

/// The mathematical value of a [`MenuEntry`].
pub struct MenuEntryModel {
    pub path_segment: Seq<char>,
    pub display_label: Seq<char>,
    pub active: bool,
}

impl View for MenuEntry {
    type V = MenuEntryModel;

    open spec fn view(&self) -> MenuEntryModel {
        MenuEntryModel {
            path_segment: self.path_segment@,
            display_label: self.display_label@,
            active: self.active,
        }
    }
}

/// The row derived from one registry entry under the selection `sel`.
pub open spec fn row_for(entry: DemoEntryModel, sel: Seq<char>) -> MenuEntryModel {
    MenuEntryModel {
        path_segment: entry.path_segment,
        display_label: entry.display_label,
        active: entry.path_segment == sel,
    }
}

/// The whole menu derived from a registry under the selection `sel`: one
/// row per entry, in registration order.
pub open spec fn menu_model(entries: Seq<DemoEntryModel>, sel: Seq<char>) -> Seq<MenuEntryModel> {
    entries.map_values(|entry: DemoEntryModel| row_for(entry, sel))
}

/// How many rows of a menu are marked active.
pub open spec fn active_count(menu: Seq<MenuEntryModel>) -> nat
    decreases menu.len(),
{
    if menu.len() == 0 {
        0
    } else {
        active_count(menu.drop_last()) + if menu.last().active {
            1nat
        } else {
            0nat
        }
    }
}

/// Renders the menu: one row per registry entry, in registration order,
/// each row carrying the entry's segment and label, and active exactly
/// when the segment equals the current selection.
pub fn render_menu(registry: &DemoRegistry, selection: &NavigationSelection) -> (menu: Vec<
    MenuEntry,
>)
    ensures
        menu@.map_values(|m: MenuEntry| m@) == menu_model(registry@, selection@),
        menu@.len() == registry@.len(),
        forall|i: int| 0 <= i < menu@.len() ==> menu@[i]@ == row_for(registry@[i], selection@),
        registry.wf() ==> active_count(menu@.map_values(|m: MenuEntry| m@)) == (if has_segment(
            registry@,
            selection@,
        ) {
            1nat
        } else {
            0nat
        }),
{
    let mut menu: Vec<MenuEntry> = Vec::new();
    let n = registry.len();
    let mut i: usize = 0;
    while i < n
        invariant
            i <= n,
            n == registry@.len(),
            menu@.len() == i,
            forall|j: int| 0 <= j < i ==> menu@[j]@ == row_for(registry@[j], selection@),
        decreases n - i,
    {
        let entry = registry.entry(i);
        let active = entry.path_segment == selection.demo_name;
        menu.push(
            MenuEntry {
                path_segment: entry.path_segment.clone(),
                display_label: entry.display_label.clone(),
                active,
            },
        );
        i = i + 1;
    }
    proof {
        assert(menu@.map_values(|m: MenuEntry| m@) =~= menu_model(registry@, selection@));
        if registry.wf() {
            lemma_active_count(registry@, selection@);
        }
    }
    menu
}

/// A menu derived from a registry with distinct segments marks exactly
/// one row active when the selection is a registered segment, and no row
/// active otherwise.
pub proof fn lemma_active_count(entries: Seq<DemoEntryModel>, sel: Seq<char>)
    requires
        distinct_segments(entries),
    ensures
        active_count(menu_model(entries, sel)) == if has_segment(entries, sel) {
            1nat
        } else {
            0nat
        },
    decreases entries.len(),
{
    let menu = menu_model(entries, sel);
    if entries.len() == 0 {
        assert(!has_segment(entries, sel));
    } else {
        let front = entries.drop_last();
        assert(menu.drop_last() =~= menu_model(front, sel));
        assert(distinct_segments(front));
        lemma_active_count(front, sel);
        if entries.last().path_segment == sel {
            assert(menu.last().active);
            assert forall|i: int| 0 <= i < front.len() implies front[i].path_segment != sel by {
                assert(entries[i].path_segment != entries[entries.len() - 1].path_segment);
            }
            assert(!has_segment(front, sel));
            assert(has_segment(entries, sel)) by {
                assert(entries[entries.len() - 1].path_segment == sel);
            }
        } else {
            assert(!menu.last().active);
            if has_segment(entries, sel) {
                let i = choose|i: int|
                    0 <= i < entries.len() && entries[i].path_segment == sel;
                assert(i < front.len() && front[i].path_segment == sel);
                assert(has_segment(front, sel));
            } else {
                assert(!has_segment(front, sel)) by {
                    if has_segment(front, sel) {
                        let i = choose|i: int|
                            0 <= i < front.len() && front[i].path_segment == sel;
                        assert(entries[i].path_segment == sel);
                    }
                }
            }
        }
    }
}

} // verus!
