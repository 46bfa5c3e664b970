//! The menu-bar (tray) menu: which entries it shows for the saved
//! bookmarks, what a click on an entry asks for, and the small decisions
//! around it (the Dock mode, the reachability probe).
use vstd::prelude::*;
use crate::bookmark::Bookmark;
use crate::decimal::{i64_text, i64_to_string, parse_i64, parse_i64_text, push_decimal, decimal};
use crate::text::{chars_eq, chars_of, chars_starts_with, push_char, starts_with, sub_chars};

verus! {

/// One entry of the tray menu.
#[derive(Debug, Clone)]
pub enum TrayEntry {
    /// A clickable (or greyed-out) item with its id and label.
    Item { id: String, label: String, enabled: bool },
    /// A separator line.
    Separator,
}

/// The text of a tray menu entry.
pub enum TrayEntryView {
    Item(Seq<char>, Seq<char>, bool),
    Separator,
}

/// What a click on a tray menu entry asks for.
#[derive(Debug, Clone, Copy, PartialEq, Eq, Structural)]
pub enum TrayAction {
    /// Bring the main window to the front.
    Show,
    /// Quit the application.
    Quit,
    /// Launch the bookmark with this id.
    Launch(i64),
    /// Nothing.
    Ignore,
}

/// The Dock behaviour of the application.
#[derive(Debug, Clone, Copy, PartialEq, Eq, Structural)]
pub enum ActivationPolicy {
    /// A regular application with a Dock icon.
    Regular,
    /// A menu-bar utility without a Dock icon.
    Accessory,
}

/// The text of an entry.
pub open spec fn entry_view(e: TrayEntry) -> TrayEntryView {
    match e {
        TrayEntry::Item { id, label, enabled } => TrayEntryView::Item(id@, label@, enabled),
        TrayEntry::Separator => TrayEntryView::Separator,
    }
}

/// The texts of entries.
pub open spec fn entry_views(v: Seq<TrayEntry>) -> Seq<TrayEntryView> {
    v.map_values(|e: TrayEntry| entry_view(e))
}

/// The id of the menu item of the bookmark with id `id`.
pub open spec fn bookmark_item_id(id: i64) -> Seq<char> {
    "bm:"@ + i64_text(id)
}

/// The label of the menu item of `b`: `NAME  \u{2014}  USER@HOST`.
pub open spec fn bookmark_item_label(b: Bookmark) -> Seq<char> {
    b.name@ + "  \u{2014}  "@ + b.user@ + seq!['@'] + b.host@
}

/// The items of the saved bookmarks `items` that have an id, in order.
pub open spec fn bookmark_items(items: Seq<Bookmark>) -> Seq<TrayEntryView>
    decreases items.len(),
{
    if items.len() == 0 {
        Seq::<TrayEntryView>::empty()
    } else {
        let rest = bookmark_items(items.drop_last());
        let b = items.last();
        match b.id {
            Some(id) => rest.push(
                TrayEntryView::Item(bookmark_item_id(id), bookmark_item_label(b), true),
            ),
            None => rest,
        }
    }
}

/// The entries that end every tray menu: a separator, `Show SSH
/// Bookmarker` and `Quit`.
pub open spec fn fixed_entries() -> Seq<TrayEntryView> {
    seq![
        TrayEntryView::Separator,
        TrayEntryView::Item("show"@, "Show SSH Bookmarker"@, true),
        TrayEntryView::Item("quit"@, "Quit"@, true),
    ]
}

/// The tray menu for the saved bookmarks `items`: a greyed-out `No bookmarks
/// yet` when there are none, else an item for each bookmark with an id; then
/// the fixed entries.
pub open spec fn tray_menu(items: Seq<Bookmark>) -> Seq<TrayEntryView> {
    (if items.len() == 0 {
        seq![TrayEntryView::Item("noop"@, "No bookmarks yet"@, false)]
    } else {
        bookmark_items(items)
    }) + fixed_entries()
}

/// What a click on the menu item with id `id` asks for: `show` shows the
/// window, `quit` quits, `bm:` followed by an integer launches the bookmark
/// with that id, anything else does nothing.
pub open spec fn tray_action_for(id: Seq<char>) -> TrayAction {
    if id == "show"@ {
        TrayAction::Show
    } else if id == "quit"@ {
        TrayAction::Quit
    } else if starts_with(id, "bm:"@) && parse_i64_text(id.skip(3)) is Some {
        TrayAction::Launch(parse_i64_text(id.skip(3))->0)
    } else {
        TrayAction::Ignore
    }
}

/// The tray menu of the saved bookmarks.
pub fn tray_menu_entries(items: &Vec<Bookmark>) -> (r: Vec<TrayEntry>)
    ensures
        entry_views(r@) == tray_menu(items@),
{
    let mut r: Vec<TrayEntry> = Vec::new();
    if items.len() == 0 {
        r.push(
            TrayEntry::Item {
                id: String::from_str("noop"),
                label: String::from_str("No bookmarks yet"),
                enabled: false,
            },
        );
    } else {
        let mut i: usize = 0;
        while i < items.len()
            invariant
                i <= items.len(),
                entry_views(r@) == bookmark_items(items@.take(i as int)),
            decreases items.len() - i,
        {
            let b = &items[i];
            let ghost before = r@;
            assert(items@.take(i + 1).drop_last() == items@.take(i as int));
            assert(items@.take(i + 1).last() == *b);
            match b.id {
                Some(id) => {
                    let mut item_id = String::from_str("bm:");
                    let text = i64_to_string(id);
                    item_id.append(text.as_str());
                    let mut label = b.name.clone();
                    label.append("  \u{2014}  ");
                    label.append(b.user.as_str());
                    push_char(&mut label, '@');
                    label.append(b.host.as_str());
                    assert(label@ =~= bookmark_item_label(*b));
                    r.push(TrayEntry::Item { id: item_id, label, enabled: true });
                    assert(entry_views(r@) == entry_views(before).push(
                        TrayEntryView::Item(bookmark_item_id(id), bookmark_item_label(*b), true),
                    ));
                },
                None => {},
            }
            i = i + 1;
        }
        assert(items@.take(items.len() as int) == items@);
    }
    let ghost head = entry_views(r@);
    r.push(TrayEntry::Separator);
    r.push(
        TrayEntry::Item {
            id: String::from_str("show"),
            label: String::from_str("Show SSH Bookmarker"),
            enabled: true,
        },
    );
    r.push(TrayEntry::Item { id: String::from_str("quit"), label: String::from_str("Quit"), enabled: true });
    assert(entry_views(r@) =~= head + fixed_entries());
    r
}

/// What a click on the tray menu item with id `id` asks for.
pub fn tray_action(id: &str) -> (r: TrayAction)
    ensures
        r == tray_action_for(id@),
{
    let v = chars_of(id);
    if chars_eq(&v, &chars_of("show")) {
        return TrayAction::Show;
    }
    if chars_eq(&v, &chars_of("quit")) {
        return TrayAction::Quit;
    }
    let prefix = chars_of("bm:");
    proof {
        reveal_strlit("bm:");
    }
    if chars_starts_with(&v, &prefix) {
        let rest = sub_chars(&v, 3, v.len());
        assert(rest@ == id@.skip(3));
        match parse_i64(&rest) {
            Some(n) => TrayAction::Launch(n),
            None => TrayAction::Ignore,
        }
    } else {
        TrayAction::Ignore
    }
}

/// A click on the item of the bookmark with id `n` launches that bookmark.
pub proof fn lemma_bookmark_item_launches(n: i64)
    ensures
        tray_action_for(bookmark_item_id(n)) == TrayAction::Launch(n),
{
    reveal_strlit("bm:");
    reveal_strlit("show");
    reveal_strlit("quit");
    let id = bookmark_item_id(n);
    assert(id[0] == 'b');
    assert(id != "show"@);
    assert(id != "quit"@);
    assert(id.take(3) =~= "bm:"@);
    assert(id.skip(3) =~= i64_text(n));
    crate::decimal::lemma_i64_text_round_trip(n);
}

/// Every bookmark with an id has its item among the bookmark items.
proof fn lemma_bookmark_items_contain(items: Seq<Bookmark>, i: int)
    requires
        0 <= i < items.len(),
        items[i].id is Some,
    ensures
        exists|j: int|
            0 <= j < bookmark_items(items).len() && #[trigger] bookmark_items(items)[j]
                == TrayEntryView::Item(
                bookmark_item_id(items[i].id->0),
                bookmark_item_label(items[i]),
                true,
            ),
    decreases items.len(),
{
    let rest = bookmark_items(items.drop_last());
    if i == items.len() - 1 {
        assert(bookmark_items(items) == rest.push(
            TrayEntryView::Item(bookmark_item_id(items[i].id->0), bookmark_item_label(items[i]), true),
        ));
        assert(bookmark_items(items)[rest.len() as int] == TrayEntryView::Item(
            bookmark_item_id(items[i].id->0),
            bookmark_item_label(items[i]),
            true,
        ));
    } else {
        assert(items.drop_last()[i] == items[i]);
        lemma_bookmark_items_contain(items.drop_last(), i);
        let j = choose|j: int|
            0 <= j < rest.len() && #[trigger] rest[j] == TrayEntryView::Item(
                bookmark_item_id(items[i].id->0),
                bookmark_item_label(items[i]),
                true,
            );
        assert(bookmark_items(items)[j] == rest[j]);
    }
}

/// Every saved bookmark with an id shows in the tray menu under its label,
/// and clicking its item launches that bookmark; the fixed items show the
/// window and quit.
pub proof fn lemma_tray_menu_launches_bookmarks(items: Seq<Bookmark>)
    ensures
        forall|i: int|
            0 <= i < items.len() && (#[trigger] items[i]).id is Some ==> exists|j: int|
                0 <= j < tray_menu(items).len() && #[trigger] tray_menu(items)[j]
                    == TrayEntryView::Item(
                    bookmark_item_id(items[i].id->0),
                    bookmark_item_label(items[i]),
                    true,
                ) && tray_action_for(bookmark_item_id(items[i].id->0)) == TrayAction::Launch(
                    items[i].id->0,
                ),
        tray_action_for("show"@) == TrayAction::Show,
        tray_action_for("quit"@) == TrayAction::Quit,
        tray_action_for("noop"@) == TrayAction::Ignore,
{
    assert forall|i: int| 0 <= i < items.len() && (#[trigger] items[i]).id is Some implies exists|
        j: int,
    |
        0 <= j < tray_menu(items).len() && #[trigger] tray_menu(items)[j] == TrayEntryView::Item(
            bookmark_item_id(items[i].id->0),
            bookmark_item_label(items[i]),
            true,
        ) && tray_action_for(bookmark_item_id(items[i].id->0)) == TrayAction::Launch(
            items[i].id->0,
        ) by {
        lemma_bookmark_items_contain(items, i);
        lemma_bookmark_item_launches(items[i].id->0);
        let j = choose|j: int|
            0 <= j < bookmark_items(items).len() && #[trigger] bookmark_items(items)[j]
                == TrayEntryView::Item(
                bookmark_item_id(items[i].id->0),
                bookmark_item_label(items[i]),
                true,
            );
        assert(tray_menu(items)[j] == bookmark_items(items)[j]);
    }
    reveal_strlit("noop");
    reveal_strlit("bm:");
    reveal_strlit("show");
    reveal_strlit("quit");
    assert("noop"@ != "show"@);
    assert("noop"@ != "quit"@);
    assert(!starts_with("noop"@, "bm:"@)) by {
        assert("noop"@.take(3)[0] != "bm:"@[0]);
    }
}

/// The activation policy for the Dock icon setting: a menu-bar utility
/// without a Dock icon when it is hidden, a regular application otherwise.
pub fn activation_policy(hide_dock_icon: bool) -> (r: ActivationPolicy)
    ensures
        r == (if hide_dock_icon {
            ActivationPolicy::Accessory
        } else {
            ActivationPolicy::Regular
        }),
{
    if hide_dock_icon {
        ActivationPolicy::Accessory
    } else {
        ActivationPolicy::Regular
    }
}

/// The address that the reachability probe connects to: `HOST:PORT`.
pub fn probe_address(host: &str, port: u16) -> (r: String)
    ensures
        r@ == host@ + seq![':'] + decimal(port as nat),
{
    let mut r = String::from_str(host);
    push_char(&mut r, ':');
    push_decimal(&mut r, port as u128);
    r
}

/// Whether the first four bytes a host sent are the SSH banner `SSH-`.
pub fn is_ssh_banner(first: &[u8; 4]) -> (r: bool)
    ensures
        r == (first@ == seq![83u8, 83u8, 72u8, 45u8]),
{
    let r = first[0] == 83 && first[1] == 83 && first[2] == 72 && first[3] == 45;
    proof {
        if r {
            assert(first@ =~= seq![83u8, 83u8, 72u8, 45u8]);
        }
    }
    r
}

} // verus!
