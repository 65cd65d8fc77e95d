//! The fixed texts of the terminal interface, and the text views built from
//! roadmap data.
use vstd::prelude::*;

verus! {

pub open spec fn app_title() -> Seq<char> {
    r#"
╔══════════════════════════════════════════════════════════════════════════════════════╗
║                                                                                      ║
║    ██████╗ ██╗   ██╗██╗██████╗ ███╗   ███╗ █████╗ ██████╗                          ║
║    ██╔══██╗██║   ██║██║██╔══██╗████╗ ████║██╔══██╗██╔══██╗                         ║
║    ██████╔╝██║   ██║██║██║  ██║██╔████╔██║███████║██████╔╝                         ║
║    ██╔══██╗██║   ██║██║██║  ██║██║╚██╔╝██║██╔══██║██╔═══╝                          ║
║    ██║  ██║╚██████╔╝██║██████╔╝██║ ╚═╝ ██║██║  ██║██║                              ║
║    ╚═╝  ╚═╝ ╚═════╝ ╚═╝╚═════╝ ╚═╝     ╚═╝╚═╝  ╚═╝╚═╝                              ║
║                                                                                      ║
║                    🚀 Interactive Roadmap Manager 🚀                               ║
║                                                                                      ║
╚══════════════════════════════════════════════════════════════════════════════════════╝
"#@
}

pub open spec fn compact_title() -> Seq<char> {
    r#"
┌─────────────────────────────────────────────────────────────┐
│ 🚀 RUIDMAP - Interactive Roadmap Manager 🚀               │
└─────────────────────────────────────────────────────────────┘
"#@
}

pub open spec fn minimal_title() -> Seq<char> {
    "\u{1f680} RUIDMAP \u{1f680}"@
}

pub open spec fn celebration() -> Seq<char> {
    r#"
        🎉🎉🎉 CONGRATULATIONS! 🎉🎉🎉
        
                   ⭐ ⭐ ⭐ ⭐ ⭐
                 🏆 MILESTONE COMPLETED! 🏆
                   ⭐ ⭐ ⭐ ⭐ ⭐
                   
              ╔═══════════════════════╗
              ║    KEEP UP THE       ║
              ║    GREAT WORK!       ║
              ╚═══════════════════════╝
                   
                    🚀 → 🌟 → 🏁
"#@
}

pub open spec fn help_lines() -> Seq<Seq<char>> {
    seq![
        "🎯 RUIDMAP - Interactive Roadmap Manager"@,
        ""@,
        "📋 Navigation:"@,
        "  ↑/↓     - Navigate milestones"@,
        "  Enter   - View/Edit milestone details"@,
        "  Tab     - Switch between panels"@,
        ""@,
        "⚡ Actions:"@,
        "  'a'     - Add new milestone"@,
        "  'e'     - Edit selected milestone"@,
        "  'd'     - Delete selected milestone"@,
        "  'c'     - Mark as completed"@,
        "  't'     - Change status (toggle)"@,
        "  'p'     - Change priority"@,
        "  'f'     - Create new folder"@,
        "  'o'     - Open/close folder"@,
        ""@,
        "💾 File Operations:"@,
        "  Ctrl+S  - Save roadmap"@,
        "  Ctrl+O  - Open roadmap"@,
        "  Ctrl+B  - Backup roadmap"@,
        ""@,
        "🎨 View:"@,
        "  'h'     - Toggle help"@,
        "  'r'     - Refresh view"@,
        "  'q'/'ESC' - Quit application"@,
        ""@,
        "🌟 Features:"@,
        "  • Real-time progress tracking"@,
        "  • Priority-based color coding"@,
        "  • Auto-save functionality"@,
        "  • ASCII art visualization"@,
        "  • Folder organization"@,
        ""@,
    ]
}

pub open spec fn compact_help_lines() -> Seq<Seq<char>> {
    seq![
        "🎯 RUIDMAP Help"@,
        ""@,
        "Navigation: ↑/↓ move, Enter select"@,
        "Actions: a=add, e=edit, d=delete, c=complete"@,
        "Status: t=toggle, p=priority, f=folder"@,
        "File: Ctrl+S save, Ctrl+B backup"@,
        "View: h=help, r=refresh, q=quit"@,
        ""@,
    ]
}

/// The large banner, for wide screens.
pub fn get_app_title() -> (r: String)
    ensures
        r@ == app_title(),
{
    r#"
╔══════════════════════════════════════════════════════════════════════════════════════╗
║                                                                                      ║
║    ██████╗ ██╗   ██╗██╗██████╗ ███╗   ███╗ █████╗ ██████╗                          ║
║    ██╔══██╗██║   ██║██║██╔══██╗████╗ ████║██╔══██╗██╔══██╗                         ║
║    ██████╔╝██║   ██║██║██║  ██║██╔████╔██║███████║██████╔╝                         ║
║    ██╔══██╗██║   ██║██║██║  ██║██║╚██╔╝██║██╔══██║██╔═══╝                          ║
║    ██║  ██║╚██████╔╝██║██████╔╝██║ ╚═╝ ██║██║  ██║██║                              ║
║    ╚═╝  ╚═╝ ╚═════╝ ╚═╝╚═════╝ ╚═╝     ╚═╝╚═╝  ╚═╝╚═╝                              ║
║                                                                                      ║
║                    🚀 Interactive Roadmap Manager 🚀                               ║
║                                                                                      ║
╚══════════════════════════════════════════════════════════════════════════════════════╝
"#.to_owned()
}

/// The boxed one-line banner, for medium screens.
pub fn get_compact_title() -> (r: String)
    ensures
        r@ == compact_title(),
{
    r#"
┌─────────────────────────────────────────────────────────────┐
│ 🚀 RUIDMAP - Interactive Roadmap Manager 🚀               │
└─────────────────────────────────────────────────────────────┘
"#.to_owned()
}

pub fn get_minimal_title() -> (r: String)
    ensures
        r@ == minimal_title(),
{
    "\u{1f680} RUIDMAP \u{1f680}".to_owned()
}

pub fn get_help_text() -> (r: Vec<&'static str>)
    ensures
        r@.map_values(|s: &str| s@) == help_lines(),
{
    let r = vec![
        "🎯 RUIDMAP - Interactive Roadmap Manager",
        "",
        "📋 Navigation:",
        "  ↑/↓     - Navigate milestones",
        "  Enter   - View/Edit milestone details",
        "  Tab     - Switch between panels",
        "",
        "⚡ Actions:",
        "  'a'     - Add new milestone",
        "  'e'     - Edit selected milestone",
        "  'd'     - Delete selected milestone",
        "  'c'     - Mark as completed",
        "  't'     - Change status (toggle)",
        "  'p'     - Change priority",
        "  'f'     - Create new folder",
        "  'o'     - Open/close folder",
        "",
        "💾 File Operations:",
        "  Ctrl+S  - Save roadmap",
        "  Ctrl+O  - Open roadmap",
        "  Ctrl+B  - Backup roadmap",
        "",
        "🎨 View:",
        "  'h'     - Toggle help",
        "  'r'     - Refresh view",
        "  'q'/'ESC' - Quit application",
        "",
        "🌟 Features:",
        "  • Real-time progress tracking",
        "  • Priority-based color coding",
        "  • Auto-save functionality",
        "  • ASCII art visualization",
        "  • Folder organization",
        "",
    ];
    assert(r@.map_values(|s: &str| s@) =~= help_lines());
    r
}

pub fn get_compact_help_text() -> (r: Vec<&'static str>)
    ensures
        r@.map_values(|s: &str| s@) == compact_help_lines(),
{
    let r = vec![
        "🎯 RUIDMAP Help",
        "",
        "Navigation: ↑/↓ move, Enter select",
        "Actions: a=add, e=edit, d=delete, c=complete",
        "Status: t=toggle, p=priority, f=folder",
        "File: Ctrl+S save, Ctrl+B backup",
        "View: h=help, r=refresh, q=quit",
        "",
    ];
    assert(r@.map_values(|s: &str| s@) =~= compact_help_lines());
    r
}

/// The banner that fits a screen of this size: the large one from 90
/// columns and 15 rows, the boxed one from 65 columns and 8 rows, else the
/// one-line one.
pub fn get_responsive_title(width: u16, height: u16) -> (r: String)
    ensures
        width >= 90 && height >= 15 ==> r@ == app_title(),
        !(width >= 90 && height >= 15) && width >= 65 && height >= 8 ==> r@ == compact_title(),
        !(width >= 90 && height >= 15) && !(width >= 65 && height >= 8) ==> r@ == minimal_title(),
{
    if width >= 90 && height >= 15 {
        get_app_title()
    } else if width >= 65 && height >= 8 {
        get_compact_title()
    } else {
        get_minimal_title()
    }
}

pub fn create_ascii_celebration() -> (r: String)
    ensures
        r@ == celebration(),
{
    r#"
        🎉🎉🎉 CONGRATULATIONS! 🎉🎉🎉
        
                   ⭐ ⭐ ⭐ ⭐ ⭐
                 🏆 MILESTONE COMPLETED! 🏆
                   ⭐ ⭐ ⭐ ⭐ ⭐
                   
              ╔═══════════════════════╗
              ║    KEEP UP THE       ║
              ║    GREAT WORK!       ║
              ╚═══════════════════════╝
                   
                    🚀 → 🌟 → 🏁
"#.to_owned()
}


/// The spinner glyph shown at animation step `frame`.
pub open spec fn spinner(frame: u8) -> Seq<char> {
    let k = frame % 10;
    if k == 0 { "\u{280b}"@ } else if k == 1 { "\u{2819}"@ } else if k == 2 { "\u{2839}"@ }
    else if k == 3 { "\u{2838}"@ } else if k == 4 { "\u{283c}"@ } else if k == 5 { "\u{2834}"@ }
    else if k == 6 { "\u{2826}"@ } else if k == 7 { "\u{2827}"@ } else if k == 8 { "\u{2807}"@ }
    else { "\u{280f}"@ }
}

pub fn create_loading_animation(frame: u8) -> (r: String)
    ensures
        r@ == spinner(frame) + " Loading..."@,
{
    let k = frame % 10;
    let glyph = if k == 0 { "\u{280b}" } else if k == 1 { "\u{2819}" } else if k == 2 { "\u{2839}" }
    else if k == 3 { "\u{2838}" } else if k == 4 { "\u{283c}" } else if k == 5 { "\u{2834}" }
    else if k == 6 { "\u{2826}" } else if k == 7 { "\u{2827}" } else if k == 8 { "\u{2807}" }
    else { "\u{280f}" };
    let mut r = glyph.to_owned();
    r.append(" Loading...");
    r
}

/// The line for item `j` of a folder with `n` items.
pub open spec fn tree_item_line(item: Seq<char>, j: int, n: int) -> Seq<char> {
    "\u{2502}   "@ + (if j == n - 1 { "\u{2514}\u{2500}"@ } else { "\u{251c}\u{2500}"@ }) + " \u{1f4c4} "@ + item
        + "\n"@
}

/// The lines for the first `j` of `items`.
pub open spec fn tree_items(items: Seq<String>, j: int) -> Seq<char>
    decreases j,
{
    if j <= 0 {
        Seq::empty()
    } else {
        tree_items(items, j - 1) + tree_item_line(items[j - 1]@, j - 1, items.len() as int)
    }
}

/// Whether folder `i` is shown open; folders without a flag are shown closed.
pub open spec fn shown_open(expanded: Seq<bool>, i: int) -> bool {
    0 <= i < expanded.len() && expanded[i]
}

/// The lines for folder `i`: its name, then its items when it is open.
pub open spec fn tree_folder(name: Seq<char>, items: Seq<String>, open: bool) -> Seq<char> {
    "\u{2502} "@ + (if open { "\u{1f4c2}"@ } else { "\u{1f4c1}"@ }) + " "@ + name + "\n"@ + if open {
        tree_items(items, items.len() as int)
    } else {
        Seq::empty()
    }
}

/// The lines for the first `i` folders.
pub open spec fn tree_folders(folders: Seq<(String, Vec<String>)>, expanded: Seq<bool>, i: int) -> Seq<char>
    decreases i,
{
    if i <= 0 {
        Seq::empty()
    } else {
        tree_folders(folders, expanded, i - 1) + tree_folder(
            folders[i - 1].0@,
            folders[i - 1].1@,
            shown_open(expanded, i - 1),
        )
    }
}

pub open spec fn tree_view(folders: Seq<(String, Vec<String>)>, expanded: Seq<bool>) -> Seq<char> {
    "\u{1f4c1} Folder Structure:\n"@ + "\u{251c}\u{2500}\u{2500}\u{2500}\u{2500}\u{2500}\u{2500}\u{2500}\u{2500}\u{2500}\u{2500}\u{2500}\u{2500}\u{2500}\u{2500}\u{2500}\u{2500}\u{2500}\u{2500}\u{2500}\u{2500}\u{2500}\n"@
        + tree_folders(folders, expanded, folders.len() as int)
}

/// A text tree of folders and their items; `expanded[i]` says whether
/// folder `i` shows its items.
pub fn create_folder_tree_view(folders: &[(String, Vec<String>)], expanded: &[bool]) -> (r: String)
    ensures
        r@ == tree_view(folders@, expanded@),
{
    let mut tree = "\u{1f4c1} Folder Structure:\n".to_owned();
    tree.append("\u{251c}\u{2500}\u{2500}\u{2500}\u{2500}\u{2500}\u{2500}\u{2500}\u{2500}\u{2500}\u{2500}\u{2500}\u{2500}\u{2500}\u{2500}\u{2500}\u{2500}\u{2500}\u{2500}\u{2500}\u{2500}\u{2500}\n");
    let ghost head = tree@;
    let mut i: usize = 0;
    while i < folders.len()
        invariant
            0 <= i <= folders.len(),
            tree@ == head + tree_folders(folders@, expanded@, i as int),
        decreases folders.len() - i,
    {
        let name = &folders[i].0;
        let items = &folders[i].1;
        let open = i < expanded.len() && expanded[i];
        let ghost before = tree@;
        tree.append("\u{2502} ");
        tree.append(if open { "\u{1f4c2}" } else { "\u{1f4c1}" });
        tree.append(" ");
        tree.append(name.as_str());
        tree.append("\n");
        let ghost mid = tree@;
        if open {
            let mut j: usize = 0;
            while j < items.len()
                invariant
                    0 <= j <= items.len(),
                    tree@ == mid + tree_items(items@, j as int),
                decreases items.len() - j,
            {
                tree.append("\u{2502}   ");
                tree.append(if j == items.len() - 1 { "\u{2514}\u{2500}" } else { "\u{251c}\u{2500}" });
                tree.append(" \u{1f4c4} ");
                tree.append(items[j].as_str());
                tree.append("\n");
                assert(tree@ =~= mid + tree_items(items@, j as int + 1));
                j += 1;
            }
        }
        assert(tree@ =~= before + tree_folder(name@, items@, open));
        assert(tree@ =~= head + tree_folders(folders@, expanded@, i as int + 1));
        i += 1;
    }
    tree
}


/// What the terminal interface is doing: browsing, or collecting input for
/// one of its actions (the ids name the milestone or folder acted on).
#[derive(Debug, Clone, Copy, PartialEq, Eq, Structural)]
pub enum AppMode {
    Normal,
    Help,
    AddMilestone,
    EditMilestone(u128),
    ConfirmDelete(u128),
    AddFolder,
    EditFolder(u128),
    SelectFolder(u128),
}

/// How the milestones are laid out on screen.
#[derive(Debug, Clone, Copy, PartialEq, Eq, Structural)]
pub enum ViewMode {
    List,
    Tree,
    Kanban,
}

pub open spec fn next_view(v: ViewMode) -> ViewMode {
    match v {
        ViewMode::List => ViewMode::Tree,
        ViewMode::Tree => ViewMode::Kanban,
        ViewMode::Kanban => ViewMode::List,
    }
}

impl ViewMode {
    /// The layout that follows this one: list, tree, kanban, and round again.
    pub fn next(&self) -> (r: ViewMode)
        ensures
            r == next_view(*self),
    {
        match self {
            ViewMode::List => ViewMode::Tree,
            ViewMode::Tree => ViewMode::Kanban,
            ViewMode::Kanban => ViewMode::List,
        }
    }
}

/// The entry above the selection in a list of `len` entries, wrapping from
/// the first to the last; the first when nothing is selected.
pub fn previous_index(selected: Option<usize>, len: usize) -> (r: usize)
    requires
        len > 0,
    ensures
        r < len,
        selected is None ==> r == 0,
        selected == Some(0usize) ==> r == len - 1,
        forall|i: usize| selected == Some(i) && 0 < i <= len ==> r == i - 1,
        forall|i: usize| selected == Some(i) && i > len ==> r == len - 1,
{
    match selected {
        None => 0,
        Some(i) => if i == 0 || i > len { len - 1 } else { i - 1 },
    }
}

/// The entry below the selection in a list of `len` entries, wrapping from
/// the last to the first; the first when nothing is selected.
pub fn next_index(selected: Option<usize>, len: usize) -> (r: usize)
    requires
        len > 0,
    ensures
        r < len,
        selected is None ==> r == 0,
        forall|i: usize| selected == Some(i) && i >= len - 1 ==> r == 0,
        forall|i: usize| selected == Some(i) && i < len - 1 ==> r == i + 1,
{
    match selected {
        None => 0,
        Some(i) => if i >= len - 1 { 0 } else { i + 1 },
    }
}


/// Point (`x`, `y`) lies in the rectangle at (`ax`, `ay`) of width `w` and
/// height `h`.
pub open spec fn inside(ax: u16, ay: u16, w: u16, h: u16, x: u16, y: u16) -> bool {
    ax <= x < ax + w && ay <= y < ay + h
}

pub fn point_in(ax: u16, ay: u16, w: u16, h: u16, x: u16, y: u16) -> (r: bool)
    ensures
        r == inside(ax, ay, w, h, x, y),
{
    let (ax, ay, w, h, x, y) = (ax as u32, ay as u32, w as u32, h as u32, x as u32, y as u32);
    ax <= x && x < ax + w && ay <= y && y < ay + h
}

/// The entry of a bordered list of `len` entries, drawn from row `top`, that
/// row `y` shows: the first entry sits one row below the border, and the
/// border row itself counts as the first entry. None below the last entry.
pub fn list_row(top: u16, y: u16, len: usize) -> (r: Option<usize>)
    requires
        top <= y,
    ensures
        (if y - top >= 1 { y - top - 1 } else { 0 }) < len ==> r == Some(
            (if y - top >= 1 { y - top - 1 } else { 0 }) as usize,
        ),
        (if y - top >= 1 { y - top - 1 } else { 0 }) >= len ==> r is None,
{
    let offset = y - top;
    let index = if offset >= 1 { (offset - 1) as usize } else { 0 };
    if index < len {
        Some(index)
    } else {
        None
    }
}

/// The most messages the status log keeps.
pub const MESSAGE_LIMIT: usize = 5;

/// Appends a message to the status log, dropping the oldest one when the
/// log would hold more than `MESSAGE_LIMIT`.
pub fn push_message(messages: &mut Vec<String>, message: String)
    ensures
        old(messages)@.len() < MESSAGE_LIMIT ==> final(messages)@ == old(messages)@.push(message),
        old(messages)@.len() >= MESSAGE_LIMIT ==> final(messages)@ == old(messages)@.push(message).drop_first(),
{
    messages.push(message);
    if messages.len() > MESSAGE_LIMIT {
        let ghost before = messages@;
        messages.remove(0);
        assert(messages@ =~= before.drop_first());
    }
}

} // verus!
