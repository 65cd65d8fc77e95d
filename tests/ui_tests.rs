use ruidmap::keys::{closes_help, command_for_key, confirm_answer, Command, Key};
use ruidmap::ui::{
    create_ascii_celebration, create_folder_tree_view, create_loading_animation, get_app_title,
    get_compact_help_text, get_compact_title, get_help_text, get_minimal_title, get_responsive_title,
    list_row, next_index, point_in, previous_index, push_message, ViewMode,
};

#[test]
fn titles() {
    assert_eq!(get_minimal_title(), "🚀 RUIDMAP 🚀");
    assert!(get_compact_title().contains("🚀 RUIDMAP - Interactive Roadmap Manager 🚀"));
    assert!(get_app_title().contains("🚀 Interactive Roadmap Manager 🚀"));
    assert!(create_ascii_celebration().contains("🏆 MILESTONE COMPLETED! 🏆"));
}

#[test]
fn help_texts() {
    let h = get_help_text();
    assert_eq!(h[0], "🎯 RUIDMAP - Interactive Roadmap Manager");
    assert_eq!(h.len(), 34);
    let c = get_compact_help_text();
    assert_eq!(c.len(), 8);
    assert_eq!(c[6], "View: h=help, r=refresh, q=quit");
}

#[test]
fn spinner_frames() {
    assert_eq!(create_loading_animation(0), "⠋ Loading...");
    assert_eq!(create_loading_animation(13), "⠸ Loading...");
    assert_eq!(create_loading_animation(255), "⠴ Loading...");
}

#[test]
fn folder_tree() {
    let folders = vec![
        ("Work".to_string(), vec!["a".to_string(), "b".to_string()]),
        ("Home".to_string(), vec!["c".to_string()]),
        ("Misc".to_string(), vec![]),
    ];
    let tree = create_folder_tree_view(&folders, &[true, false]);
    let expected = "📁 Folder Structure:\n├─────────────────────\n│ 📂 Work\n│   ├─ 📄 a\n│   └─ 📄 b\n│ 📁 Home\n│ 📁 Misc\n";
    assert_eq!(tree, expected);
    assert_eq!(create_folder_tree_view(&[], &[]), "📁 Folder Structure:\n├─────────────────────\n");
}

#[test]
fn selection_wraps_round() {
    assert_eq!(previous_index(Some(0), 3), 2);
    assert_eq!(previous_index(Some(2), 3), 1);
    assert_eq!(previous_index(None, 3), 0);
    assert_eq!(next_index(Some(2), 3), 0);
    assert_eq!(next_index(Some(0), 3), 1);
    assert_eq!(next_index(None, 3), 0);
    assert_eq!(ViewMode::Kanban.next(), ViewMode::List);
    assert_eq!(ViewMode::List.next().next(), ViewMode::Kanban);
}

#[test]
fn title_fits_the_screen() {
    assert_eq!(get_responsive_title(90, 15), get_app_title());
    assert_eq!(get_responsive_title(89, 40), get_compact_title());
    assert_eq!(get_responsive_title(200, 7), get_minimal_title());
}

#[test]
fn key_table() {
    assert_eq!(command_for_key(Key::Char('q'), false), Command::Quit);
    assert_eq!(command_for_key(Key::Esc, false), Command::Quit);
    assert_eq!(command_for_key(Key::Char('s'), true), Command::Save);
    assert_eq!(command_for_key(Key::Char('s'), false), Command::Nothing);
    assert_eq!(command_for_key(Key::Char('b'), true), Command::Backup);
    assert_eq!(command_for_key(Key::Char('t'), false), Command::CycleStatus);
    assert_eq!(command_for_key(Key::Up, false), Command::SelectionUp);
    assert_eq!(command_for_key(Key::Enter, false), Command::Nothing);
    assert!(closes_help(Key::Char('h')));
    assert!(!closes_help(Key::Char('x')));
    assert_eq!(confirm_answer(Key::Char('Y')), Some(true));
    assert_eq!(confirm_answer(Key::Esc), Some(false));
    assert_eq!(confirm_answer(Key::Enter), None);
}

#[test]
fn pointer_rows_and_message_log() {
    assert!(point_in(10, 5, 20, 4, 10, 5));
    assert!(!point_in(10, 5, 20, 4, 30, 5));
    assert!(!point_in(65530, 0, 10, 1, 65535, 1));
    assert!(point_in(65530, 0, 10, 1, 65535, 0));
    assert_eq!(list_row(5, 5, 3), Some(0));
    assert_eq!(list_row(5, 6, 3), Some(0));
    assert_eq!(list_row(5, 8, 3), Some(2));
    assert_eq!(list_row(5, 9, 3), None);
    let mut log: Vec<String> = Vec::new();
    for i in 0..7 {
        push_message(&mut log, format!("m{}", i));
    }
    assert_eq!(log, vec!["m2", "m3", "m4", "m5", "m6"]);
}
