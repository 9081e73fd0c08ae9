use icy_view::file_view::{FileEntry, FileView, Keys, Message, PathKind, SauceData, UiInput};
use icy_view::geometry::Size;
use icy_view::main_window::{
    is_binary, view_kind, Action, Cli, Drag, FollowUp, MainArea, MainWindow, Notice, ScrollInput,
    ViewKind,
};

fn chars(s: &str) -> Vec<char> {
    s.chars().collect()
}

fn window(names: &[&str]) -> MainWindow {
    let mut view = FileView::new("/samples".to_string(), PathKind::Directory, PathKind::Directory);
    let files = names.iter().map(|n| FileEntry::on_disk(format!("/samples/{}", n))).collect();
    let _ = view.refresh(files);
    MainWindow::new(view)
}

fn sauce(title: &str) -> SauceData {
    SauceData {
        title: title.to_string(),
        author: String::new(),
        group: String::new(),
        buffer_size: Size { width: 80, height: 25 },
        use_ice: false,
        use_letter_spacing: false,
        use_aspect_ratio: false,
    }
}

fn no_scroll_input() -> ScrollInput {
    ScrollInput {
        top: false,
        bottom: false,
        line_up: false,
        line_down: false,
        page_up: false,
        page_down: false,
        drag_began: None,
        drag_released: false,
        dragged: None,
        wheel: 0,
        set_by_user: false,
    }
}

fn no_keys() -> Keys {
    Keys {
        arrow_up: false,
        arrow_down: false,
        page_up: false,
        page_down: false,
        home: false,
        end: false,
        enter: false,
        f1: false,
        f2: false,
        f3: false,
        f4: false,
    }
}

fn keys(set: fn(&mut Keys)) -> UiInput {
    let mut k = no_keys();
    set(&mut k);
    UiInput {
        enabled: true,
        file_chooser: false,
        parent_clicked: false,
        refresh_clicked: false,
        auto_scroll_clicked: false,
        scroll_speed_clicked: false,
        clicked: None,
        double_clicked: None,
        open_clicked: false,
        cancel_clicked: false,
        keys: k,
        alt: false,
        no_modifiers: true,
        page_size: 10,
    }
}

fn is_view(action: &Action, file: usize, force: bool) -> bool {
    matches!(action, Action::View(f, g) if *f == file && *g == force)
}

fn is_list(action: &Action, path: &str, follow_up: FollowUp) -> bool {
    matches!(action, Action::List(p, f) if p == path && *f == follow_up)
}

fn is_notice(action: &Action, notice: Notice) -> bool {
    matches!(action, Action::Notify(n) if *n == notice)
}

#[test]
fn start_path_prefers_the_argument_then_home_then_working_folder() {
    let home = || Some("/home/me".to_string());
    let cwd = || Some("/tmp".to_string());
    assert_eq!(Cli { path: Some("/art".to_string()) }.start_path(home(), cwd()), "/art");
    assert_eq!(Cli { path: None }.start_path(home(), cwd()), "/home/me");
    assert_eq!(Cli { path: None }.start_path(None, cwd()), "/tmp");
    assert_eq!(Cli { path: None }.start_path(None, None), "");
}

#[test]
fn binary_sniff_looks_at_the_first_500_bytes() {
    assert!(!is_binary(b"plain text"));
    assert!(!is_binary(b""));
    assert!(is_binary(&[b'a', 0, b'b']));
    assert!(is_binary(&[b'a', 255]));
    let mut data = vec![b'x'; 600];
    data[500] = 0;
    assert!(!is_binary(&data));
    data[499] = 0xFF;
    assert!(is_binary(&data));
}

#[test]
fn images_and_scripts_go_by_their_extension() {
    for ext in ["png", "jpg", "jpeg", "gif", "bmp"] {
        assert_eq!(view_kind(&chars(ext), false, &[0]), ViewKind::Image);
        assert_eq!(view_kind(&chars(ext), true, b"text"), ViewKind::Image);
    }
    assert_eq!(view_kind(&chars("svg"), false, b""), ViewKind::Svg);
    assert_eq!(view_kind(&chars("icyanim"), false, b""), ViewKind::Animation);
    assert_eq!(view_kind(&chars("icyanim"), true, b""), ViewKind::Animation);
}

#[test]
fn text_formats_are_shown_whatever_they_hold() {
    for ext in [
        "bin", "xb", "adf", "idf", "tnd", "ans", "ice", "avt", "pcb", "seq", "asc", "diz", "nfo",
        "bbs",
    ] {
        assert_eq!(view_kind(&chars(ext), false, &[0, 255]), ViewKind::Text, "{}", ext);
    }
}

#[test]
fn excluded_formats_are_shown_only_when_forced() {
    for ext in ["zip", "rar", "gz", "tar", "7z", "pdf", "exe", "com"] {
        assert_eq!(view_kind(&chars(ext), false, b"text"), ViewKind::Unsupported, "{}", ext);
        assert_eq!(view_kind(&chars(ext), true, &[0]), ViewKind::Text, "{}", ext);
    }
}

#[test]
fn other_files_are_sniffed() {
    assert_eq!(view_kind(&chars("txt"), false, b"hello"), ViewKind::Text);
    assert_eq!(view_kind(&chars("txt"), false, &[1, 0]), ViewKind::Unsupported);
    assert_eq!(view_kind(&chars("txt"), true, &[1, 0]), ViewKind::Text);
    assert_eq!(view_kind(&chars(""), false, b"hello"), ViewKind::Text);
    assert_eq!(view_kind(&chars(""), false, &[255]), ViewKind::Unsupported);
    // Extensions are expected in lower case.
    assert_eq!(view_kind(&chars("PNG"), false, b"x"), ViewKind::Text);
}

#[test]
fn select_resets_the_view_and_asks_to_show_the_entry() {
    let mut w = window(&["a.ans", "b.ans"]);
    w.load_failed("old error".to_string());
    w.cur_scroll_pos = 500;
    let action = w.handle_command(Some(Message::Select(1, false)), PathKind::File);
    assert!(is_view(&action, 1, false));
    assert_eq!(w.file_view.selected_file, Some(1));
    assert_eq!(w.file_view.scroll_pos, Some(1));
    assert_eq!(w.error_text, None);
    assert_eq!(w.cur_scroll_pos, 0);
    // Selecting the selected entry again does nothing, unless forced.
    w.buffer_loaded();
    let action = w.handle_command(Some(Message::Select(1, false)), PathKind::File);
    assert!(matches!(action, Action::Nothing));
    assert!(w.loaded_buffer);
    let action = w.handle_command(Some(Message::Select(1, true)), PathKind::File);
    assert!(is_view(&action, 1, true));
    assert!(!w.loaded_buffer);
}

#[test]
fn select_beyond_the_entries_clears_the_selection() {
    let mut w = window(&["a.ans"]);
    w.file_view.selected_file = Some(0);
    let action = w.handle_command(Some(Message::Select(5, false)), PathKind::Missing);
    assert!(matches!(action, Action::Nothing));
    assert_eq!(w.file_view.selected_file, None);
}

#[test]
fn no_message_changes_nothing() {
    let mut w = window(&["a.ans"]);
    w.file_view.selected_file = Some(0);
    assert!(matches!(w.handle_command(None, PathKind::File), Action::Nothing));
    assert_eq!(w.file_view.selected_file, Some(0));
}

#[test]
fn refresh_lists_the_folder_again() {
    let mut w = window(&["a.ans"]);
    w.file_view.selected_file = Some(0);
    let action = w.handle_command(Some(Message::Refresh), PathKind::Missing);
    assert!(is_list(&action, "/samples", FollowUp::Nothing));
    assert_eq!(w.file_view.selected_file, None);
    let next = w.listed("/samples".to_string(), vec![FileEntry::on_disk("/samples/z".to_string())], FollowUp::Nothing);
    assert!(matches!(next, Action::Nothing));
    assert_eq!(w.file_view.files.len(), 1);
    assert_eq!(w.file_view.selected_file, None);
}

#[test]
fn open_lists_a_folder_and_selects_its_first_entry() {
    let mut w = window(&["dir", "a.ans"]);
    let action = w.handle_command(Some(Message::Open(0)), PathKind::Directory);
    assert!(is_list(&action, "/samples/dir", FollowUp::OpenFirst(0)));
    let files = vec![FileEntry::on_disk("/samples/dir/x.ans".to_string())];
    let next = w.listed("/samples/dir".to_string(), files, FollowUp::OpenFirst(0));
    assert!(is_view(&next, 0, false));
    assert_eq!(w.file_view.get_path(), "/samples/dir");
    assert_eq!(w.file_view.selected_file, Some(0));
    assert_eq!(w.file_view.scroll_pos, Some(0));
    assert!(!w.is_closed);
}

#[test]
fn open_of_an_empty_folder_closes_the_chooser() {
    let mut w = window(&["dir"]);
    let _ = w.handle_command(Some(Message::Open(0)), PathKind::Directory);
    let next = w.listed("/samples/dir".to_string(), Vec::new(), FollowUp::OpenFirst(0));
    assert!(matches!(next, Action::Nothing));
    assert!(w.is_closed);
    assert_eq!(w.file_view.selected_file, None);
}

#[test]
fn open_lists_an_archive() {
    let mut w = window(&["arc.zip", "ARC.ZIP"]);
    assert!(w.open_selected(0, PathKind::File));
    assert!(!w.open_selected(1, PathKind::File));
    assert!(!w.open_selected(9, PathKind::File));
    let action = w.handle_command(Some(Message::Open(0)), PathKind::File);
    assert!(is_list(&action, "/samples/arc.zip", FollowUp::OpenFirst(0)));
}

#[test]
fn open_of_a_file_closes_the_chooser_with_it() {
    let mut w = window(&["a.ans", "b.ans"]);
    let action = w.handle_command(Some(Message::Open(1)), PathKind::File);
    assert!(matches!(action, Action::Nothing));
    assert!(w.is_closed);
    assert_eq!(w.opened_file, Some(1));
    let mut w = window(&["a.ans"]);
    let _ = w.handle_command(Some(Message::Open(4)), PathKind::Missing);
    assert!(w.is_closed);
    assert_eq!(w.opened_file, None);
}

#[test]
fn cancel_closes_the_chooser() {
    let mut w = window(&["a.ans"]);
    let _ = w.handle_command(Some(Message::Cancel), PathKind::Missing);
    assert!(w.is_closed);
    assert_eq!(w.opened_file, None);
}

#[test]
fn parent_folder_lists_the_parent_and_selects_its_first_entry() {
    let mut w = window(&["a.ans"]);
    let action = w.handle_command(Some(Message::ParentFolder), PathKind::Missing);
    assert!(is_list(&action, "/", FollowUp::SelectFirst));
    let files = vec![FileEntry::on_disk("/samples".to_string()), FileEntry::on_disk("/tmp".to_string())];
    let next = w.listed("/".to_string(), files, FollowUp::SelectFirst);
    assert!(is_view(&next, 0, false));
    assert_eq!(w.file_view.selected_file, Some(0));
    // The root has no parent.
    let action = w.handle_command(Some(Message::ParentFolder), PathKind::Missing);
    assert!(matches!(action, Action::Nothing));
    assert_eq!(w.file_view.get_path(), "/");
    assert_eq!(w.file_view.selected_file, Some(0));
}

#[test]
fn toggle_autoscroll_follows_the_running_state() {
    let mut w = window(&["a.ans"]);
    assert!(!w.in_scroll);
    let action = w.handle_command(Some(Message::ToggleAutoScroll), PathKind::Missing);
    assert!(is_notice(&action, Notice::AutoScrollOn));
    assert!(w.in_scroll);
    assert!(w.file_view.auto_scroll_enabled);
    let action = w.handle_command(Some(Message::ToggleAutoScroll), PathKind::Missing);
    assert!(is_notice(&action, Notice::AutoScrollOff));
    assert!(!w.in_scroll);
    assert!(!w.file_view.auto_scroll_enabled);
}

#[test]
fn scroll_speed_cycles_with_a_notice() {
    let mut w = window(&[]);
    assert_eq!(w.file_view.scroll_speed, 1);
    let action = w.handle_command(Some(Message::ChangeScrollSpeed), PathKind::Missing);
    assert!(is_notice(&action, Notice::ScrollFast));
    assert_eq!(w.file_view.scroll_speed, 2);
    let action = w.handle_command(Some(Message::ChangeScrollSpeed), PathKind::Missing);
    assert!(is_notice(&action, Notice::ScrollSlow));
    assert_eq!(w.file_view.scroll_speed, 0);
    let action = w.handle_command(Some(Message::ChangeScrollSpeed), PathKind::Missing);
    assert!(is_notice(&action, Notice::ScrollMedium));
    assert_eq!(w.file_view.scroll_speed, 1);
}

#[test]
fn arrow_down_then_f4_shows_the_sauce_of_the_file() {
    let mut w = window(&["BAR.ANS", "FOO.ANS"]);
    let _ = w.handle_command(Some(Message::Select(0, false)), PathKind::File);
    let message = w.file_view.show_ui(&keys(|k| k.arrow_down = true));
    assert_eq!(message, Some(Message::Select(1, false)));
    let action = w.handle_command(message, PathKind::File);
    assert!(is_view(&action, 1, false));
    // The row is painted: its metadata is read.
    w.file_view.files[1].load_sauce(Some(sauce("Foo")));
    let message = w.file_view.show_ui(&keys(|k| k.f4 = true));
    assert_eq!(message, Some(Message::ShowSauce(1)));
    let _ = w.handle_command(message, PathKind::File);
    assert_eq!(w.sauce_dialog.as_ref().unwrap().title, "Foo");
    assert!(!w.input_enabled());
}

#[test]
fn sauce_dialog_needs_metadata() {
    let mut w = window(&["a.ans"]);
    let _ = w.handle_command(Some(Message::ShowSauce(0)), PathKind::File);
    assert!(w.sauce_dialog.is_none());
    w.file_view.files[0].load_sauce(None);
    let _ = w.handle_command(Some(Message::ShowSauce(0)), PathKind::File);
    assert!(w.sauce_dialog.is_none());
    let _ = w.handle_command(Some(Message::ShowSauce(3)), PathKind::File);
    assert!(w.sauce_dialog.is_none());
}

#[test]
fn help_dialog_opens_and_escape_closes_dialogs_first() {
    let mut w = window(&["a.ans"]);
    w.file_view.files[0].load_sauce(Some(sauce("T")));
    let _ = w.handle_command(Some(Message::ShowHelpDialog), PathKind::Missing);
    let _ = w.handle_command(Some(Message::ShowSauce(0)), PathKind::Missing);
    assert!(w.help_dialog);
    assert!(w.sauce_dialog.is_some());
    let request = w.window_keys(false, false, true);
    assert!(!request.close);
    assert!(w.sauce_dialog.is_none());
    assert!(w.help_dialog);
    let request = w.window_keys(false, false, true);
    assert!(!request.close);
    assert!(!w.help_dialog);
    assert!(w.input_enabled());
    let request = w.window_keys(false, false, true);
    assert!(request.close);
}

#[test]
fn window_keys_toggle_full_screen_and_quit() {
    let mut w = window(&[]);
    let request = w.window_keys(true, false, false);
    assert_eq!(request.fullscreen, Some(true));
    assert!(!request.close);
    assert!(w.full_screen_mode);
    let request = w.window_keys(true, true, false);
    assert_eq!(request.fullscreen, Some(false));
    assert!(request.close);
    let request = w.window_keys(false, false, false);
    assert_eq!(request.fullscreen, None);
    assert!(!request.close);
}

#[test]
fn dialogs_close_on_request() {
    let mut w = window(&["a.ans"]);
    w.file_view.files[0].load_sauce(Some(sauce("T")));
    let _ = w.handle_command(Some(Message::ShowHelpDialog), PathKind::Missing);
    let _ = w.handle_command(Some(Message::ShowSauce(0)), PathKind::Missing);
    w.close_dialogs(true, false);
    assert!(w.sauce_dialog.is_none());
    assert!(w.help_dialog);
    w.close_dialogs(false, true);
    assert!(!w.help_dialog);
}

#[test]
fn archive_member_is_shown_from_its_bytes() {
    let mut w = window(&["arc.zip"]);
    let action = w.handle_command(Some(Message::Open(0)), PathKind::File);
    assert!(is_list(&action, "/samples/arc.zip", FollowUp::OpenFirst(0)));
    let members = vec![
        FileEntry::embedded(Some("a.ans".to_string()), b"first".to_vec(), false),
        FileEntry::embedded(Some("b.ans".to_string()), b"second".to_vec(), false),
    ];
    let next = w.listed("/samples/arc.zip".to_string(), members, FollowUp::OpenFirst(0));
    assert!(is_view(&next, 0, false));
    let names: Vec<&str> = w.file_view.files.iter().map(|f| f.path.as_str()).collect();
    assert_eq!(names, vec!["a.ans", "b.ans"]);
    // Nothing has to be read from disk: the entry carries its bytes.
    let head = w.file_view.files[0].get_data().unwrap().clone();
    assert_eq!(head, b"first");
    let kind = w.view_selected(0, false, PathKind::Missing, &head);
    assert_eq!(kind, Some(ViewKind::Text));
    w.buffer_loaded();
    assert_eq!(w.main_area(PathKind::Missing), MainArea::Buffer);
    // Enter on the member does not list anything.
    w.is_closed = false;
    let action = w.handle_command(Some(Message::Open(0)), PathKind::Missing);
    assert!(matches!(action, Action::Nothing));
}

#[test]
fn view_selected_shows_files_only() {
    let mut w = window(&["dir", "pic.PNG", "a.ans", "blob.dat"]);
    w.animation_started();
    assert_eq!(w.view_selected(0, false, PathKind::Directory, b""), None);
    assert!(!w.animation);
    assert_eq!(w.view_selected(9, false, PathKind::File, b""), None);
    assert_eq!(w.view_selected(1, false, PathKind::File, b""), Some(ViewKind::Image));
    assert!(w.image_loading);
    w.image_finished(None);
    assert!(!w.image_loading);
    assert!(w.has_image);
    assert_eq!(w.view_selected(2, false, PathKind::File, &[0]), Some(ViewKind::Text));
    assert_eq!(w.view_selected(3, false, PathKind::File, &[0]), Some(ViewKind::Unsupported));
    assert_eq!(w.view_selected(3, true, PathKind::File, &[0]), Some(ViewKind::Text));
}

#[test]
fn main_area_shows_what_is_loaded() {
    let mut w = window(&["dir", "a.bin"]);
    assert_eq!(w.main_area(PathKind::Missing), MainArea::Empty);
    w.file_view.selected_file = Some(0);
    assert_eq!(w.main_area(PathKind::Directory), MainArea::Folder);
    w.file_view.selected_file = Some(1);
    assert_eq!(w.main_area(PathKind::File), MainArea::Unsupported(1));
    w.buffer_loaded();
    assert!(w.in_scroll);
    assert_eq!(w.main_area(PathKind::File), MainArea::Buffer);
    w.animation_started();
    assert_eq!(w.main_area(PathKind::File), MainArea::Animation);
    w.image_finished(None);
    assert_eq!(w.main_area(PathKind::File), MainArea::Image);
    w.image_loading = true;
    assert_eq!(w.main_area(PathKind::File), MainArea::LoadingImage);
    w.image_finished(Some("bad image".to_string()));
    assert_eq!(w.error_text, Some("bad image".to_string()));
    assert_eq!(w.main_area(PathKind::File), MainArea::Error);
    // A reset drops views and selection; the animation ends when another
    // entry is shown.
    w.reset_state();
    assert_eq!(w.main_area(PathKind::File), MainArea::Animation);
    assert_eq!(w.view_selected(0, false, PathKind::Directory, b""), None);
    assert_eq!(w.main_area(PathKind::File), MainArea::Empty);
}

#[test]
fn frames_repeat_at_once_while_autoscroll_runs() {
    let mut w = window(&["a.ans"]);
    w.buffer_loaded();
    assert_eq!(w.end_frame(), 0);
    assert!(w.in_scroll);
    w.file_view.auto_scroll_enabled = false;
    assert_eq!(w.end_frame(), 150);
    assert!(!w.in_scroll);
}

#[test]
fn autoscroll_toggled_on_and_off_leaves_160_pixels_after_a_second_at_medium_speed() {
    let mut w = window(&["a.ans"]);
    assert_eq!(w.file_view.scroll_speed, 1);
    let _ = w.handle_command(Some(Message::ToggleAutoScroll), PathKind::Missing);
    assert!(w.in_scroll);
    w.scroll_frame(&no_scroll_input(), 1000, 10_000_000);
    assert_eq!(w.cur_scroll_pos, 160_000);
    let _ = w.handle_command(Some(Message::ToggleAutoScroll), PathKind::Missing);
    assert!(!w.in_scroll);
    w.scroll_frame(&no_scroll_input(), 1000, 10_000_000);
    assert_eq!(w.cur_scroll_pos, 160_000);
}

#[test]
fn autoscroll_stops_at_the_end_of_the_scrollback() {
    let mut w = window(&["a.ans"]);
    w.buffer_loaded();
    w.scroll_frame(&no_scroll_input(), 1000, 100_000);
    assert_eq!(w.cur_scroll_pos, 100_000);
    assert!(!w.in_scroll);
    let mut w = window(&["a.ans"]);
    w.buffer_loaded();
    w.scroll_frame(&no_scroll_input(), 16, 0);
    assert_eq!(w.cur_scroll_pos, 0);
    assert!(!w.in_scroll);
}

#[test]
fn scroll_keys_jump_and_latch_autoscroll_off() {
    let mut w = window(&["a.ans"]);
    w.buffer_loaded();
    w.cur_scroll_pos = 5_000;
    let mut input = no_scroll_input();
    input.top = true;
    w.scroll_frame(&input, 0, 1_000_000);
    assert_eq!(w.cur_scroll_pos, 0);
    assert!(!w.in_scroll);
    let mut input = no_scroll_input();
    input.bottom = true;
    w.scroll_frame(&input, 0, 1_000_000);
    assert_eq!(w.cur_scroll_pos, u64::MAX);
    // The next frame brings the offset back into the range.
    w.scroll_frame(&no_scroll_input(), 0, 1_000_000);
    assert_eq!(w.cur_scroll_pos, 1_000_000);
}

#[test]
fn scroll_keys_set_a_velocity_that_coasts() {
    let mut w = window(&["a.ans"]);
    w.cur_scroll_pos = 100_000;
    let mut input = no_scroll_input();
    input.line_up = true;
    w.scroll_frame(&input, 10, 1_000_000);
    assert_eq!(w.key_vel, 450_000);
    assert_eq!(w.cur_scroll_pos, 100_000 - 4_500);
    let mut input = no_scroll_input();
    input.line_down = true;
    w.key_vel = 0;
    w.scroll_frame(&input, 10, 1_000_000);
    assert_eq!(w.key_vel, -225_000);
    assert_eq!(w.cur_scroll_pos, 95_500 + 2_250);
    let mut input = no_scroll_input();
    input.page_up = true;
    input.page_down = true;
    w.scroll_frame(&input, 0, 1_000_000);
    assert_eq!(w.key_vel, 2_500_000);
}

#[test]
fn drag_moves_the_view_and_leaves_a_velocity() {
    let mut w = window(&["a.ans"]);
    w.buffer_loaded();
    w.cur_scroll_pos = 50_000;
    let mut input = no_scroll_input();
    input.drag_began = Some(false);
    input.dragged = Some(Drag { distance: 3_000, velocity: 200_000 });
    w.scroll_frame(&input, 0, 1_000_000);
    assert!(w.drag_started);
    assert!(!w.in_scroll);
    assert_eq!(w.cur_scroll_pos, 47_000);
    assert_eq!(w.drag_vel, 200_000);
    let mut input = no_scroll_input();
    input.drag_released = true;
    w.scroll_frame(&input, 10, 1_000_000);
    assert!(!w.drag_started);
    assert_eq!(w.drag_vel, 180_000);
    assert_eq!(w.cur_scroll_pos, 47_000 - 1_800);
}

#[test]
fn wheel_moves_the_view_and_latches_autoscroll_off() {
    let mut w = window(&["a.ans"]);
    w.buffer_loaded();
    w.cur_scroll_pos = 50_000;
    let mut input = no_scroll_input();
    input.wheel = 20_000;
    w.scroll_frame(&input, 0, 1_000_000);
    assert_eq!(w.cur_scroll_pos, 30_000);
    assert!(!w.in_scroll);
    input.wheel = -45_000;
    w.scroll_frame(&input, 0, 1_000_000);
    assert_eq!(w.cur_scroll_pos, 75_000);
}

#[test]
fn drag_on_a_scrollbar_does_not_grab_the_view() {
    let mut w = window(&["a.ans"]);
    w.cur_scroll_pos = 50_000;
    let mut input = no_scroll_input();
    input.drag_began = Some(true);
    input.dragged = Some(Drag { distance: 3_000, velocity: 200_000 });
    input.set_by_user = true;
    w.in_scroll = true;
    w.scroll_frame(&input, 0, 1_000_000);
    assert!(!w.drag_started);
    assert_eq!(w.cur_scroll_pos, 50_000);
    assert_eq!(w.drag_vel, 0);
    assert!(!w.in_scroll);
}

#[test]
fn window_lists_folders_without_selecting() {
    let mut w = window(&["a.ans"]);
    w.file_view.selected_file = Some(0);
    w.set_path("/other".to_string(), vec![FileEntry::on_disk("/other/x".to_string())]);
    assert_eq!(w.file_view.get_path(), "/other");
    assert_eq!(w.file_view.files.len(), 1);
    assert_eq!(w.file_view.selected_file, None);
    w.file_view.selected_file = Some(0);
    w.refresh(Vec::new());
    assert_eq!(w.file_view.get_path(), "/other");
    assert!(w.file_view.files.is_empty());
    assert_eq!(w.file_view.selected_file, None);
}

#[test]
fn file_chooser_begins_open_and_without_choice() {
    let mut w = window(&["a.ans"]);
    let _ = w.handle_command(Some(Message::Open(0)), PathKind::File);
    assert!(w.is_closed);
    assert_eq!(w.opened_file, Some(0));
    w.begin_file_chooser();
    assert!(!w.is_closed);
    assert_eq!(w.opened_file, None);
}
