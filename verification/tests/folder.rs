use icy_view::folder::{read_folder, sort_folder, text_le, FolderItem};

fn dir(path: &str) -> FolderItem {
    FolderItem { path: path.to_string(), is_dir: true, is_file: false }
}

fn file(path: &str) -> FolderItem {
    FolderItem { path: path.to_string(), is_dir: false, is_file: true }
}

fn paths(items: &[FolderItem]) -> Vec<&str> {
    items.iter().map(|i| i.path.as_str()).collect()
}

fn chars(s: &str) -> Vec<char> {
    s.chars().collect()
}

#[test]
fn texts_compare_like_a_dictionary() {
    assert!(text_le(&chars(""), &chars("")));
    assert!(text_le(&chars(""), &chars("a")));
    assert!(!text_le(&chars("a"), &chars("")));
    assert!(text_le(&chars("a"), &chars("a")));
    assert!(text_le(&chars("a"), &chars("ab")));
    assert!(!text_le(&chars("ab"), &chars("a")));
    assert!(text_le(&chars("ab"), &chars("b")));
    assert!(text_le(&chars("B"), &chars("a")));
    assert!(!text_le(&chars("b"), &chars("a")));
    for (a, b) in [("x", "y"), ("abc", "abd"), ("Zebra", "apple"), ("é", "z"), ("a.b", "a b")] {
        assert_eq!(text_le(&chars(a), &chars(b)), a <= b, "{} {}", a, b);
        assert_eq!(text_le(&chars(b), &chars(a)), b <= a, "{} {}", b, a);
    }
}

#[test]
fn folders_come_first_then_names_in_order() {
    let items = vec![
        file("/s/b.ans"),
        dir("/s/zeta"),
        file("/s/A.ANS"),
        dir("/s/alpha"),
        file("/s/a.ans"),
    ];
    let sorted = sort_folder(&items, false);
    assert_eq!(paths(&sorted), vec!["/s/alpha", "/s/zeta", "/s/A.ANS", "/s/a.ans", "/s/b.ans"]);
}

#[test]
fn hidden_files_are_left_out_on_request() {
    let items = vec![file("/s/.hidden"), file("/s/shown"), dir("/s/.git"), dir("/s/src")];
    assert_eq!(paths(&sort_folder(&items, true)), vec!["/s/src", "/s/shown"]);
    assert_eq!(
        paths(&sort_folder(&items, false)),
        vec!["/s/.git", "/s/src", "/s/.hidden", "/s/shown"]
    );
}

#[test]
fn entries_that_are_neither_file_nor_folder_are_left_out() {
    let items = vec![
        FolderItem { path: "/dev/socket".to_string(), is_dir: false, is_file: false },
        file("/dev/file"),
    ];
    assert_eq!(paths(&sort_folder(&items, false)), vec!["/dev/file"]);
}

#[test]
fn drives_come_before_the_folder_in_their_own_order() {
    let drives = vec![dir("C:\\"), dir("A:\\")];
    let items = vec![file("x"), dir("d")];
    let listing = read_folder(&drives, &items, false);
    assert_eq!(paths(&listing), vec!["C:\\", "A:\\", "d", "x"]);
}

#[test]
fn empty_folder_lists_nothing() {
    assert!(read_folder(&Vec::new(), &Vec::new(), true).is_empty());
}

#[test]
fn sorting_keeps_every_shown_entry() {
    let mut items = Vec::new();
    for i in 0..50 {
        let name = format!("/d/{:02}", (i * 37) % 50);
        items.push(if i % 3 == 0 { dir(&name) } else { file(&name) });
    }
    let sorted = sort_folder(&items, false);
    assert_eq!(sorted.len(), 50);
    let mut expected: Vec<&FolderItem> = items.iter().collect();
    expected.sort_by(|a, b| b.is_dir.cmp(&a.is_dir).then(a.path.cmp(&b.path)));
    let expected: Vec<&str> = expected.iter().map(|i| i.path.as_str()).collect();
    assert_eq!(paths(&sorted), expected);
}

#[test]
fn entries_that_compare_alike_keep_their_order() {
    let items = vec![file("/b/same"), file("/a/same"), dir("/z/same"), file("/c/same"), dir("/y/same")];
    let sorted = sort_folder(&items, false);
    assert_eq!(paths(&sorted), vec!["/z/same", "/y/same", "/b/same", "/a/same", "/c/same"]);
}
