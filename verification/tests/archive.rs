use std::io::{Cursor, Read, Write};

use icy_view::file_view::{FileEntry, FileView, Message, PathKind};
use icy_view::main_window::{Action, FollowUp, MainArea, MainWindow, ViewKind};
use zip::write::SimpleFileOptions;

/// An archive with the given members, in memory.
fn archive(members: &[(&str, &[u8])]) -> Vec<u8> {
    let mut writer = zip::ZipWriter::new(Cursor::new(Vec::new()));
    for (name, data) in members {
        writer.start_file(*name, SimpleFileOptions::default()).unwrap();
        writer.write_all(data).unwrap();
    }
    writer.finish().unwrap().into_inner()
}

/// The entries of an archive, each with its bytes.
fn members(bytes: Vec<u8>) -> Vec<FileEntry> {
    let mut files = Vec::new();
    let mut archive = zip::ZipArchive::new(Cursor::new(bytes)).unwrap();
    for i in 0..archive.len() {
        let mut member = archive.by_index(i).unwrap();
        let mut data = Vec::new();
        member.read_to_end(&mut data).unwrap();
        let name = member.enclosed_name().map(|name| name.to_string_lossy().into_owned());
        files.push(FileEntry::embedded(name, data, member.is_dir()));
    }
    files
}

#[test]
fn archive_lists_its_members_and_shows_them_without_the_disk() {
    let bytes = archive(&[("a.ans", b"first art"), ("b.ans", b"second art")]);
    let mut view = FileView::new("/samples".to_string(), PathKind::Directory, PathKind::Directory);
    let _ = view.refresh(vec![FileEntry::on_disk("/samples/arc.zip".to_string())]);
    let mut window = MainWindow::new(view);

    let action = window.handle_command(Some(Message::Open(0)), PathKind::File);
    let path = match action {
        Action::List(path, follow_up) => {
            assert_eq!(follow_up, FollowUp::OpenFirst(0));
            path
        }
        _ => panic!("the archive is not listed"),
    };
    assert_eq!(path, "/samples/arc.zip");
    let next = window.listed(path, members(bytes), FollowUp::OpenFirst(0));
    assert!(matches!(next, Action::View(0, false)));

    let names: Vec<&str> = window.file_view.files.iter().map(|f| f.path.as_str()).collect();
    assert_eq!(names, vec!["a.ans", "b.ans"]);
    assert_eq!(window.file_view.selected_file, Some(0));

    // The member is a file although nothing of that name is on disk, and
    // its bytes are at hand.
    let entry = &window.file_view.files[0];
    assert!(entry.is_file(PathKind::Missing));
    assert!(!entry.is_dir_or_archive(PathKind::Missing));
    let data = entry.get_data().unwrap().clone();
    assert_eq!(data, b"first art");
    assert_eq!(window.view_selected(0, false, PathKind::Missing, &data), Some(ViewKind::Text));
    window.buffer_loaded();
    assert_eq!(window.main_area(PathKind::Missing), MainArea::Buffer);
}

#[test]
fn folders_of_an_archive_are_listed_as_folders() {
    let mut writer = zip::ZipWriter::new(Cursor::new(Vec::new()));
    writer.add_directory("pack/", SimpleFileOptions::default()).unwrap();
    writer.start_file("pack/a.ans", SimpleFileOptions::default()).unwrap();
    writer.write_all(b"art").unwrap();
    let bytes = writer.finish().unwrap().into_inner();
    let files = members(bytes);
    assert_eq!(files.len(), 2);
    assert!(files[0].is_dir(PathKind::Missing));
    assert!(files[0].is_dir_or_archive(PathKind::Missing));
    assert!(!files[1].is_dir(PathKind::Missing));
    assert_eq!(icy_view::path::get_file_name(&files[1].path, false), "a.ans");
}
