//! The viewer's decisions: what a message of the browser changes, what kind
//! of view a file gets, and what the main area shows.
//!
//! The functions here change the state and name the work that follows:
//! listing a folder, loading a file, showing a notice. The caller does that
//! work and reports its outcome back.

use crate::file_view::{FileView, Message, PathKind, SauceData};
use crate::path::{extension_lowercase, lower_extension, path_parent};
use crate::text::spells;
use vstd::prelude::*;

verus! {

/// Number of leading bytes that are examined to tell text from other data.
pub const SNIFF_LENGTH: usize = 500;

/// The command line: one optional path.
pub struct Cli {
    pub path: Option<String>,
}

impl Cli {
    /// The path to start in: the one given, else the user's home folder,
    /// else the working folder, else the empty path.
    pub fn start_path(self, home: Option<String>, working: Option<String>) -> (path: String)
        ensures
            path@ == (match self.path {
                Some(given) => given@,
                None => match home {
                    Some(home) => home@,
                    None => match working {
                        Some(working) => working@,
                        None => Seq::empty(),
                    },
                },
            }),
    {
        match self.path {
            Some(given) => given,
            None => match home {
                Some(home) => home,
                None => match working {
                    Some(working) => working,
                    None => String::new(),
                },
            },
        }
    }
}

/// How a file is shown.
#[derive(Clone, Copy, Debug, PartialEq, Eq, Structural)]
pub enum ViewKind {
    /// A raster image, decoded in the background.
    Image,
    /// A vector image, decoded in the background.
    Svg,
    /// An animation script.
    Animation,
    /// A text-mode buffer.
    Text,
    /// Nothing is loaded; the user is offered to load the file anyway.
    Unsupported,
}

/// The extension is one of a raster image.
pub open spec fn image_extension(ext: Seq<char>) -> bool {
    ext == "png"@ || ext == "jpg"@ || ext == "jpeg"@ || ext == "gif"@ || ext == "bmp"@
}

/// The extension is one of a text-mode format.
pub open spec fn white_listed(ext: Seq<char>) -> bool {
    ext == "bin"@ || ext == "xb"@ || ext == "adf"@ || ext == "idf"@ || ext == "tnd"@ || ext
        == "ans"@ || ext == "ice"@ || ext == "avt"@ || ext == "pcb"@ || ext == "seq"@ || ext
        == "asc"@ || ext == "diz"@ || ext == "nfo"@ || ext == "bbs"@
}

/// The extension is one of a format that is never shown as text.
pub open spec fn black_listed(ext: Seq<char>) -> bool {
    ext == "zip"@ || ext == "rar"@ || ext == "gz"@ || ext == "tar"@ || ext == "7z"@ || ext
        == "pdf"@ || ext == "exe"@ || ext == "com"@
}

/// One of the first 500 bytes is 0x00 or 0xFF.
pub open spec fn binary_sniffed(head: Seq<u8>) -> bool {
    exists|i: int| 0 <= i < head.len() && i < 500 && (#[trigger] head[i] == 0 || head[i] == 255)
}

/// How a file with the given extension, in lower case, is shown. Images and
/// animation scripts go by their extension. Any other file is shown as text
/// where that is forced, where its extension is one of a text-mode format,
/// or where its extension is not one of the excluded ones and its content
/// does not look binary.
pub open spec fn view_kind_of(ext: Seq<char>, force_load: bool, head: Seq<u8>) -> ViewKind {
    if image_extension(ext) {
        ViewKind::Image
    } else if ext == "svg"@ {
        ViewKind::Svg
    } else if ext == "icyanim"@ {
        ViewKind::Animation
    } else if force_load || white_listed(ext) || (!black_listed(ext) && !binary_sniffed(head)) {
        ViewKind::Text
    } else {
        ViewKind::Unsupported
    }
}

/// Whether the content looks binary: see [`binary_sniffed`].
pub fn is_binary(head: &[u8]) -> (binary: bool)
    ensures
        binary == binary_sniffed(head@),
{
    let mut i: usize = 0;
    while i < head.len() && i < SNIFF_LENGTH
        invariant
            i <= head@.len(),
            i <= 500,
            forall|j: int| 0 <= j < i ==> !(#[trigger] head@[j] == 0 || head@[j] == 255),
        decreases head@.len() - i,
    {
        if head[i] == 0 || head[i] == 255 {
            return true;
        }
        i += 1;
    }
    false
}

fn is_image_extension(ext: &Vec<char>) -> (image: bool)
    ensures
        image == image_extension(ext@),
{
    spells(ext, "png") || spells(ext, "jpg") || spells(ext, "jpeg") || spells(ext, "gif") || spells(
        ext,
        "bmp",
    )
}

fn is_white_listed(ext: &Vec<char>) -> (listed: bool)
    ensures
        listed == white_listed(ext@),
{
    spells(ext, "bin") || spells(ext, "xb") || spells(ext, "adf") || spells(ext, "idf") || spells(
        ext,
        "tnd",
    ) || spells(ext, "ans") || spells(ext, "ice") || spells(ext, "avt") || spells(ext, "pcb")
        || spells(ext, "seq") || spells(ext, "asc") || spells(ext, "diz") || spells(ext, "nfo")
        || spells(ext, "bbs")
}

fn is_black_listed(ext: &Vec<char>) -> (listed: bool)
    ensures
        listed == black_listed(ext@),
{
    spells(ext, "zip") || spells(ext, "rar") || spells(ext, "gz") || spells(ext, "tar") || spells(
        ext,
        "7z",
    ) || spells(ext, "pdf") || spells(ext, "exe") || spells(ext, "com")
}

/// How a file is shown, from its extension in lower case and the first
/// bytes of its content.
pub fn view_kind(ext: &Vec<char>, force_load: bool, head: &[u8]) -> (kind: ViewKind)
    ensures
        kind == view_kind_of(ext@, force_load, head@),
{
    if is_image_extension(ext) {
        ViewKind::Image
    } else if spells(ext, "svg") {
        ViewKind::Svg
    } else if spells(ext, "icyanim") {
        ViewKind::Animation
    } else if force_load || is_white_listed(ext) || (!is_black_listed(ext) && !is_binary(head)) {
        ViewKind::Text
    } else {
        ViewKind::Unsupported
    }
}


/// A notice to show the user for a few seconds.
#[derive(Clone, Copy, Debug, PartialEq, Eq, Structural)]
pub enum Notice {
    AutoScrollOn,
    AutoScrollOff,
    ScrollSlow,
    ScrollMedium,
    ScrollFast,
}

/// What follows once a folder or archive has been listed.
#[derive(Clone, Copy, Debug, PartialEq, Eq, Structural)]
pub enum FollowUp {
    Nothing,
    /// Select the first entry.
    SelectFirst,
    /// The listing was opened from the entry with this index: select the
    /// first entry and show the one with this index.
    OpenFirst(usize),
}

/// The work that a message leaves to the caller.
pub enum Action {
    Nothing,
    /// Show the entry with this index; the flag forces it to be shown as
    /// text. The caller looks at the file and calls
    /// [`MainWindow::view_selected`].
    View(usize, bool),
    /// List the folder or archive at this path and call
    /// [`MainWindow::listed`] with its entries.
    List(String, FollowUp),
    /// Show a notice.
    Notify(Notice),
}

/// The mathematical content of an [`Action`].
pub enum ActionView {
    Nothing,
    View(usize, bool),
    List(Seq<char>, FollowUp),
    Notify(Notice),
}

impl View for Action {
    type V = ActionView;

    open spec fn view(&self) -> ActionView {
        match self {
            Action::Nothing => ActionView::Nothing,
            Action::View(file, force) => ActionView::View(*file, *force),
            Action::List(path, follow_up) => ActionView::List(path@, *follow_up),
            Action::Notify(notice) => ActionView::Notify(*notice),
        }
    }
}

/// What the main area shows.
#[derive(Clone, Copy, Debug, PartialEq, Eq, Structural)]
pub enum MainArea {
    /// The error text.
    Error,
    /// A note that an image is being loaded.
    LoadingImage,
    Image,
    Animation,
    Buffer,
    /// Nothing: a folder is selected.
    Folder,
    /// A note that the selected file may not be supported, with the offer
    /// to load it anyway.
    Unsupported(usize),
    /// A note that nothing is selected.
    Empty,
}

/// What the window is asked for at the end of a frame.
#[derive(Clone, Copy, Debug, PartialEq, Eq, Structural)]
pub struct WindowRequest {
    /// Enter or leave full screen.
    pub fullscreen: Option<bool>,
    pub close: bool,
}

/// The viewer's state.
pub struct MainWindow {
    pub file_view: FileView,
    /// Autoscroll is running.
    pub in_scroll: bool,
    /// The scroll offset in thousandths of a pixel.
    pub cur_scroll_pos: u64,
    /// The velocity that a drag left, in thousandths of a pixel per second.
    pub drag_vel: i64,
    /// The velocity that the scroll keys gave, in the same unit.
    pub key_vel: i64,
    /// The pointer drags the view.
    pub drag_started: bool,
    pub error_text: Option<String>,
    pub full_screen_mode: bool,
    /// A buffer is shown.
    pub loaded_buffer: bool,
    /// An image is being decoded.
    pub image_loading: bool,
    /// An image is shown.
    pub has_image: bool,
    /// The metadata that the dialog shows, while it is open.
    pub sauce_dialog: Option<SauceData>,
    /// The help dialog is open.
    pub help_dialog: bool,
    /// The file chooser is done.
    pub is_closed: bool,
    /// The entry that the file chooser was closed with.
    pub opened_file: Option<usize>,
    /// An animation plays.
    pub animation: bool,
}

/// The state without any view and without a selection, scrolled to the top.
pub open spec fn reset_of(w: MainWindow) -> MainWindow {
    MainWindow {
        image_loading: false,
        has_image: false,
        error_text: None,
        loaded_buffer: false,
        cur_scroll_pos: 0,
        file_view: FileView { selected_file: None, ..w.file_view },
        ..w
    }
}

/// The state with the entry `file` selected and scrolled to.
pub open spec fn selected_of(w: MainWindow, file: usize) -> MainWindow {
    MainWindow {
        file_view: FileView { selected_file: Some(file), scroll_pos: Some(file), ..w.file_view },
        ..w
    }
}

/// The notice for the scroll speed with the given index.
pub open spec fn speed_notice(index: int) -> Notice {
    if index == 0 {
        Notice::ScrollSlow
    } else if index == 1 {
        Notice::ScrollMedium
    } else {
        Notice::ScrollFast
    }
}

/// Whether opening the entry lists it: it is no file, or its extension is
/// `zip`.
pub open spec fn opens_as_folder(w: MainWindow, file: int, kind: PathKind) -> bool {
    let entry = w.file_view.files@[file];
    if entry.file_data is Some || kind is File {
        crate::path::path_extension(entry.path@) == Some("zip"@)
    } else {
        true
    }
}

/// State and action after a message. `kind` is what the file system says of
/// the entry that the message names.
pub open spec fn handled(w: MainWindow, message: Option<Message>, kind: PathKind) -> (
    MainWindow,
    ActionView,
) {
    let count = w.file_view.files@.len();
    match message {
        None => (w, ActionView::Nothing),
        Some(Message::Select(file, force)) => {
            if w.file_view.selected_file != Some(file) || force {
                if file < count {
                    (selected_of(reset_of(w), file), ActionView::View(file, force))
                } else {
                    (reset_of(w), ActionView::Nothing)
                }
            } else {
                (w, ActionView::Nothing)
            }
        },
        Some(Message::Refresh) => (
            reset_of(w),
            ActionView::List(w.file_view.path@, FollowUp::Nothing),
        ),
        Some(Message::Open(file)) => {
            if file >= count {
                (MainWindow { is_closed: true, ..w }, ActionView::Nothing)
            } else if opens_as_folder(w, file as int, kind) {
                (
                    reset_of(w),
                    ActionView::List(w.file_view.files@[file as int].path@, FollowUp::OpenFirst(file)),
                )
            } else {
                (MainWindow { is_closed: true, opened_file: Some(file), ..w }, ActionView::Nothing)
            }
        },
        Some(Message::Cancel) => (MainWindow { is_closed: true, ..w }, ActionView::Nothing),
        Some(Message::ParentFolder) => match path_parent(w.file_view.path@) {
            Some(parent) => (reset_of(w), ActionView::List(parent, FollowUp::SelectFirst)),
            None => (w, ActionView::Nothing),
        },
        Some(Message::ToggleAutoScroll) => (
            MainWindow {
                in_scroll: !w.in_scroll,
                file_view: FileView { auto_scroll_enabled: !w.in_scroll, ..w.file_view },
                ..w
            },
            ActionView::Notify(
                if w.in_scroll {
                    Notice::AutoScrollOff
                } else {
                    Notice::AutoScrollOn
                },
            ),
        ),
        Some(Message::ShowSauce(file)) => {
            if file < count && w.file_view.files@[file as int].read_sauce
                && w.file_view.files@[file as int].sauce is Some {
                (
                    MainWindow { sauce_dialog: w.file_view.files@[file as int].sauce, ..w },
                    ActionView::Nothing,
                )
            } else {
                (w, ActionView::Nothing)
            }
        },
        Some(Message::ShowHelpDialog) => (MainWindow { help_dialog: true, ..w }, ActionView::Nothing),
        Some(Message::ChangeScrollSpeed) => {
            let next = ((w.file_view.scroll_speed + 1) % 3) as usize;
            (
                MainWindow { file_view: FileView { scroll_speed: next, ..w.file_view }, ..w },
                ActionView::Notify(speed_notice(next as int)),
            )
        },
    }
}

impl MainWindow {
    /// A viewer that shows nothing yet.
    pub fn new(file_view: FileView) -> (window: Self)
        ensures
            window.file_view == file_view,
            !window.in_scroll,
            window.cur_scroll_pos == 0,
            window.drag_vel == 0,
            window.key_vel == 0,
            !window.drag_started,
            window.error_text is None,
            !window.full_screen_mode,
            !window.loaded_buffer,
            !window.image_loading,
            !window.has_image,
            window.sauce_dialog is None,
            !window.help_dialog,
            !window.is_closed,
            window.opened_file is None,
            !window.animation,
    {
        Self {
            file_view,
            in_scroll: false,
            cur_scroll_pos: 0,
            drag_vel: 0,
            key_vel: 0,
            drag_started: false,
            error_text: None,
            full_screen_mode: false,
            loaded_buffer: false,
            image_loading: false,
            has_image: false,
            sauce_dialog: None,
            help_dialog: false,
            is_closed: false,
            opened_file: None,
            animation: false,
        }
    }

    /// Drops every view and the selection and scrolls to the top.
    pub fn reset_state(&mut self)
        ensures
            *final(self) == reset_of(*old(self)),
    {
        self.image_loading = false;
        self.has_image = false;
        self.error_text = None;
        self.loaded_buffer = false;
        self.file_view.selected_file = None;
        self.cur_scroll_pos = 0;
    }

    /// Whether the browser and the main area take input: no dialog is open.
    pub fn input_enabled(&self) -> (enabled: bool)
        ensures
            enabled == (self.sauce_dialog is None && !self.help_dialog),
    {
        self.sauce_dialog.is_none() && !self.help_dialog
    }

    /// Whether opening the entry `file` lists it instead of showing it.
    pub fn open_selected(&self, file: usize, kind: PathKind) -> (lists: bool)
        ensures
            lists == (file < self.file_view.files@.len() && opens_as_folder(*self, file as int, kind)),
    {
        if file >= self.file_view.files.len() {
            return false;
        }
        let entry = &self.file_view.files[file];
        if entry.is_file(kind) {
            match crate::path::file_name_of(entry.path.as_str()) {
                Some(name) => {
                    let chars = crate::text::to_chars(name.as_str());
                    match crate::path::extension_of_name(&chars) {
                        Some(ext) => spells(&ext, "zip"),
                        None => false,
                    }
                },
                None => false,
            }
        } else {
            true
        }
    }

    /// Applies a message of the browser: see [`handled`].
    #[verifier::rlimit(60)]
    pub fn handle_command(&mut self, command: Option<Message>, kind: PathKind) -> (action: Action)
        requires
            old(self).file_view.wf(),
        ensures
            final(self).file_view.wf(),
            *final(self) == handled(*old(self), command, kind).0,
            action@ == handled(*old(self), command, kind).1,
    {
        match command {
            None => Action::Nothing,
            Some(Message::Select(file, force)) => {
                if self.file_view.selected_file != Some(file) || force {
                    self.reset_state();
                    if file < self.file_view.files.len() {
                        self.file_view.selected_file = Some(file);
                        self.file_view.scroll_pos = Some(file);
                        return Action::View(file, force);
                    }
                }
                Action::Nothing
            },
            Some(Message::Refresh) => {
                self.reset_state();
                Action::List(self.file_view.get_path(), FollowUp::Nothing)
            },
            Some(Message::Open(file)) => {
                if self.open_selected(file, kind) {
                    let path = self.file_view.files[file].path.clone();
                    self.reset_state();
                    Action::List(path, FollowUp::OpenFirst(file))
                } else {
                    if file < self.file_view.files.len() {
                        self.opened_file = Some(file);
                    }
                    self.is_closed = true;
                    Action::Nothing
                }
            },
            Some(Message::Cancel) => {
                self.is_closed = true;
                Action::Nothing
            },
            Some(Message::ParentFolder) => match self.file_view.parent_path() {
                Some(parent) => {
                    self.reset_state();
                    Action::List(parent, FollowUp::SelectFirst)
                },
                None => Action::Nothing,
            },
            Some(Message::ToggleAutoScroll) => {
                self.file_view.auto_scroll_enabled = !self.in_scroll;
                self.in_scroll = self.file_view.auto_scroll_enabled;
                if self.file_view.auto_scroll_enabled {
                    Action::Notify(Notice::AutoScrollOn)
                } else {
                    Action::Notify(Notice::AutoScrollOff)
                }
            },
            Some(Message::ShowSauce(file)) => {
                if file < self.file_view.files.len() {
                    if let Some(sauce) = self.file_view.files[file].get_sauce() {
                        self.sauce_dialog = Some(sauce);
                    }
                }
                Action::Nothing
            },
            Some(Message::ShowHelpDialog) => {
                self.help_dialog = true;
                Action::Nothing
            },
            Some(Message::ChangeScrollSpeed) => {
                let next = crate::viewport::next_scroll_speed(self.file_view.scroll_speed);
                self.file_view.scroll_speed = next;
                if next == 0 {
                    Action::Notify(Notice::ScrollSlow)
                } else if next == 1 {
                    Action::Notify(Notice::ScrollMedium)
                } else {
                    Action::Notify(Notice::ScrollFast)
                }
            },
        }
    }
}


/// The state once the folder or archive at `path` has been listed: the
/// browser lists `files`, and the follow-up is applied. After an entry was
/// opened, a listing without entries closes the file chooser.
pub open spec fn listed_state(
    w: MainWindow,
    path: Seq<char>,
    now: MainWindow,
    files: Vec<crate::file_view::FileEntry>,
    follow_up: FollowUp,
) -> bool {
    let count = files@.len();
    let select_first = (follow_up is SelectFirst || follow_up is OpenFirst) && count > 0;
    &&& now.file_view.path@ == path
    &&& now.file_view.files == files
    &&& now.file_view.selected_file == if select_first {
        Some(0usize)
    } else {
        None
    }
    &&& now.file_view.scroll_pos == if select_first {
        Some(0usize)
    } else {
        w.file_view.scroll_pos
    }
    &&& now.file_view.auto_scroll_enabled == w.file_view.auto_scroll_enabled
    &&& now.file_view.scroll_speed == w.file_view.scroll_speed
    &&& now.file_view.filter == w.file_view.filter
    &&& now.file_view.pre_select_file == w.file_view.pre_select_file
    &&& now.is_closed == if follow_up is OpenFirst {
        count == 0
    } else {
        w.is_closed
    }
    &&& now.in_scroll == w.in_scroll
    &&& now.drag_vel == w.drag_vel
    &&& now.key_vel == w.key_vel
    &&& now.drag_started == w.drag_started
    &&& now.full_screen_mode == w.full_screen_mode
    &&& now.sauce_dialog == w.sauce_dialog
    &&& now.help_dialog == w.help_dialog
    &&& now.opened_file == w.opened_file
    &&& now.animation == w.animation
    &&& if follow_up is SelectFirst {
        &&& now.cur_scroll_pos == 0
        &&& now.error_text is None
        &&& !now.loaded_buffer
        &&& !now.image_loading
        &&& !now.has_image
    } else {
        &&& now.cur_scroll_pos == w.cur_scroll_pos
        &&& now.error_text == w.error_text
        &&& now.loaded_buffer == w.loaded_buffer
        &&& now.image_loading == w.image_loading
        &&& now.has_image == w.has_image
    }
}

/// The action after a listing: to show the first entry, or the entry that
/// the listing was opened from, where there are entries.
pub open spec fn listed_action(count: int, follow_up: FollowUp) -> ActionView {
    match follow_up {
        FollowUp::Nothing => ActionView::Nothing,
        FollowUp::SelectFirst => if count > 0 {
            ActionView::View(0, false)
        } else {
            ActionView::Nothing
        },
        FollowUp::OpenFirst(file) => if count > 0 {
            ActionView::View(file, false)
        } else {
            ActionView::Nothing
        },
    }
}

/// What the main area shows. `kind` is what the file system says of the
/// selected entry.
pub open spec fn main_area_of(w: MainWindow, kind: PathKind) -> MainArea {
    if w.error_text is Some {
        MainArea::Error
    } else if w.image_loading {
        MainArea::LoadingImage
    } else if w.has_image {
        MainArea::Image
    } else if w.animation {
        MainArea::Animation
    } else if w.loaded_buffer {
        MainArea::Buffer
    } else {
        match w.file_view.selected_file {
            Some(file) => if file < w.file_view.files@.len() && w.file_view.files@[file as int].folder(
                kind,
            ) {
                MainArea::Folder
            } else {
                MainArea::Unsupported(file)
            },
            None => MainArea::Empty,
        }
    }
}

impl MainWindow {
    /// Takes the entries of the folder or archive at `path` and applies the
    /// follow-up of the action that asked for the listing. An unreadable
    /// folder or archive has no entries.
    pub fn listed(
        &mut self,
        path: String,
        files: Vec<crate::file_view::FileEntry>,
        follow_up: FollowUp,
    ) -> (action: Action)
        ensures
            listed_state(*old(self), path@, *final(self), files, follow_up),
            action@ == listed_action(files@.len() as int, follow_up),
    {
        let _ = self.file_view.set_path(path, files);
        match follow_up {
            FollowUp::Nothing => Action::Nothing,
            FollowUp::SelectFirst => {
                self.reset_state();
                if self.file_view.files.len() > 0 {
                    self.file_view.selected_file = Some(0);
                    self.file_view.scroll_pos = Some(0);
                    Action::View(0, false)
                } else {
                    Action::Nothing
                }
            },
            FollowUp::OpenFirst(file) => {
                if self.file_view.files.len() > 0 {
                    self.file_view.selected_file = Some(0);
                    self.file_view.scroll_pos = Some(0);
                    self.is_closed = false;
                    Action::View(file, false)
                } else {
                    self.is_closed = true;
                    Action::Nothing
                }
            },
        }
    }

    /// Lists another folder or archive, whose entries are `files`, without
    /// selecting anything.
    pub fn set_path(&mut self, path: String, files: Vec<crate::file_view::FileEntry>)
        ensures
            listed_state(*old(self), path@, *final(self), files, FollowUp::Nothing),
    {
        let _ = self.listed(path, files, FollowUp::Nothing);
    }

    /// Takes the entries of the listed folder or archive anew, without
    /// selecting anything.
    pub fn refresh(&mut self, files: Vec<crate::file_view::FileEntry>)
        ensures
            listed_state(
                *old(self),
                old(self).file_view.path@,
                *final(self),
                files,
                FollowUp::Nothing,
            ),
    {
        let path = self.file_view.get_path();
        let _ = self.listed(path, files, FollowUp::Nothing);
    }

    /// Begins a frame of the file chooser: it is open and nothing has been
    /// chosen.
    pub fn begin_file_chooser(&mut self)
        ensures
            *final(self) == (MainWindow { is_closed: false, opened_file: None, ..*old(self) }),
    {
        self.is_closed = false;
        self.opened_file = None;
    }

    /// Decides how the entry `file` is shown. `kind` is what the file
    /// system says of it and `head` the first bytes of its content.
    ///
    /// A running animation ends. Nothing is shown of a missing entry or a
    /// folder. For an image the decoding is under way afterwards. The
    /// caller loads what the result names and reports the outcome.
    pub fn view_selected(&mut self, file: usize, force_load: bool, kind: PathKind, head: &[u8]) -> (
        view: Option<ViewKind>)
        ensures
            file >= old(self).file_view.files@.len() ==> view is None && *final(self) == *old(self),
            file < old(self).file_view.files@.len() ==> ({
                let entry = old(self).file_view.files@[file as int];
                let is_file = entry.file_data is Some || kind is File;
                let shown = view_kind_of(lower_extension(entry.path@), force_load, head@);
                &&& view == if is_file {
                    Some(shown)
                } else {
                    None
                }
                &&& *final(self) == (MainWindow {
                    animation: false,
                    image_loading: old(self).image_loading || (is_file && (shown is Image
                        || shown is Svg)),
                    ..*old(self)
                })
            }),
    {
        if file >= self.file_view.files.len() {
            return None;
        }
        self.animation = false;
        let entry = &self.file_view.files[file];
        if !entry.is_file(kind) {
            return None;
        }
        let ext = extension_lowercase(entry.path.as_str());
        let shown = view_kind(&ext, force_load, head);
        match shown {
            ViewKind::Image => {
                self.image_loading = true;
            },
            ViewKind::Svg => {
                self.image_loading = true;
            },
            _ => {},
        }
        Some(shown)
    }

    /// A buffer was decoded and is shown; autoscroll starts.
    pub fn buffer_loaded(&mut self)
        ensures
            *final(self) == (MainWindow { loaded_buffer: true, in_scroll: true, ..*old(self) }),
    {
        self.loaded_buffer = true;
        self.in_scroll = true;
    }

    /// An animation script was parsed and plays.
    pub fn animation_started(&mut self)
        ensures
            *final(self) == (MainWindow { animation: true, ..*old(self) }),
    {
        self.animation = true;
    }

    /// Loading failed: the error is shown until another file is selected.
    pub fn load_failed(&mut self, error: String)
        ensures
            *final(self) == (MainWindow { error_text: Some(error), ..*old(self) }),
    {
        self.error_text = Some(error);
    }

    /// The decoding of an image has ended, with an error or without.
    pub fn image_finished(&mut self, error: Option<String>)
        ensures
            *final(self) == (match error {
                Some(text) => MainWindow {
                    image_loading: false,
                    error_text: Some(text),
                    ..*old(self)
                },
                None => MainWindow { image_loading: false, has_image: true, ..*old(self) },
            }),
    {
        self.image_loading = false;
        match error {
            Some(text) => {
                self.error_text = Some(text);
            },
            None => {
                self.has_image = true;
            },
        }
    }

    /// What the main area shows: see [`main_area_of`].
    pub fn main_area(&self, kind: PathKind) -> (area: MainArea)
        ensures
            area == main_area_of(*self, kind),
    {
        if self.error_text.is_some() {
            MainArea::Error
        } else if self.image_loading {
            MainArea::LoadingImage
        } else if self.has_image {
            MainArea::Image
        } else if self.animation {
            MainArea::Animation
        } else if self.loaded_buffer {
            MainArea::Buffer
        } else {
            match self.file_view.selected_file {
                Some(file) => {
                    if file < self.file_view.files.len() && self.file_view.files[file].is_dir(kind) {
                        MainArea::Folder
                    } else {
                        MainArea::Unsupported(file)
                    }
                },
                None => MainArea::Empty,
            }
        }
    }

    /// Ends a frame: autoscroll runs on only while it is enabled. Returns
    /// the milliseconds after which the next frame is due: none while
    /// autoscroll runs, 150 otherwise.
    pub fn end_frame(&mut self) -> (delay_ms: u64)
        ensures
            *final(self) == (MainWindow {
                in_scroll: old(self).in_scroll && old(self).file_view.auto_scroll_enabled,
                ..*old(self)
            }),
            delay_ms == if final(self).in_scroll {
                0u64
            } else {
                150u64
            },
    {
        self.in_scroll = self.in_scroll && self.file_view.auto_scroll_enabled;
        if self.in_scroll {
            0
        } else {
            150
        }
    }

    /// A dialog asked to be closed.
    pub fn close_dialogs(&mut self, sauce: bool, help: bool)
        ensures
            *final(self) == (MainWindow {
                sauce_dialog: if sauce {
                    None
                } else {
                    old(self).sauce_dialog
                },
                help_dialog: old(self).help_dialog && !help,
                ..*old(self)
            }),
    {
        if sauce {
            self.sauce_dialog = None;
        }
        if help {
            self.help_dialog = false;
        }
    }

    /// The keys of the window. `toggle_fullscreen` stands for F11 or
    /// Alt+Enter, `quit` for Alt+Q. Escape closes the metadata dialog if it
    /// is open, else the help dialog if it is open, else the window.
    pub fn window_keys(&mut self, toggle_fullscreen: bool, quit: bool, escape: bool) -> (request:
        WindowRequest)
        ensures
            final(self).full_screen_mode == (old(self).full_screen_mode != toggle_fullscreen),
            final(self).sauce_dialog == if escape {
                None
            } else {
                old(self).sauce_dialog
            },
            final(self).help_dialog == (old(self).help_dialog && !(escape && old(self).sauce_dialog is None)),
            *final(self) == (MainWindow {
                full_screen_mode: final(self).full_screen_mode,
                sauce_dialog: final(self).sauce_dialog,
                help_dialog: final(self).help_dialog,
                ..*old(self)
            }),
            request.fullscreen == if toggle_fullscreen {
                Some(final(self).full_screen_mode)
            } else {
                None
            },
            request.close == (quit || (escape && old(self).sauce_dialog is None && !old(self).help_dialog)),
    {
        let mut request = WindowRequest { fullscreen: None, close: quit };
        if toggle_fullscreen {
            self.full_screen_mode = !self.full_screen_mode;
            request.fullscreen = Some(self.full_screen_mode);
        }
        if escape {
            if self.sauce_dialog.is_some() {
                self.sauce_dialog = None;
            } else if self.help_dialog {
                self.help_dialog = false;
            } else {
                request.close = true;
            }
        }
        request
    }
}


/// The velocity that the key to scroll up by lines gives.
pub const LINE_UP_VELOCITY: i64 = 500_000;

/// The velocity that the key to scroll down by lines adds.
pub const LINE_DOWN_VELOCITY: i64 = 250_000;

/// The velocity that the key to scroll up by pages gives.
pub const PAGE_UP_VELOCITY: i64 = 5_000_000;

/// The velocity that the key to scroll down by pages adds.
pub const PAGE_DOWN_VELOCITY: i64 = 2_500_000;

/// A key velocity within this many thousandths of a pixel per second above
/// zero counts as rest.
pub const REST_VELOCITY: i64 = 200;

/// The motion of a dragging pointer in one frame.
#[derive(Clone, Copy, Debug, PartialEq, Eq, Structural)]
pub struct Drag {
    /// The distance moved in thousandths of a pixel.
    pub distance: i64,
    /// The pointer's velocity in thousandths of a pixel per second.
    pub velocity: i64,
}

/// What the user did to the scrolled buffer in one frame.
#[derive(Clone, Copy, Debug, PartialEq, Eq, Structural)]
pub struct ScrollInput {
    /// The key that scrolls to the top.
    pub top: bool,
    /// The key that scrolls to the bottom.
    pub bottom: bool,
    pub line_up: bool,
    pub line_down: bool,
    pub page_up: bool,
    pub page_down: bool,
    /// A drag began; the flag says whether it began on a scrollbar.
    pub drag_began: Option<bool>,
    pub drag_released: bool,
    /// The pointer is dragged.
    pub dragged: Option<Drag>,
    /// The distance that the wheel asks for, in thousandths of a pixel.
    pub wheel: i64,
    /// The user moved the scrollbar.
    pub set_by_user: bool,
}

/// The key velocity after the keys of a frame.
pub open spec fn key_velocity(velocity: int, input: ScrollInput) -> int {
    let a = if input.line_up {
        500_000
    } else {
        velocity
    };
    let b = if input.line_down {
        a - 250_000
    } else {
        a
    };
    let c = if input.page_up {
        5_000_000
    } else {
        b
    };
    if input.page_down {
        c - 2_500_000
    } else {
        c
    }
}

/// A key or a drag of this frame takes the view away from autoscroll.
pub open spec fn takes_over(input: ScrollInput, dragging: bool) -> bool {
    input.top || input.bottom || input.line_up || input.line_down || input.page_up
        || input.page_down || (input.dragged is Some && dragging) || input.wheel != 0
        || input.set_by_user
}

/// Whether the pointer drags the view after the frame: a drag that begins
/// off the scrollbars grabs the view until it is released.
pub open spec fn dragging(w: MainWindow, input: ScrollInput) -> bool {
    let began = match input.drag_began {
        Some(on_scrollbar) => !on_scrollbar,
        None => w.drag_started,
    };
    began && !input.drag_released
}

/// Offset and latch after the autoscroll of one frame: the offset advances
/// and stays within the range.
pub open spec fn auto_step(w: MainWindow, dt_ms: int, range: int) -> (int, bool) {
    let auto = crate::viewport::autoscrolled(
        w.cur_scroll_pos as int,
        w.in_scroll,
        w.file_view.scroll_speed as int,
        dt_ms,
        range,
    );
    (crate::viewport::min_of(auto.0, range), auto.1)
}

/// Offset and key velocity after the wheel and the keys of one frame: the
/// wheel moves the view, the keys jump to an end or set the velocity, and a
/// velocity that is not at rest coasts.
pub open spec fn key_step(offset: int, velocity: int, input: ScrollInput, dt_ms: int) -> (
    int,
    int,
) {
    let jumped = if input.bottom {
        u64::MAX as int
    } else if input.top {
        0
    } else {
        crate::viewport::moved_back(offset, input.wheel as int)
    };
    let set = crate::viewport::bounded_velocity(
        key_velocity(crate::viewport::bounded_velocity(velocity), input),
    );
    if set < 0 || set > 200 {
        let slowed = crate::viewport::decayed(set, dt_ms);
        (crate::viewport::moved_back(jumped, crate::viewport::travelled(slowed, dt_ms)), slowed)
    } else {
        (jumped, set)
    }
}

/// Offset and drag velocity after the pointer of one frame: a drag moves
/// the view with the pointer and leaves its velocity behind; without a
/// drag that velocity coasts.
pub open spec fn drag_step(
    offset: int,
    velocity: int,
    pulled: Option<Drag>,
    dt_ms: int,
) -> (int, int) {
    match pulled {
        Some(drag) => (
            crate::viewport::moved_back(offset, drag.distance as int),
            crate::viewport::bounded_velocity(drag.velocity as int),
        ),
        None => {
            let slowed = crate::viewport::decayed(
                crate::viewport::bounded_velocity(velocity),
                dt_ms,
            );
            (crate::viewport::moved_back(offset, crate::viewport::travelled(slowed, dt_ms)), slowed)
        },
    }
}

/// The drag that moves the view in this frame, if any.
pub open spec fn pull(w: MainWindow, input: ScrollInput) -> Option<Drag> {
    if dragging(w, input) {
        input.dragged
    } else {
        None
    }
}

/// The state after one frame of the scrolled buffer, `dt_ms` milliseconds
/// after the last. `range` is the scrollable distance.
///
/// First autoscroll advances the offset, then the keys act, then the
/// pointer. Any gesture of the user latches autoscroll off, and a drag
/// stops the key velocity.
pub open spec fn scrolled(w: MainWindow, input: ScrollInput, dt_ms: int, range: int) -> MainWindow {
    let auto = auto_step(w, dt_ms, range);
    let keys = key_step(auto.0, w.key_vel as int, input, dt_ms);
    let pulled = pull(w, input);
    let drag = drag_step(keys.0, w.drag_vel as int, pulled, dt_ms);
    MainWindow {
        cur_scroll_pos: drag.0 as u64,
        in_scroll: auto.1 && !takes_over(input, dragging(w, input)),
        key_vel: if pulled is Some {
            0i64
        } else {
            keys.1 as i64
        },
        drag_vel: drag.1 as i64,
        drag_started: dragging(w, input),
        ..w
    }
}

fn run_auto_step(w: &MainWindow, dt_ms: u32, range: u64) -> (next: (u64, bool))
    requires
        w.file_view.wf(),
    ensures
        (next.0 as int, next.1) == auto_step(*w, dt_ms as int, range as int),
{
    let speed = crate::viewport::scroll_speed(w.file_view.scroll_speed);
    let offset = w.cur_scroll_pos;
    if w.in_scroll && offset < range {
        assert(speed * dt_ms <= 320 * u32::MAX) by (nonlinear_arith)
            requires
                0 <= speed <= 320,
                0 <= dt_ms <= u32::MAX,
        ;
        let step: u64 = speed * (dt_ms as u64);
        if step >= range - offset {
            (range, false)
        } else {
            (offset + step, true)
        }
    } else if offset > range {
        (range, false)
    } else {
        (offset, false)
    }
}

fn run_key_step(offset: u64, velocity: i64, input: &ScrollInput, dt_ms: u32) -> (next: (u64, i64))
    ensures
        (next.0 as int, next.1 as int) == key_step(
            offset as int,
            velocity as int,
            *input,
            dt_ms as int,
        ),
{
    let mut offset = crate::viewport::move_back(offset, input.wheel);
    if input.top {
        offset = 0;
    }
    if input.bottom {
        offset = u64::MAX;
    }
    let mut key_vel = crate::viewport::bound_velocity(velocity);
    if input.line_up {
        key_vel = LINE_UP_VELOCITY;
    }
    if input.line_down {
        key_vel = key_vel - LINE_DOWN_VELOCITY;
    }
    if input.page_up {
        key_vel = PAGE_UP_VELOCITY;
    }
    if input.page_down {
        key_vel = key_vel - PAGE_DOWN_VELOCITY;
    }
    key_vel = crate::viewport::bound_velocity(key_vel);
    if key_vel < 0 || key_vel > REST_VELOCITY {
        let (slowed, distance) = crate::viewport::coast(key_vel, dt_ms);
        (crate::viewport::move_back(offset, distance), slowed)
    } else {
        (offset, key_vel)
    }
}

fn run_drag_step(offset: u64, velocity: i64, pulled: Option<Drag>, dt_ms: u32) -> (next: (u64, i64))
    ensures
        (next.0 as int, next.1 as int) == drag_step(
            offset as int,
            velocity as int,
            pulled,
            dt_ms as int,
        ),
{
    match pulled {
        Some(drag) => (
            crate::viewport::move_back(offset, drag.distance),
            crate::viewport::bound_velocity(drag.velocity),
        ),
        None => {
            let (slowed, distance) = crate::viewport::coast(
                crate::viewport::bound_velocity(velocity),
                dt_ms,
            );
            (crate::viewport::move_back(offset, distance), slowed)
        },
    }
}

impl MainWindow {
    /// One frame of the scrolled buffer: see [`scrolled`].
    pub fn scroll_frame(&mut self, input: &ScrollInput, dt_ms: u32, range: u64)
        requires
            old(self).file_view.wf(),
        ensures
            *final(self) == scrolled(*old(self), *input, dt_ms as int, range as int),
    {
        let auto = run_auto_step(self, dt_ms, range);
        let keys = run_key_step(auto.0, self.key_vel, input, dt_ms);
        let mut drags = self.drag_started;
        if let Some(on_scrollbar) = input.drag_began {
            drags = !on_scrollbar;
        }
        if input.drag_released {
            drags = false;
        }
        let pulled = if drags {
            input.dragged
        } else {
            None
        };
        let drag = run_drag_step(keys.0, self.drag_vel, pulled, dt_ms);
        let user = input.top || input.bottom || input.line_up || input.line_down || input.page_up
            || input.page_down || pulled.is_some() || input.wheel != 0 || input.set_by_user;
        self.cur_scroll_pos = drag.0;
        self.key_vel = if pulled.is_some() {
            0
        } else {
            keys.1
        };
        self.drag_vel = drag.1;
        self.drag_started = drags;
        self.in_scroll = auto.1 && !user;
    }
}

/// While autoscroll runs, nothing moves the view and the user does
/// nothing, a frame advances the offset by speed times elapsed time, up to
/// the end of the range.
pub proof fn lemma_autoscroll_frame(w: MainWindow, input: ScrollInput, dt_ms: int, range: int)
    requires
        0 <= dt_ms,
        w.in_scroll,
        w.cur_scroll_pos < range <= u64::MAX,
        w.key_vel == 0,
        w.drag_vel == 0,
        !takes_over(input, dragging(w, input)),
    ensures
        scrolled(w, input, dt_ms, range).cur_scroll_pos == crate::viewport::min_of(
            w.cur_scroll_pos + crate::viewport::speed_of(w.file_view.scroll_speed as int) * dt_ms,
            range,
        ),
        scrolled(w, input, dt_ms, range).in_scroll == (w.cur_scroll_pos + crate::viewport::speed_of(
            w.file_view.scroll_speed as int,
        ) * dt_ms < range),
{
    let speed = crate::viewport::speed_of(w.file_view.scroll_speed as int);
    assert(speed * dt_ms >= 0) by (nonlinear_arith)
        requires
            speed >= 0,
            dt_ms >= 0,
    ;
    assert(crate::viewport::travelled(0, dt_ms) == 0) by (nonlinear_arith);
    assert(crate::viewport::toward_zero(0 * dt_ms, 100) == 0) by (nonlinear_arith);
}

} // verus!
