//! The file browser: entries of a folder or an archive, the metadata shown
//! with them, the filter, and the message that a frame of input yields.

use crate::geometry::Size;
use crate::path::{
    extension_lowercase, file_name_of, lower_extension, parent_of, path_file_name, path_parent,
};
use crate::text::{contains, has_infix, push_char, spells, to_chars};
use vstd::prelude::*;

verus! {

/// What the user asked the browser for in one frame.
#[derive(Clone, Copy, Debug, PartialEq, Eq, Structural)]
pub enum Message {
    /// Select the entry with this index; the flag forces the file to be
    /// shown whatever its kind.
    Select(usize, bool),
    Open(usize),
    Cancel,
    Refresh,
    ParentFolder,
    ToggleAutoScroll,
    ShowSauce(usize),
    ShowHelpDialog,
    ChangeScrollSpeed,
}

/// What the file system says of a path.
#[derive(Clone, Copy, Debug, PartialEq, Eq, Structural)]
pub enum PathKind {
    Missing,
    File,
    Directory,
    Other,
}

/// The metadata record at the end of a file.
pub struct SauceData {
    pub title: String,
    pub author: String,
    pub group: String,
    pub buffer_size: Size,
    pub use_ice: bool,
    pub use_letter_spacing: bool,
    pub use_aspect_ratio: bool,
}

impl Clone for SauceData {
    fn clone(&self) -> (copy: Self)
        ensures
            copy == *self,
    {
        SauceData {
            title: self.title.clone(),
            author: self.author.clone(),
            group: self.group.clone(),
            buffer_size: self.buffer_size,
            use_ice: self.use_ice,
            use_letter_spacing: self.use_letter_spacing,
            use_aspect_ratio: self.use_aspect_ratio,
        }
    }
}

/// `list` with `item` added after a comma, or `item` alone where the list is
/// empty.
pub open spec fn with_flag(list: Seq<char>, item: Seq<char>) -> Seq<char> {
    if list.len() == 0 {
        item
    } else {
        list.push(',') + item
    }
}

impl SauceData {
    /// The flags of the record as a list: `ICE`, `9px` and `AR`, each where
    /// its flag is set, separated by commas.
    pub open spec fn flags_text(&self) -> Seq<char> {
        let ice = if self.use_ice {
            "ICE"@
        } else {
            Seq::empty()
        };
        let spacing = if self.use_letter_spacing {
            with_flag(ice, "9px"@)
        } else {
            ice
        };
        if self.use_aspect_ratio {
            with_flag(spacing, "AR"@)
        } else {
            spacing
        }
    }

    pub fn screen_mode_flags(&self) -> (flags: String)
        ensures
            flags@ == self.flags_text(),
    {
        let mut flags = String::new();
        if self.use_ice {
            flags.append("ICE");
            assert(flags@ =~= "ICE"@);
        }
        if self.use_letter_spacing {
            let ghost before = flags@;
            if !flags.as_str().is_empty() {
                push_char(&mut flags, ',');
            }
            flags.append("9px");
            assert(flags@ =~= with_flag(before, "9px"@));
        }
        if self.use_aspect_ratio {
            let ghost before = flags@;
            if !flags.as_str().is_empty() {
                push_char(&mut flags, ',');
            }
            flags.append("AR");
            assert(flags@ =~= with_flag(before, "AR"@));
        }
        flags
    }
}

/// One row of the browser: a file or folder on disk, or a member of an
/// archive with its bytes.
pub struct FileEntry {
    pub path: String,
    /// The bytes of an archive member; `None` for a file on disk.
    pub file_data: Option<Vec<u8>>,
    /// The metadata has been looked for.
    pub read_sauce: bool,
    pub sauce: Option<SauceData>,
    /// Whether the entry is a folder, where the archive said so.
    pub is_dir: Option<bool>,
}

impl FileEntry {
    /// An entry for a path on disk.
    pub fn on_disk(path: String) -> (entry: Self)
        ensures
            entry.path == path,
            entry.file_data is None,
            !entry.read_sauce,
            entry.sauce is None,
            entry.is_dir is None,
    {
        FileEntry { path, file_data: None, read_sauce: false, sauce: None, is_dir: None }
    }

    /// An entry for a member of an archive. A member without a usable name
    /// is listed as `unknown`.
    pub fn embedded(name: Option<String>, data: Vec<u8>, is_dir: bool) -> (entry: Self)
        ensures
            entry.path@ == (match name {
                Some(name) => name@,
                None => "unknown"@,
            }),
            entry.file_data == Some(data),
            !entry.read_sauce,
            entry.sauce is None,
            entry.is_dir == Some(is_dir),
    {
        let path = match name {
            Some(name) => name,
            None => "unknown".to_owned(),
        };
        FileEntry { path, file_data: Some(data), read_sauce: false, sauce: None, is_dir: Some(is_dir) }
    }

    /// The bytes of the entry where it carries them; `None` where they have
    /// to be read from disk.
    pub fn get_data(&self) -> (data: Option<&Vec<u8>>)
        ensures
            match data {
                Some(bytes) => self.file_data == Some(*bytes),
                None => self.file_data is None,
            },
    {
        self.file_data.as_ref()
    }

    /// Whether the entry is a file: a member of an archive is, and a path
    /// on disk is where the file system says so.
    pub fn is_file(&self, kind: PathKind) -> (file: bool)
        ensures
            file == (self.file_data is Some || kind is File),
    {
        self.file_data.is_some() || kind == PathKind::File
    }

    /// Whether the entry is a folder: as the archive said, or else as the
    /// file system says.
    pub open spec fn folder(&self, kind: PathKind) -> bool {
        match self.is_dir {
            Some(is_dir) => is_dir,
            None => kind is Directory,
        }
    }

    pub fn is_dir(&self, kind: PathKind) -> (dir: bool)
        ensures
            dir == self.folder(kind),
    {
        match self.is_dir {
            Some(is_dir) => is_dir,
            None => kind == PathKind::Directory,
        }
    }

    /// Whether opening the entry lists it: a folder, or a file whose
    /// extension is `zip` in any case of letters.
    pub open spec fn folder_or_archive(&self, kind: PathKind) -> bool {
        lower_extension(self.path@) == "zip"@ || self.folder(kind)
    }

    pub fn is_dir_or_archive(&self, kind: PathKind) -> (listed: bool)
        ensures
            listed == self.folder_or_archive(kind),
    {
        let ext = extension_lowercase(self.path.as_str());
        if spells(&ext, "zip") {
            return true;
        }
        self.is_dir(kind)
    }

    /// The metadata still has to be looked for.
    pub fn needs_sauce(&self) -> (needed: bool)
        ensures
            needed == !self.read_sauce,
    {
        !self.read_sauce
    }

    /// Records the outcome of looking for the metadata, once: a later call
    /// changes nothing.
    pub fn load_sauce(&mut self, found: Option<SauceData>)
        ensures
            final(self).path == old(self).path,
            final(self).file_data == old(self).file_data,
            final(self).is_dir == old(self).is_dir,
            final(self).read_sauce,
            final(self).sauce == if old(self).read_sauce {
                old(self).sauce
            } else {
                found
            },
    {
        if self.read_sauce {
            return ;
        }
        self.read_sauce = true;
        self.sauce = found;
    }

    /// The metadata, once it has been looked for.
    pub fn get_sauce(&self) -> (sauce: Option<SauceData>)
        ensures
            sauce == if self.read_sauce {
                self.sauce
            } else {
                None
            },
    {
        if !self.read_sauce {
            return None;
        }
        match &self.sauce {
            Some(sauce) => Some(sauce.clone()),
            None => None,
        }
    }
}


/// The browser's state: the folder or archive that is listed, its entries,
/// the selection, the filter and the autoscroll settings.
pub struct FileView {
    /// The folder or archive that is listed.
    pub path: String,
    pub selected_file: Option<usize>,
    /// The row that the list has to scroll to.
    pub scroll_pos: Option<usize>,
    pub files: Vec<FileEntry>,
    pub auto_scroll_enabled: bool,
    /// Index of the autoscroll speed: 0, 1 or 2.
    pub scroll_speed: usize,
    pub filter: String,
    /// The name of the file to select once the folder is listed.
    pub pre_select_file: Option<String>,
}

/// The path without its final component, or the path itself where it has no
/// parent.
pub open spec fn popped(path: Seq<char>) -> Seq<char> {
    match path_parent(path) {
        Some(parent) => parent,
        None => path,
    }
}

/// The folder to list for a start path, and the file to select in it.
///
/// A path that does not exist names a file to select in its parent. A file
/// that is no archive is selected in its folder. `kind` is what the file
/// system says of the path, `parent_kind` what it says of the parent.
pub open spec fn start_folder(path: Seq<char>, kind: PathKind, parent_kind: PathKind) -> (
    Seq<char>,
    Option<Seq<char>>,
) {
    let missing = kind is Missing;
    let first = if missing {
        popped(path)
    } else {
        path
    };
    let first_kind = if missing && path_parent(path) is Some {
        parent_kind
    } else {
        kind
    };
    let first_name = if missing {
        path_file_name(path)
    } else {
        None
    };
    if first_kind is File && lower_extension(first) != "zip"@ {
        (popped(first), path_file_name(first))
    } else {
        (first, first_name)
    }
}

/// Whether an entry passes the filter, given in lower case: an empty filter
/// passes everything; otherwise the filter occurs in the title of the
/// entry's metadata or in its path, both taken in lower case.
pub open spec fn entry_matches(entry: FileEntry, filter: Seq<char>) -> bool {
    ||| filter.len() == 0
    ||| (entry.sauce matches Some(sauce) && has_infix(crate::text::lowercased(sauce.title@), filter))
    ||| has_infix(crate::text::lowercased(entry.path@), filter)
}

/// The indices of the first `n` entries that pass the filter, in order.
pub open spec fn matching(files: Seq<FileEntry>, filter: Seq<char>, n: int) -> Seq<usize>
    decreases n,
{
    if n <= 0 {
        Seq::empty()
    } else if entry_matches(files[n - 1], filter) {
        matching(files, filter, n - 1).push((n - 1) as usize)
    } else {
        matching(files, filter, n - 1)
    }
}

impl FileView {
    /// The folder or archive that is listed.
    pub open spec fn path_text(&self) -> Seq<char> {
        self.path@
    }

    /// The name of the file to select once the folder is listed.
    pub open spec fn pre_select(&self) -> Option<Seq<char>> {
        match self.pre_select_file {
            Some(name) => Some(name@),
            None => None,
        }
    }

    /// The speed index is one of the three speeds.
    pub open spec fn wf(&self) -> bool {
        self.scroll_speed < 3
    }

    /// The indices of the entries that pass the filter.
    pub open spec fn visible(&self) -> Seq<usize> {
        matching(self.files@, crate::text::lowercased(self.filter@), self.files@.len() as int)
    }

    /// A browser for the start path `path`. See [`start_folder`] for the
    /// folder it lists and the file it selects there. Nothing is listed yet
    /// and nothing selected; autoscroll is on at medium speed.
    pub fn new(path: String, kind: PathKind, parent_kind: PathKind) -> (view: Self)
        ensures
            view.wf(),
            (view.path_text(), view.pre_select()) == start_folder(path@, kind, parent_kind),
            view.selected_file is None,
            view.scroll_pos is None,
            view.files@.len() == 0,
            view.filter@.len() == 0,
            view.auto_scroll_enabled,
            view.scroll_speed == 1,
    {
        let mut path = path;
        let mut kind = kind;
        let mut pre_select_file: Option<String> = None;
        if kind == PathKind::Missing {
            pre_select_file = file_name_of(path.as_str());
            match parent_of(path.as_str()) {
                Some(parent) => {
                    path = parent;
                    kind = parent_kind;
                },
                None => {},
            }
        }
        if kind == PathKind::File {
            let ext = extension_lowercase(path.as_str());
            if !spells(&ext, "zip") {
                pre_select_file = file_name_of(path.as_str());
                match parent_of(path.as_str()) {
                    Some(parent) => {
                        path = parent;
                    },
                    None => {},
                }
            }
        }
        Self {
            path,
            selected_file: None,
            pre_select_file,
            scroll_pos: None,
            files: Vec::new(),
            filter: String::new(),
            auto_scroll_enabled: true,
            scroll_speed: 1,
        }
    }

    /// Takes the autoscroll settings of the options.
    pub fn configure(&mut self, options: &crate::viewport::Options)
        ensures
            final(self).wf(),
            *final(self) == (FileView {
                auto_scroll_enabled: options.auto_scroll,
                scroll_speed: options.scroll_speed.spec_index() as usize,
                ..*old(self)
            }),
    {
        self.auto_scroll_enabled = options.auto_scroll;
        self.scroll_speed = options.scroll_speed.index();
    }

    pub fn get_path(&self) -> (path: String)
        ensures
            path@ == self.path_text(),
    {
        self.path.clone()
    }

    /// The parent of the listed folder, if it has one.
    pub fn parent_path(&self) -> (parent: Option<String>)
        ensures
            match parent {
                Some(text) => path_parent(self.path_text()) == Some(text@),
                None => path_parent(self.path_text()) is None,
            },
    {
        parent_of(self.path.as_str())
    }

    /// Lists `path`, whose entries are `files`. See [`FileView::refresh`].
    pub fn set_path(&mut self, path: String, files: Vec<FileEntry>) -> (message: Option<Message>)
        ensures
            final(self).path_text() == path@,
            final(self).refreshed_from(*old(self), files, message),
    {
        self.path = path;
        self.refresh(files)
    }

    /// What a refresh leaves: the new entries, no selection, everything
    /// else as before; and the message that selects the first entry whose
    /// name is the one to select, if there is one.
    pub open spec fn refreshed_from(
        &self,
        before: FileView,
        files: Vec<FileEntry>,
        message: Option<Message>,
    ) -> bool {
        &&& self.files == files
        &&& self.selected_file is None
        &&& self.scroll_pos == before.scroll_pos
        &&& self.auto_scroll_enabled == before.auto_scroll_enabled
        &&& self.scroll_speed == before.scroll_speed
        &&& self.filter == before.filter
        &&& self.pre_select_file == before.pre_select_file
        &&& match message {
            Some(Message::Select(index, force)) => {
                &&& !force
                &&& index < files@.len()
                &&& before.pre_select() is Some
                &&& path_file_name(files@[index as int].path@) == before.pre_select()
                &&& forall|j: int|
                    0 <= j < index ==> path_file_name((#[trigger] files@[j]).path@)
                        != before.pre_select()
            },
            Some(_) => false,
            None => before.pre_select() is None || forall|j: int|
                0 <= j < files@.len() ==> path_file_name((#[trigger] files@[j]).path@)
                    != before.pre_select(),
        }
    }

    /// Takes the entries that listing the path has given; an unreadable
    /// folder or archive gives none. The selection is dropped.
    pub fn refresh(&mut self, files: Vec<FileEntry>) -> (message: Option<Message>)
        ensures
            final(self).path_text() == old(self).path_text(),
            final(self).refreshed_from(*old(self), files, message),
    {
        self.files = files;
        self.selected_file = None;
        let ghost now = *self;
        if let Some(name) = &self.pre_select_file {
            let wanted = to_chars(name.as_str());
            let mut i: usize = 0;
            while i < self.files.len()
                invariant
                    *self == now,
                    now == (FileView { files, selected_file: None, ..*old(self) }),
                    now.pre_select_file == Some(*name),
                    i <= self.files@.len(),
                    wanted@ == name@,
                    forall|j: int|
                        0 <= j < i ==> path_file_name((#[trigger] self.files@[j]).path@) != Some(
                            name@,
                        ),
                decreases self.files@.len() - i,
            {
                if let Some(file_name) = file_name_of(self.files[i].path.as_str()) {
                    if spells(&wanted, file_name.as_str()) {
                        return Some(Message::Select(i, false));
                    }
                }
                i += 1;
            }
        }
        None
    }

    /// The indices of the entries that pass the filter, in order.
    pub fn visible_entries(&self) -> (indices: Vec<usize>)
        ensures
            indices@ == self.visible(),
    {
        let filter = to_chars(crate::text::lowercase(self.filter.as_str()).as_str());
        let mut indices: Vec<usize> = Vec::new();
        let mut i: usize = 0;
        while i < self.files.len()
            invariant
                i <= self.files@.len(),
                filter@ == crate::text::lowercased(self.filter@),
                indices@ == matching(self.files@, filter@, i as int),
            decreases self.files@.len() - i,
        {
            let entry = &self.files[i];
            let mut passes = filter.len() == 0;
            if !passes {
                if let Some(sauce) = &entry.sauce {
                    let title = to_chars(crate::text::lowercase(sauce.title.as_str()).as_str());
                    passes = contains(&title, &filter);
                }
            }
            if !passes {
                let path = to_chars(crate::text::lowercase(entry.path.as_str()).as_str());
                passes = contains(&path, &filter);
            }
            if passes {
                indices.push(i);
            }
            i += 1;
        }
        indices
    }
}


/// The keys of the browser that went down in a frame.
#[derive(Clone, Copy, Debug, PartialEq, Eq, Structural)]
pub struct Keys {
    pub arrow_up: bool,
    pub arrow_down: bool,
    pub page_up: bool,
    pub page_down: bool,
    pub home: bool,
    pub end: bool,
    pub enter: bool,
    pub f1: bool,
    pub f2: bool,
    pub f3: bool,
    pub f4: bool,
}

/// What the user did to the browser in one frame.
#[derive(Clone, Copy, Debug, PartialEq, Eq, Structural)]
pub struct UiInput {
    /// The browser takes keys: no dialog is open.
    pub enabled: bool,
    /// The browser runs as a file chooser, with buttons to open and cancel.
    pub file_chooser: bool,
    pub parent_clicked: bool,
    pub refresh_clicked: bool,
    pub auto_scroll_clicked: bool,
    pub scroll_speed_clicked: bool,
    /// The entry whose row was clicked.
    pub clicked: Option<usize>,
    /// The entry whose row was clicked twice.
    pub double_clicked: Option<usize>,
    pub open_clicked: bool,
    pub cancel_clicked: bool,
    pub keys: Keys,
    /// The alternate modifier is held.
    pub alt: bool,
    /// No modifier is held.
    pub no_modifiers: bool,
    /// Number of rows that the list shows at a time.
    pub page_size: usize,
}

/// The first position among the first `n` at which `index` stands.
pub open spec fn position_of(indices: Seq<usize>, index: usize, n: int) -> Option<int>
    decreases n,
{
    if n <= 0 {
        None
    } else {
        match position_of(indices, index, n - 1) {
            Some(at) => Some(at),
            None => if indices[n - 1] == index {
                Some(n - 1)
            } else {
                None
            },
        }
    }
}

/// A position found among the first `n` is the position among any more.
pub proof fn lemma_position_stays(indices: Seq<usize>, index: usize, n: int, m: int)
    requires
        0 <= n <= m,
        position_of(indices, index, n) is Some,
    ensures
        position_of(indices, index, m) == position_of(indices, index, n),
    decreases m,
{
    if m > n {
        lemma_position_stays(indices, index, n, m - 1);
    }
}

/// The message of the buttons and rows, where no key gives one. Later
/// items of this list win over earlier ones: parent folder, refresh,
/// autoscroll, scroll speed, a click on a row, a double click on a row, and
/// in a file chooser the buttons to open the selection and to cancel.
pub open spec fn pointer_message(selected: Option<usize>, input: UiInput) -> Option<Message> {
    if input.file_chooser && input.cancel_clicked {
        Some(Message::Cancel)
    } else if input.file_chooser && input.open_clicked && selected is Some {
        Some(Message::Open(selected->0))
    } else if input.double_clicked is Some {
        Some(Message::Open(input.double_clicked->0))
    } else if input.clicked is Some {
        Some(Message::Select(input.clicked->0, false))
    } else if input.scroll_speed_clicked {
        Some(Message::ChangeScrollSpeed)
    } else if input.auto_scroll_clicked {
        Some(Message::ToggleAutoScroll)
    } else if input.refresh_clicked {
        Some(Message::Refresh)
    } else if input.parent_clicked {
        Some(Message::ParentFolder)
    } else {
        None
    }
}

/// The message of the keys that need no selection: help, autoscroll, scroll
/// speed and parent folder; the function keys win in rising order.
pub open spec fn function_key_message(input: UiInput) -> Option<Message> {
    if input.keys.f3 {
        Some(Message::ChangeScrollSpeed)
    } else if input.keys.f2 {
        Some(Message::ToggleAutoScroll)
    } else if input.keys.f1 {
        Some(Message::ShowHelpDialog)
    } else if input.keys.page_up && input.alt {
        Some(Message::ParentFolder)
    } else {
        None
    }
}

/// The message of the keys that move from the selected entry, which stands
/// at position `at` among the visible ones. The keys move within the
/// visible entries; a page is as many rows as the list shows.
pub open spec fn move_message(
    selected: usize,
    visible: Seq<usize>,
    at: int,
    input: UiInput,
) -> Option<Message> {
    let last = visible.len() - 1;
    if input.keys.page_down && input.no_modifiers {
        Some(
            Message::Select(
                visible[if at + input.page_size < last {
                    at + input.page_size
                } else {
                    last
                }],
                false,
            ),
        )
    } else if input.keys.page_up && input.no_modifiers {
        Some(
            Message::Select(
                visible[if at >= input.page_size {
                    at - input.page_size
                } else {
                    0
                }],
                false,
            ),
        )
    } else if input.keys.end && input.no_modifiers {
        Some(Message::Select(visible[last], false))
    } else if input.keys.home && input.no_modifiers {
        Some(Message::Select(visible[0], false))
    } else if input.keys.enter {
        Some(Message::Open(selected))
    } else if input.keys.arrow_down && input.no_modifiers && at + 1 < visible.len() {
        Some(Message::Select(visible[at + 1], false))
    } else if input.keys.arrow_up && input.no_modifiers && at > 0 {
        Some(Message::Select(visible[at - 1], false))
    } else {
        None
    }
}

/// The message of the keys where nothing is selected and there are `count`
/// entries: the end key selects the last entry, the other keys that move
/// select the first.
pub open spec fn first_move_message(count: int, input: UiInput) -> Option<Message> {
    if count == 0 {
        None
    } else if input.keys.end {
        Some(Message::Select((count - 1) as usize, false))
    } else if input.keys.home || input.keys.arrow_up || input.keys.arrow_down || input.keys.page_up
        || input.keys.page_down {
        Some(Message::Select(0, false))
    } else {
        None
    }
}

/// The message of the keys.
pub open spec fn key_message(
    selected: Option<usize>,
    visible: Seq<usize>,
    count: int,
    input: UiInput,
) -> Option<Message> {
    let moved = match selected {
        Some(index) => {
            let at = position_of(visible, index, visible.len() as int);
            let by_move = if at is Some {
                move_message(index, visible, at->0, input)
            } else {
                None
            };
            if by_move is Some {
                by_move
            } else if input.keys.f4 {
                Some(Message::ShowSauce(index))
            } else {
                None
            }
        },
        None => first_move_message(count, input),
    };
    if moved is Some {
        moved
    } else {
        function_key_message(input)
    }
}

/// The message of a frame: that of the keys where the browser takes keys
/// and a key gives one, else that of the buttons and rows.
pub open spec fn frame_message(
    selected: Option<usize>,
    visible: Seq<usize>,
    count: int,
    input: UiInput,
) -> Option<Message> {
    let by_key = if input.enabled {
        key_message(selected, visible, count, input)
    } else {
        None
    };
    if by_key is Some {
        by_key
    } else {
        pointer_message(selected, input)
    }
}

fn find_position(indices: &Vec<usize>, index: usize) -> (at: Option<usize>)
    ensures
        match at {
            Some(at) => position_of(indices@, index, indices@.len() as int) == Some(at as int) && at
                < indices@.len(),
            None => position_of(indices@, index, indices@.len() as int) is None,
        },
{
    let mut i: usize = 0;
    while i < indices.len()
        invariant
            i <= indices@.len(),
            position_of(indices@, index, i as int) is None,
        decreases indices@.len() - i,
    {
        if indices[i] == index {
            proof {
                assert(position_of(indices@, index, i + 1) == Some(i as int));
                lemma_position_stays(indices@, index, i + 1, indices@.len() as int);
            }
            return Some(i);
        }
        i += 1;
    }
    None
}

impl FileView {
    /// The message that one frame of input yields: see [`frame_message`].
    pub fn show_ui(&self, input: &UiInput) -> (message: Option<Message>)
        ensures
            message == frame_message(
                self.selected_file,
                self.visible(),
                self.files@.len() as int,
                *input,
            ),
    {
        if input.enabled {
            let by_key = self.key_command(input);
            if by_key.is_some() {
                return by_key;
            }
        }
        if input.file_chooser && input.cancel_clicked {
            return Some(Message::Cancel);
        }
        if input.file_chooser && input.open_clicked {
            if let Some(selected) = self.selected_file {
                return Some(Message::Open(selected));
            }
        }
        if let Some(row) = input.double_clicked {
            return Some(Message::Open(row));
        }
        if let Some(row) = input.clicked {
            return Some(Message::Select(row, false));
        }
        if input.scroll_speed_clicked {
            return Some(Message::ChangeScrollSpeed);
        }
        if input.auto_scroll_clicked {
            return Some(Message::ToggleAutoScroll);
        }
        if input.refresh_clicked {
            return Some(Message::Refresh);
        }
        if input.parent_clicked {
            return Some(Message::ParentFolder);
        }
        None
    }

    /// The message that the keys of one frame yield: see [`key_message`].
    pub fn key_command(&self, input: &UiInput) -> (message: Option<Message>)
        ensures
            message == key_message(
                self.selected_file,
                self.visible(),
                self.files@.len() as int,
                *input,
            ),
    {
        let keys = input.keys;
        match self.selected_file {
            Some(selected) => {
                let visible = self.visible_entries();
                if let Some(at) = find_position(&visible, selected) {
                    let last = visible.len() - 1;
                    if keys.page_down && input.no_modifiers {
                        let target = if input.page_size < last - at {
                            at + input.page_size
                        } else {
                            last
                        };
                        return Some(Message::Select(visible[target], false));
                    }
                    if keys.page_up && input.no_modifiers {
                        let target = if at >= input.page_size {
                            at - input.page_size
                        } else {
                            0
                        };
                        return Some(Message::Select(visible[target], false));
                    }
                    if keys.end && input.no_modifiers {
                        return Some(Message::Select(visible[last], false));
                    }
                    if keys.home && input.no_modifiers {
                        return Some(Message::Select(visible[0], false));
                    }
                    if keys.enter {
                        return Some(Message::Open(selected));
                    }
                    if keys.arrow_down && input.no_modifiers && at < last {
                        return Some(Message::Select(visible[at + 1], false));
                    }
                    if keys.arrow_up && input.no_modifiers && at > 0 {
                        return Some(Message::Select(visible[at - 1], false));
                    }
                }
                if keys.f4 {
                    return Some(Message::ShowSauce(selected));
                }
            },
            None => {
                if self.files.len() > 0 {
                    if keys.end {
                        return Some(Message::Select(self.files.len() - 1, false));
                    }
                    if keys.home || keys.arrow_up || keys.arrow_down || keys.page_up
                        || keys.page_down {
                        return Some(Message::Select(0, false));
                    }
                }
            },
        }
        if keys.f3 {
            return Some(Message::ChangeScrollSpeed);
        }
        if keys.f2 {
            return Some(Message::ToggleAutoScroll);
        }
        if keys.f1 {
            return Some(Message::ShowHelpDialog);
        }
        if keys.page_up && input.alt {
            return Some(Message::ParentFolder);
        }
        None
    }
}

} // verus!
