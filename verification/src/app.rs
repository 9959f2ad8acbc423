//! Viewer state for popups: help, file path (with copy to clipboard) and the
//! editor picker.
//!
//! Clipboard access and path resolution are done by the caller; the state
//! records what they reported.

use std::time::Instant;
use vstd::prelude::*;

use crate::chars::{chars_of, string_of};
use crate::clock::instant_now;
use crate::editor::{binary_name, program_of, EditorEntry};

verus! {

/// Which form of the file path a popup action concerns.
#[derive(Clone, Copy, Debug, PartialEq, Eq, Structural)]
pub enum PathKind {
    Relative,
    Absolute,
}

/// The message shown after an attempt to copy the file path.
#[derive(Clone, Copy, Debug, PartialEq, Eq, Structural)]
pub enum PathFlash {
    RelativeCopied,
    AbsoluteCopied,
    CopyFailed,
}

/// A rectangle of the screen, in cells.
#[derive(Clone, Copy, Debug, PartialEq, Eq, Structural)]
pub struct PopupArea {
    pub x: u16,
    pub y: u16,
    pub width: u16,
    pub height: u16,
}

/// The editor picker: whether it is open, the editors found, and the one selected.
pub struct EditorPickerState {
    pub(crate) open: bool,
    pub(crate) editors: Vec<EditorEntry>,
    pub(crate) index: usize,
}

/// The viewer's popup state.
pub struct App {
    filepath: Option<String>,
    help_open: bool,
    path_popup_open: bool,
    path_popup_hover: Option<PathKind>,
    path_popup_rel_area: Option<PopupArea>,
    path_popup_abs_area: Option<PopupArea>,
    path_copy_flash: Option<(PathKind, bool, Instant)>,
    path_flash: Option<(PathFlash, Instant)>,
    file_picker_open: bool,
    theme_picker_open: bool,
    picker_loading: bool,
    picker_load_failed: bool,
    editor_picker: EditorPickerState,
    editor_config: Option<String>,
}

/// An editor as plain values: its name and its command.
pub open spec fn entry_view(e: EditorEntry) -> (Seq<char>, Seq<char>) {
    (e.name@, e.command@)
}

/// The characters of an optional string.
pub open spec fn opt_chars(s: Option<String>) -> Option<Seq<char>> {
    match s {
        Some(t) => Some(t@),
        None => None,
    }
}

/// The popup state, as plain values.
pub struct AppModel {
    pub filepath: Option<Seq<char>>,
    pub help_open: bool,
    pub path_popup_open: bool,
    pub path_popup_hover: Option<PathKind>,
    pub path_popup_rel_area: Option<PopupArea>,
    pub path_popup_abs_area: Option<PopupArea>,
    pub path_copy_flash: Option<(PathKind, bool, Instant)>,
    pub path_flash: Option<(PathFlash, Instant)>,
    pub file_picker_open: bool,
    pub theme_picker_open: bool,
    pub picker_loading: bool,
    pub picker_load_failed: bool,
    pub editor_picker_open: bool,
    pub editors: Seq<(Seq<char>, Seq<char>)>,
    pub editor_index: usize,
    pub editor_config: Option<Seq<char>>,
}

impl View for App {
    type V = AppModel;

    closed spec fn view(&self) -> AppModel {
        AppModel {
            filepath: opt_chars(self.filepath),
            help_open: self.help_open,
            path_popup_open: self.path_popup_open,
            path_popup_hover: self.path_popup_hover,
            path_popup_rel_area: self.path_popup_rel_area,
            path_popup_abs_area: self.path_popup_abs_area,
            path_copy_flash: self.path_copy_flash,
            path_flash: self.path_flash,
            file_picker_open: self.file_picker_open,
            theme_picker_open: self.theme_picker_open,
            picker_loading: self.picker_loading,
            picker_load_failed: self.picker_load_failed,
            editor_picker_open: self.editor_picker.open,
            editors: self.editor_picker.editors@.map_values(|e: EditorEntry| entry_view(e)),
            editor_index: self.editor_picker.index,
            editor_config: opt_chars(self.editor_config),
        }
    }
}

/// The text shown for the file path when the document came from stdin.
pub open spec fn stdin_label() -> Seq<char> {
    seq!['(', 's', 't', 'd', 'i', 'n', ')']
}

/// The Windows verbatim prefix `\\?\`.
pub open spec fn verbatim_prefix() -> Seq<char> {
    seq!['\\', '\\', '?', '\\']
}

/// `path` without a leading verbatim prefix.
pub open spec fn strip_verbatim(path: Seq<char>) -> Seq<char> {
    if path.len() >= 4 && path.take(4) == verbatim_prefix() {
        path.skip(4)
    } else {
        path
    }
}

/// Whether some popup or picker takes the input.
pub open spec fn popup_open(m: AppModel) -> bool {
    m.help_open || m.path_popup_open || m.file_picker_open || m.theme_picker_open
        || m.editor_picker_open || m.picker_loading || m.picker_load_failed
}

/// The selection after moving up among `n` editors: the previous one,
/// wrapping from the first to the last (unchanged when there are none).
pub open spec fn select_prev(index: usize, n: nat) -> usize {
    if n > 0 {
        ((index + n - 1) % (n as int)) as usize
    } else {
        index
    }
}

/// The selection after moving down among `n` editors: the next one, wrapping
/// from the last to the first (unchanged when there are none).
pub open spec fn select_next(index: usize, n: nat) -> usize {
    if n > 0 {
        ((index + 1) % (n as int)) as usize
    } else {
        index
    }
}

/// Moving down and then up in the editor picker, or up and then down,
/// returns to the editor selected before.
pub proof fn law_select_next_prev_inverse(index: usize, n: nat)
    requires
        index < n,
        n <= usize::MAX,
    ensures
        select_prev(select_next(index, n), n) == index,
        select_next(select_prev(index, n), n) == index,
{
    let i = index as int;
    let k = n as int;
    assert(((i + 1) % k + k - 1) % k == i) by (nonlinear_arith)
        requires
            0 <= i < k,
    {
        if i + 1 < k {
            assert((i + 1) % k == i + 1);
        } else {
            assert((i + 1) % k == 0);
        }
    }
    assert(((i + k - 1) % k + 1) % k == i) by (nonlinear_arith)
        requires
            0 <= i < k,
    {
        if i > 0 {
            assert((i + k - 1) % k == i - 1);
        } else {
            assert((i + k - 1) % k == k - 1);
        }
    }
}

/// The position of the first editor whose program is `program`, if any.
pub open spec fn first_with_program(editors: Seq<(Seq<char>, Seq<char>)>, program: Seq<char>) -> Option<int>
    decreases editors.len(),
{
    if editors.len() == 0 {
        None
    } else if program_of(editors[0].1) == program {
        Some(0)
    } else {
        match first_with_program(editors.drop_first(), program) {
            Some(i) => Some(i + 1),
            None => None,
        }
    }
}

/// The editor selected when the picker opens: the first one that starts the
/// same program as the configured editor, else the first one.
pub open spec fn initial_index(editors: Seq<(Seq<char>, Seq<char>)>, config: Option<Seq<char>>) -> int {
    match config {
        Some(c) => match first_with_program(editors, program_of(c)) {
            Some(i) => i,
            None => 0,
        },
        None => 0,
    }
}

proof fn lemma_first_with_program(editors: Seq<(Seq<char>, Seq<char>)>, program: Seq<char>, k: int)
    requires
        0 <= k <= editors.len(),
        forall|j: int| 0 <= j < k ==> program_of(#[trigger] editors[j].1) != program,
    ensures
        k < editors.len() && program_of(editors[k].1) == program ==> first_with_program(
            editors,
            program,
        ) == Some(k),
        k == editors.len() ==> first_with_program(editors, program) is None,
    decreases k,
{
    if k > 0 {
        lemma_first_with_program(editors.drop_first(), program, k - 1);
    }
}

impl App {
    /// A viewer of the file at `filepath` (`None` for stdin), with the
    /// configured editor command, and every popup closed.
    pub fn new(filepath: Option<String>, editor_config: Option<String>) -> (app: App)
        ensures
            app@.filepath == opt_chars(filepath),
            app@.editor_config == opt_chars(editor_config),
            !popup_open(app@),
            app@.path_popup_hover is None,
            app@.path_popup_rel_area is None,
            app@.path_popup_abs_area is None,
            app@.path_copy_flash is None,
            app@.path_flash is None,
            app@.editors.len() == 0,
            app@.editor_index == 0,
    {
        App {
            filepath,
            help_open: false,
            path_popup_open: false,
            path_popup_hover: None,
            path_popup_rel_area: None,
            path_popup_abs_area: None,
            path_copy_flash: None,
            path_flash: None,
            file_picker_open: false,
            theme_picker_open: false,
            picker_loading: false,
            picker_load_failed: false,
            editor_picker: EditorPickerState { open: false, editors: Vec::new(), index: 0 },
            editor_config,
        }
    }

    /// The file being viewed, or `None` for stdin.
    pub fn filepath(&self) -> (p: Option<&str>)
        ensures
            match p {
                Some(s) => self@.filepath == Some(s@),
                None => self@.filepath is None,
            },
    {
        match &self.filepath {
            Some(s) => Some(s.as_str()),
            None => None,
        }
    }

    /// Opens the help popup.
    pub fn open_help(&mut self)
        ensures
            final(self)@ == (AppModel { help_open: true, ..old(self)@ }),
    {
        self.help_open = true;
    }

    /// Closes the help popup.
    pub fn close_help(&mut self)
        ensures
            final(self)@ == (AppModel { help_open: false, ..old(self)@ }),
    {
        self.help_open = false;
    }

    /// Whether the help popup is open.
    pub fn is_help_open(&self) -> (b: bool)
        ensures
            b == self@.help_open,
    {
        self.help_open
    }

    /// Opens the file path popup.
    pub fn open_path_popup(&mut self)
        ensures
            final(self)@ == (AppModel { path_popup_open: true, ..old(self)@ }),
    {
        self.path_popup_open = true;
    }

    /// Closes the file path popup and forgets its hover, its areas and its
    /// copy message.
    pub fn close_path_popup(&mut self)
        ensures
            final(self)@ == (AppModel {
                path_popup_open: false,
                path_popup_hover: None,
                path_popup_rel_area: None,
                path_popup_abs_area: None,
                path_copy_flash: None,
                ..old(self)@
            }),
    {
        self.path_popup_open = false;
        self.path_popup_hover = None;
        self.path_popup_rel_area = None;
        self.path_popup_abs_area = None;
        self.path_copy_flash = None;
    }

    /// Whether the file path popup is open.
    pub fn is_path_popup_open(&self) -> (b: bool)
        ensures
            b == self@.path_popup_open,
    {
        self.path_popup_open
    }

    /// The absolute path shown in the popup: `"(stdin)"` without a file;
    /// otherwise `canonical` (the file path as the file system resolves it,
    /// or as given when it cannot be resolved) without a verbatim `\\?\` prefix.
    pub fn absolute_path_string(&self, canonical: &str) -> (s: String)
        ensures
            self@.filepath is None ==> s@ == stdin_label(),
            self@.filepath is Some ==> s@ == strip_verbatim(canonical@),
    {
        if self.filepath.is_none() {
            let mut s = String::new();
            crate::chars::push_char(&mut s, '(');
            crate::chars::push_char(&mut s, 's');
            crate::chars::push_char(&mut s, 't');
            crate::chars::push_char(&mut s, 'd');
            crate::chars::push_char(&mut s, 'i');
            crate::chars::push_char(&mut s, 'n');
            crate::chars::push_char(&mut s, ')');
            assert(s@ =~= stdin_label());
            return s;
        }
        let chars = chars_of(canonical);
        if chars.len() >= 4 && chars[0] == '\\' && chars[1] == '\\' && chars[2] == '?' && chars[3]
            == '\\' {
            assert(chars@.take(4) =~= verbatim_prefix());
            let s = string_of(chars.as_slice(), 4, chars.len());
            assert(chars@.subrange(4, chars@.len() as int) =~= chars@.skip(4));
            s
        } else {
            assert(chars@.len() >= 4 ==> chars@.take(4)[0] == chars@[0] && chars@.take(4)[1]
                == chars@[1] && chars@.take(4)[2] == chars@[2] && chars@.take(4)[3] == chars@[3]);
            let s = string_of(chars.as_slice(), 0, chars.len());
            assert(chars@.subrange(0, chars@.len() as int) =~= chars@);
            s
        }
    }

    /// Records the outcome of copying the relative path (`copied` tells
    /// whether the clipboard took it), stamped with the current time.
    pub fn copy_path_relative(&mut self, copied: bool)
        ensures
            final(self)@.path_copy_flash is Some,
            final(self)@.path_copy_flash.unwrap().0 == PathKind::Relative,
            final(self)@.path_copy_flash.unwrap().1 == copied,
            final(self)@ == (AppModel {
                path_copy_flash: final(self)@.path_copy_flash,
                ..old(self)@
            }),
    {
        self.path_copy_flash = Some((PathKind::Relative, copied, instant_now()));
    }

    /// Records the outcome of copying the absolute path (`copied` tells
    /// whether the clipboard took it), stamped with the current time.
    pub fn copy_path_absolute(&mut self, copied: bool)
        ensures
            final(self)@.path_copy_flash is Some,
            final(self)@.path_copy_flash.unwrap().0 == PathKind::Absolute,
            final(self)@.path_copy_flash.unwrap().1 == copied,
            final(self)@ == (AppModel {
                path_copy_flash: final(self)@.path_copy_flash,
                ..old(self)@
            }),
    {
        self.path_copy_flash = Some((PathKind::Absolute, copied, instant_now()));
    }

    /// The outcome of the latest path copy from the popup, if any.
    pub fn path_copy_flash(&self) -> (f: Option<&(PathKind, bool, Instant)>)
        ensures
            match f {
                Some(v) => self@.path_copy_flash == Some(*v),
                None => self@.path_copy_flash is None,
            },
    {
        self.path_copy_flash.as_ref()
    }

    /// Shows the given path message, stamped with the current time.
    pub fn set_path_flash(&mut self, flash: PathFlash)
        ensures
            final(self)@.path_flash is Some,
            final(self)@.path_flash.unwrap().0 == flash,
            final(self)@ == (AppModel { path_flash: final(self)@.path_flash, ..old(self)@ }),
    {
        self.path_flash = Some((flash, instant_now()));
    }

    /// The path message shown, if any.
    pub fn path_flash(&self) -> (f: Option<PathFlash>)
        ensures
            match f {
                Some(v) => self@.path_flash is Some && self@.path_flash.unwrap().0 == v,
                None => self@.path_flash is None,
            },
    {
        match &self.path_flash {
            Some(pair) => Some(pair.0),
            None => None,
        }
    }

    /// Shows the message for copying the relative path: copied, or failed.
    pub fn copy_path_to_clipboard_relative(&mut self, copied: bool)
        ensures
            final(self)@.path_flash is Some,
            final(self)@.path_flash.unwrap().0 == if copied {
                PathFlash::RelativeCopied
            } else {
                PathFlash::CopyFailed
            },
            final(self)@ == (AppModel { path_flash: final(self)@.path_flash, ..old(self)@ }),
    {
        if copied {
            self.set_path_flash(PathFlash::RelativeCopied);
        } else {
            self.set_path_flash(PathFlash::CopyFailed);
        }
    }

    /// Shows the message for copying the absolute path: copied, or failed.
    pub fn copy_path_to_clipboard_absolute(&mut self, copied: bool)
        ensures
            final(self)@.path_flash is Some,
            final(self)@.path_flash.unwrap().0 == if copied {
                PathFlash::AbsoluteCopied
            } else {
                PathFlash::CopyFailed
            },
            final(self)@ == (AppModel { path_flash: final(self)@.path_flash, ..old(self)@ }),
    {
        if copied {
            self.set_path_flash(PathFlash::AbsoluteCopied);
        } else {
            self.set_path_flash(PathFlash::CopyFailed);
        }
    }

    /// Whether the file picker is still loading.
    pub fn is_picker_loading(&self) -> (b: bool)
        ensures
            b == self@.picker_loading,
    {
        self.picker_loading
    }

    /// Whether loading the file picker failed.
    pub fn is_picker_load_failed(&self) -> (b: bool)
        ensures
            b == self@.picker_load_failed,
    {
        self.picker_load_failed
    }

    /// Whether any popup or picker is open, loading, or showing a load failure.
    pub fn is_popup_open(&self) -> (b: bool)
        ensures
            b == popup_open(self@),
    {
        self.help_open || self.path_popup_open || self.file_picker_open || self.theme_picker_open
            || self.editor_picker.open || self.is_picker_loading() || self.is_picker_load_failed()
    }

    /// Opens the editor picker over the editors found on the system, with the
    /// first one that starts the same program as the configured editor selected
    /// (else the first one).
    pub fn open_editor_picker(&mut self, editors: Vec<EditorEntry>)
        ensures
            final(self)@ == (AppModel {
                editor_picker_open: true,
                editors: editors@.map_values(|e: EditorEntry| entry_view(e)),
                editor_index: initial_index(
                    editors@.map_values(|e: EditorEntry| entry_view(e)),
                    old(self)@.editor_config,
                ) as usize,
                ..old(self)@
            }),
    {
        let ghost ev = editors@.map_values(|e: EditorEntry| entry_view(e));
        let mut index: usize = 0;
        match &self.editor_config {
            Some(config) => {
                let current = binary_name(config.as_str());
                let mut i: usize = 0;
                let mut found = false;
                while i < editors.len() && !found
                    invariant
                        i <= editors@.len(),
                        ev == editors@.map_values(|e: EditorEntry| entry_view(e)),
                        current@ == program_of(config@),
                        forall|j: int| 0 <= j < i ==> program_of(#[trigger] ev[j].1) != current@,
                        found ==> i < editors@.len() && program_of(ev[i as int].1) == current@,
                    decreases editors.len() - i + if found { 0int } else { 1int },
                {
                    let name = binary_name(editors[i].command.as_str());
                    assert(ev[i as int].1 == editors@[i as int].command@);
                    if name == current {
                        found = true;
                    } else {
                        i = i + 1;
                    }
                }
                proof {
                    lemma_first_with_program(ev, current@, i as int);
                }
                if i < editors.len() {
                    index = i;
                }
            },
            None => {},
        }
        self.editor_picker.editors = editors;
        self.editor_picker.index = index;
        self.editor_picker.open = true;
    }

    /// Closes the editor picker and makes the selected editor the configured one.
    pub fn close_editor_picker(&mut self)
        ensures
            final(self)@ == (AppModel {
                editor_picker_open: false,
                editor_config: if old(self)@.editor_index < old(self)@.editors.len() {
                    Some(old(self)@.editors[old(self)@.editor_index as int].1)
                } else {
                    old(self)@.editor_config
                },
                ..old(self)@
            }),
    {
        if self.editor_picker.index < self.editor_picker.editors.len() {
            let command = self.editor_picker.editors[self.editor_picker.index].command.clone();
            self.editor_config = Some(command);
        }
        self.editor_picker.open = false;
    }

    /// Closes the editor picker without changing the configured editor.
    pub fn cancel_editor_picker(&mut self)
        ensures
            final(self)@ == (AppModel { editor_picker_open: false, ..old(self)@ }),
    {
        self.editor_picker.open = false;
    }

    /// Whether the editor picker is open.
    pub fn is_editor_picker_open(&self) -> (b: bool)
        ensures
            b == self@.editor_picker_open,
    {
        self.editor_picker.open
    }

    /// Selects the previous editor, wrapping from the first to the last.
    pub fn move_editor_picker_up(&mut self)
        ensures
            final(self)@ == (AppModel {
                editor_index: select_prev(old(self)@.editor_index, old(self)@.editors.len()),
                ..old(self)@
            }),
    {
        let len = self.editor_picker.editors.len();
        if len > 0 {
            let i = self.editor_picker.index % len;
            let next = if i == 0 { len - 1 } else { i - 1 };
            proof {
                let n = len as int;
                let x = self.editor_picker.index as int;
                assert((x + n - 1) % n == next) by (nonlinear_arith)
                    requires
                        n > 0,
                        x >= 0,
                        i == x % n,
                        next == if i == 0 { n - 1 } else { i - 1 },
                ;
            }
            self.editor_picker.index = next;
        }
    }

    /// Selects the next editor, wrapping from the last to the first.
    pub fn move_editor_picker_down(&mut self)
        ensures
            final(self)@ == (AppModel {
                editor_index: select_next(old(self)@.editor_index, old(self)@.editors.len()),
                ..old(self)@
            }),
    {
        let len = self.editor_picker.editors.len();
        if len > 0 {
            let i = self.editor_picker.index % len;
            let next = if i + 1 == len { 0 } else { i + 1 };
            proof {
                let n = len as int;
                let x = self.editor_picker.index as int;
                assert((x + 1) % n == next) by (nonlinear_arith)
                    requires
                        n > 0,
                        x >= 0,
                        i == x % n,
                        next == if i + 1 == n { 0 } else { i + 1 },
                ;
            }
            self.editor_picker.index = next;
        }
    }

    /// The position of the selected editor.
    pub fn editor_picker_index(&self) -> (i: usize)
        ensures
            i == self@.editor_index,
    {
        self.editor_picker.index
    }

    /// The editors offered by the picker.
    pub fn editor_picker_entries(&self) -> (e: &[EditorEntry])
        ensures
            e@.map_values(|x: EditorEntry| entry_view(x)) == self@.editors,
    {
        self.editor_picker.editors.as_slice()
    }
}

/// When the configured command starts the program of some editor, the
/// picker opens on the first such editor (entry `k`), compared by program
/// and not by the command as written: so `"vim"` and `"/usr/bin/vim -p"`
/// open it on the same entry.
pub proof fn law_picker_opens_on_configured_program(
    editors: Seq<(Seq<char>, Seq<char>)>,
    config: Seq<char>,
    other: Seq<char>,
    k: int,
)
    requires
        0 <= k < editors.len(),
        program_of(editors[k].1) == program_of(config),
        forall|j: int| 0 <= j < k ==> program_of(#[trigger] editors[j].1) != program_of(config),
    ensures
        initial_index(editors, Some(config)) == k,
        program_of(other) == program_of(config) ==> initial_index(editors, Some(other)) == k,
{
    lemma_first_with_program(editors, program_of(config), k);
}

/// When no editor starts the configured program, or nothing is configured,
/// the picker opens on the first editor; two configured commands that start
/// the same program always open it on the same entry.
pub proof fn law_picker_opens_by_program_only(
    editors: Seq<(Seq<char>, Seq<char>)>,
    config: Seq<char>,
    other: Seq<char>,
)
    ensures
        (forall|j: int| 0 <= j < editors.len() ==> program_of(#[trigger] editors[j].1)
            != program_of(config)) ==> initial_index(editors, Some(config)) == 0,
        initial_index(editors, None) == 0,
        program_of(other) == program_of(config) ==> initial_index(editors, Some(other))
            == initial_index(editors, Some(config)),
{
    if forall|j: int| 0 <= j < editors.len() ==> program_of(#[trigger] editors[j].1)
        != program_of(config) {
        lemma_first_with_program(editors, program_of(config), editors.len() as int);
    }
}

} // verus!
