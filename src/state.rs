use vstd::prelude::*;
use vstd::string::*;

use crate::open_files_data::{FileError, OpenFilesData, PendingWrite, ReadOutcome};
use crate::scroll::{scroll_outcome, scroll_step, Overshoot};
use crate::text::{count_lines, file_name_of, join, joined, line_len, line_length, lines};

verus! {

/// Why a scroll was refused.
#[derive(Clone, Copy, Debug, PartialEq, Eq, Structural)]
pub enum ScrollError {
    PastEnd,
    PastStart,
    PastEndOfLine,
    PastStartOfLine,
}

impl ScrollError {
    /// The message that reports the refusal.
    pub open spec fn spec_message(self) -> Seq<char> {
        match self {
            ScrollError::PastEnd => "Cannot scroll past end of file"@,
            ScrollError::PastStart => "Cannot scroll past start of file"@,
            ScrollError::PastEndOfLine => "Cannot scroll past end of line"@,
            ScrollError::PastStartOfLine => "Cannot scroll past start of line"@,
        }
    }

    /// The message that reports the refusal.
    pub fn message(&self) -> (r: String)
        ensures
            r@ == self.spec_message(),
    {
        String::from_str(
            match self {
                ScrollError::PastEnd => "Cannot scroll past end of file",
                ScrollError::PastStart => "Cannot scroll past start of file",
                ScrollError::PastEndOfLine => "Cannot scroll past end of line",
                ScrollError::PastStartOfLine => "Cannot scroll past start of line",
            },
        )
    }
}

/// The editing session: not ready yet, or ready with its open files.
#[derive(Debug)]
pub enum AppState {
    Init,
    Initialized {
        write_mode: bool,
        /// Horizontal and vertical offset of the view.
        scroll_offset: (u16, u16),
        files_data: OpenFilesData,
    },
}

/// What read-only display appends to the text.
pub open spec fn input_mode_suffix() -> Seq<char> {
    " (input mode)"@
}

impl AppState {
    pub open spec fn wf(&self) -> bool {
        match self {
            AppState::Init => true,
            AppState::Initialized { files_data, .. } => files_data.wf(),
        }
    }

    /// The text on display: the selected content, followed by the read-only
    /// marker outside write mode.
    pub open spec fn text(&self) -> Seq<char> {
        match self {
            AppState::Init => Seq::empty(),
            AppState::Initialized { write_mode, files_data, .. } => if *write_mode {
                files_data.selected_content()
            } else {
                files_data.selected_content() + input_mode_suffix()
            },
        }
    }

    /// The content of the selected buffer; empty before the session is ready.
    pub open spec fn content(&self) -> Seq<char> {
        match self {
            AppState::Init => Seq::empty(),
            AppState::Initialized { files_data, .. } => files_data.selected_content(),
        }
    }

    /// The horizontal and vertical offsets of the view.
    pub open spec fn offset(&self) -> (u16, u16) {
        match self {
            AppState::Init => (0, 0),
            AppState::Initialized { scroll_offset, .. } => *scroll_offset,
        }
    }

    /// A ready session with no file, outside write mode, unscrolled.
    pub fn initialized() -> (r: Self)
        ensures
            r.wf(),
            r matches AppState::Initialized { write_mode, scroll_offset, files_data } && !write_mode
                && scroll_offset == (0u16, 0u16) && files_data.contents().len() == 0
                && files_data.paths().len() == 0 && files_data.selected() == 0,
    {
        AppState::Initialized { write_mode: false, scroll_offset: (0, 0), files_data: OpenFilesData::new() }
    }

    pub fn is_initialized(&self) -> (r: bool)
        ensures
            r == self is Initialized,
    {
        match self {
            AppState::Init => false,
            AppState::Initialized { .. } => true,
        }
    }

    pub fn is_write_mode(&self) -> (r: bool)
        ensures
            r == (*self matches AppState::Initialized { write_mode, .. } && write_mode),
    {
        match self {
            AppState::Init => false,
            AppState::Initialized { write_mode, .. } => *write_mode,
        }
    }

    /// Turns write mode on or off; no effect before the session is ready.
    pub fn toggle_write_mode(&mut self, new_write_mode: bool)
        ensures
            match *old(self) {
                AppState::Init => *final(self) == *old(self),
                AppState::Initialized { scroll_offset, files_data, .. } => *final(self)
                    == AppState::Initialized { write_mode: new_write_mode, scroll_offset, files_data },
            },
    {
        if let AppState::Initialized { write_mode, .. } = self {
            *write_mode = new_write_mode;
        }
    }

    /// The text on display.
    pub fn get_text(&self) -> (r: String)
        ensures
            r@ == self.text(),
    {
        match self {
            AppState::Initialized { files_data, write_mode, .. } => {
                let out = files_data.get_currently_selected_file_content();
                if !*write_mode {
                    out.concat(" (input mode)")
                } else {
                    out
                }
            },
            AppState::Init => String::new(),
        }
    }

    /// Replaces the selected content; no effect before the session is ready.
    pub fn replace_text(&mut self, new_text: &str)
        requires
            old(self).wf(),
        ensures
            final(self).wf(),
            match (*old(self), *final(self)) {
                (AppState::Init, _) => *final(self) == *old(self),
                (
                    AppState::Initialized { write_mode: w0, scroll_offset: o0, files_data: f0 },
                    AppState::Initialized { write_mode: w1, scroll_offset: o1, files_data: f1 },
                ) => {
                    &&& w1 == w0
                    &&& o1 == o0
                    &&& f1.paths() == f0.paths()
                    &&& f1.selected() == f0.selected()
                    &&& f1.selected_content() == new_text@
                    &&& f0.contents().len() > 0 ==> f1.contents() == f0.contents().update(
                        f0.selected(),
                        new_text@,
                    )
                    &&& f0.contents().len() == 0 ==> f1.contents() == seq![new_text@]
                },
                _ => false,
            },
    {
        if let AppState::Initialized { files_data, .. } = self {
            files_data.replace_currently_selected_file_content(new_text);
        }
    }

    /// The selected file's path; `..loading..` before the session is ready.
    pub fn get_path(&self) -> (r: String)
        ensures
            match self {
                AppState::Init => r@ == "..loading.."@,
                AppState::Initialized { files_data, .. } => r@ == files_data.selected_path(),
            },
    {
        match self {
            AppState::Initialized { files_data, .. } => files_data.get_currently_selected_file_path(),
            AppState::Init => String::from_str("..loading.."),
        }
    }

    /// The names of all open files, separated by `, `; `..loading..` before
    /// the session is ready.
    pub fn get_all_open_file_names(&self) -> (r: String)
        ensures
            match self {
                AppState::Init => r@ == "..loading.."@,
                AppState::Initialized { files_data, .. } => r@ == joined(
                    files_data.paths().map_values(|p: Seq<char>| file_name_of(p)),
                    ", "@,
                ),
            },
    {
        match self {
            AppState::Initialized { files_data, .. } => {
                let names = files_data.get_open_file_names();
                join(&names, ", ")
            },
            AppState::Init => String::from_str("..loading.."),
        }
    }

    /// The horizontal and vertical offsets of the view.
    pub fn get_scroll_offset(&self) -> (r: (u16, u16))
        ensures
            r == self.offset(),
    {
        match self {
            AppState::Initialized { scroll_offset, .. } => *scroll_offset,
            AppState::Init => (0, 0),
        }
    }

    /// Moves the view `delta` lines down (up where negative), within the
    /// lines of the selected content; no effect before the session is ready.
    pub fn scroll_vertical(&mut self, delta: i32) -> (r: Result<(), ScrollError>)
        requires
            old(self).wf(),
        ensures
            final(self).wf(),
            *old(self) is Init ==> r is Ok && *final(self) == *old(self),
            *old(self) is Initialized ==> {
                let (x, y) = old(self).offset();
                match old(self).vertical_outcome(delta as int) {
                    Ok(y1) => r is Ok && final(self).offset() == (x, y1 as u16),
                    Err(e) => r == Err::<(), ScrollError>(
                        if e == Overshoot::PastEnd {
                            ScrollError::PastEnd
                        } else {
                            ScrollError::PastStart
                        },
                    ) && final(self).offset() == old(self).offset(),
                }
            },
            *old(self) matches AppState::Initialized { write_mode: w0, files_data: f0, .. } ==> (
            *final(self) matches AppState::Initialized { write_mode: w1, files_data: f1, .. }
                && w1 == w0 && f1 == f0),
    {
        if let AppState::Initialized { scroll_offset, files_data, .. } = self {
            let content = files_data.get_currently_selected_file_content();
            let (x, y) = *scroll_offset;
            match scroll_step(y, delta, count_lines(content.as_str())) {
                Ok(y1) => {
                    *scroll_offset = (x, y1);
                    Ok(())
                },
                Err(Overshoot::PastEnd) => Err(ScrollError::PastEnd),
                Err(Overshoot::PastStart) => Err(ScrollError::PastStart),
            }
        } else {
            Ok(())
        }
    }

    /// Moves the view `delta` characters right (left where negative), within
    /// the line of the selected content at the vertical offset; no effect
    /// before the session is ready.
    pub fn scroll_horizontal(&mut self, delta: i32) -> (r: Result<(), ScrollError>)
        requires
            old(self).wf(),
        ensures
            final(self).wf(),
            *old(self) is Init ==> r is Ok && *final(self) == *old(self),
            *old(self) is Initialized ==> {
                let (x, y) = old(self).offset();
                match old(self).horizontal_outcome(delta as int) {
                    Ok(x1) => r is Ok && final(self).offset() == (x1 as u16, y),
                    Err(e) => r == Err::<(), ScrollError>(
                        if e == Overshoot::PastEnd {
                            ScrollError::PastEndOfLine
                        } else {
                            ScrollError::PastStartOfLine
                        },
                    ) && final(self).offset() == old(self).offset(),
                }
            },
            *old(self) matches AppState::Initialized { write_mode: w0, files_data: f0, .. } ==> (
            *final(self) matches AppState::Initialized { write_mode: w1, files_data: f1, .. }
                && w1 == w0 && f1 == f0),
    {
        if let AppState::Initialized { scroll_offset, files_data, .. } = self {
            let content = files_data.get_currently_selected_file_content();
            let (x, y) = *scroll_offset;
            match scroll_step(x, delta, line_length(content.as_str(), y as usize)) {
                Ok(x1) => {
                    *scroll_offset = (x1, y);
                    Ok(())
                },
                Err(Overshoot::PastEnd) => Err(ScrollError::PastEndOfLine),
                Err(Overshoot::PastStart) => Err(ScrollError::PastStartOfLine),
            }
        } else {
            Ok(())
        }
    }

    /// Puts the view back at the start; no effect before the session is
    /// ready.
    pub fn reset_scroll(&mut self)
        ensures
            match *old(self) {
                AppState::Init => *final(self) == *old(self),
                AppState::Initialized { write_mode, files_data, .. } => *final(self)
                    == AppState::Initialized { write_mode, scroll_offset: (0u16, 0u16), files_data },
            },
    {
        if let AppState::Initialized { scroll_offset, .. } = self {
            *scroll_offset = (0, 0);
        }
    }
}

impl AppState {
    /// What a vertical scroll by `delta` gives: the new vertical offset, or
    /// why it is refused.
    pub open spec fn vertical_outcome(&self, delta: int) -> Result<int, Overshoot> {
        scroll_outcome(self.offset().1 as int, delta, lines(self.content()).len() as int)
    }

    /// What a horizontal scroll by `delta` gives: the new horizontal offset,
    /// or why it is refused.
    pub open spec fn horizontal_outcome(&self, delta: int) -> Result<int, Overshoot> {
        scroll_outcome(self.offset().0 as int, delta, line_len(self.content(), self.offset().1 as int) as int)
    }

    /// The open files, where the session is ready.
    pub open spec fn files(&self) -> Option<OpenFilesData> {
        match self {
            AppState::Init => None,
            AppState::Initialized { files_data, .. } => Some(*files_data),
        }
    }

    /// Whether the write mode flag is on.
    pub open spec fn writing(&self) -> bool {
        *self matches AppState::Initialized { write_mode, .. } && write_mode
    }

    /// Opens the file at `path`, given what reading it gave, and selects it
    /// with the view at its start.
    pub fn open_file(&mut self, path: &str, read: ReadOutcome) -> (r: Result<(), FileError>)
        requires
            old(self).wf(),
        ensures
            final(self).wf(),
            r is Ok ==> final(self).offset() == (0u16, 0u16),
            r is Err ==> final(self).offset() == old(self).offset(),
            final(self).writing() == old(self).writing(),
            *old(self) is Init ==> r is Ok && *final(self) == *old(self),
            *old(self) is Initialized ==> {
                let f0 = old(self).files().unwrap();
                let f1 = final(self).files().unwrap();
                &&& final(self).files() is Some
                &&& f0.paths().contains(path@) ==> (r matches Err(FileError::AlreadyOpen(p)) && p@ == path@)
                &&& !f0.paths().contains(path@) ==> match read {
                    ReadOutcome::Missing => (r matches Err(FileError::NotFound(p)) && p@ == path@),
                    ReadOutcome::Unreadable => (r matches Err(FileError::ReadError(p)) && p@ == path@),
                    ReadOutcome::Text(content) => {
                        let k = f0.paths().len() as int;
                        &&& r is Ok
                        &&& f1.paths() == f0.paths().push(path@)
                        &&& f1.contents() == f0.contents().insert(k, content@)
                        &&& f1.selected() == k
                    },
                }
                &&& r is Err ==> f1 == f0
            },
    {
        if let AppState::Initialized { files_data, scroll_offset, .. } = self {
            let r = files_data.open_file(path, read);
            if r.is_ok() {
                *scroll_offset = (0, 0);
            }
            r
        } else {
            Ok(())
        }
    }

    /// Closes the selected file, then selects the one before it with the
    /// view at its start.
    pub fn close_file(&mut self) -> (r: Result<(), FileError>)
        requires
            old(self).wf(),
        ensures
            final(self).wf(),
            r is Ok ==> final(self).offset() == (0u16, 0u16),
            r is Err ==> final(self).offset() == old(self).offset(),
            final(self).writing() == old(self).writing(),
            *old(self) is Init ==> r is Ok && *final(self) == *old(self),
            *old(self) is Initialized ==> {
                let f0 = old(self).files().unwrap();
                let f1 = final(self).files().unwrap();
                let i = f0.selected();
                &&& final(self).files() is Some
                &&& f0.contents().len() == 0 ==> r == Err::<(), FileError>(FileError::NothingToClose) && f1 == f0
                &&& f0.contents().len() > 0 ==> {
                    &&& r is Ok
                    &&& f1.contents() == f0.contents().remove(i)
                    &&& f1.paths() == if f0.selected_has_path() {
                        f0.paths().remove(i)
                    } else {
                        f0.paths()
                    }
                    &&& f1.selected() == crate::open_files_data::previous_index(i, f1.contents().len() as int)
                }
            },
    {
        if let AppState::Initialized { files_data, scroll_offset, .. } = self {
            let r = files_data.close_file();
            if r.is_ok() {
                *scroll_offset = (0, 0);
            }
            r
        } else {
            Ok(())
        }
    }

    /// The write that saves the selected file, or `None` before the session
    /// is ready. Nothing changes until `record_saved` reports that the write
    /// succeeded.
    pub fn save_file(&self) -> (r: Result<Option<PendingWrite>, FileError>)
        requires
            self.wf(),
        ensures
            *self is Init ==> r == Ok::<Option<PendingWrite>, FileError>(None),
            *self is Initialized ==> {
                let f = self.files().unwrap();
                &&& f.contents().len() == 0 ==> r == Err::<Option<PendingWrite>, FileError>(
                    FileError::NothingToSave,
                )
                &&& f.contents().len() > 0 ==> (r matches Ok(Some(w)) && w.content@ == f.selected_content()
                    && if f.selected_has_path() {
                    w.path@ == f.selected_path()
                } else {
                    w.path@.len() > 0
                })
            },
    {
        if let AppState::Initialized { files_data, .. } = self {
            match files_data.save_file() {
                Ok(w) => Ok(Some(w)),
                Err(e) => Err(e),
            }
        } else {
            Ok(None)
        }
    }

    /// The selected file was written to `path`: where it had no path, it
    /// takes this one. No effect before the session is ready.
    pub fn record_saved(&mut self, path: &str)
        requires
            old(self).wf(),
        ensures
            final(self).wf(),
            final(self).offset() == old(self).offset(),
            final(self).writing() == old(self).writing(),
            *old(self) is Init ==> *final(self) == *old(self),
            *old(self) is Initialized ==> {
                let f0 = old(self).files().unwrap();
                let f1 = final(self).files().unwrap();
                &&& final(self).files() is Some
                &&& f1.contents() == f0.contents()
                &&& f1.selected() == f0.selected()
                &&& f0.contents().len() > 0 && !f0.selected_has_path() ==> f1.paths() == f0.paths().push(path@)
                &&& !(f0.contents().len() > 0 && !f0.selected_has_path()) ==> f1.paths() == f0.paths()
            },
    {
        if let AppState::Initialized { files_data, .. } = self {
            files_data.record_saved(path);
        }
    }

    /// Selects the next file and puts the view back at the start.
    pub fn next_file(&mut self)
        requires
            old(self).wf(),
        ensures
            final(self).wf(),
            final(self).writing() == old(self).writing(),
            *old(self) is Init ==> *final(self) == *old(self),
            *old(self) is Initialized ==> {
                let f0 = old(self).files().unwrap();
                let f1 = final(self).files().unwrap();
                &&& final(self).files() is Some
                &&& final(self).offset() == (0u16, 0u16)
                &&& f1.paths() == f0.paths()
                &&& f1.contents() == f0.contents()
                &&& f1.selected() == crate::open_files_data::next_index(f0.selected(), f0.contents().len() as int)
            },
    {
        if let AppState::Initialized { files_data, scroll_offset, .. } = self {
            files_data.select_next_file();
            *scroll_offset = (0, 0);
        }
    }

    /// Selects the previous file and puts the view back at the start.
    pub fn previous_file(&mut self)
        requires
            old(self).wf(),
        ensures
            final(self).wf(),
            final(self).writing() == old(self).writing(),
            *old(self) is Init ==> *final(self) == *old(self),
            *old(self) is Initialized ==> {
                let f0 = old(self).files().unwrap();
                let f1 = final(self).files().unwrap();
                &&& final(self).files() is Some
                &&& final(self).offset() == (0u16, 0u16)
                &&& f1.paths() == f0.paths()
                &&& f1.contents() == f0.contents()
                &&& f1.selected() == crate::open_files_data::previous_index(f0.selected(), f0.contents().len() as int)
            },
    {
        if let AppState::Initialized { files_data, scroll_offset, .. } = self {
            files_data.select_previous_file();
            *scroll_offset = (0, 0);
        }
    }
}

/// In a ready session whose selected content has `n` lines (`n` at most the
/// largest `u16`), a step one line down from offset `y < n` succeeds and
/// moves to `y + 1`, and from `y >= n` fails past the end: stepping down from
/// the top succeeds exactly `n` times.
pub proof fn lemma_scroll_down_through_content(s: AppState)
    requires
        s is Initialized,
        lines(s.content()).len() <= u16::MAX,
    ensures
        s.offset().1 < lines(s.content()).len() ==> s.vertical_outcome(1) == Ok::<int, Overshoot>(
            s.offset().1 + 1,
        ),
        s.offset().1 >= lines(s.content()).len() ==> s.vertical_outcome(1) == Err::<int, Overshoot>(
            Overshoot::PastEnd,
        ),
{
}

impl Default for AppState {
    fn default() -> (r: Self)
        ensures
            r is Init,
    {
        AppState::Init
    }
}

} // verus!
