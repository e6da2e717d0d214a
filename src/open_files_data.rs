use vstd::prelude::*;
use vstd::string::*;

use crate::text::{file_name, file_name_of, views};

verus! {

/// Why an operation on the open files failed.
#[derive(Clone, Debug, PartialEq, Eq)]
pub enum FileError {
    /// The path is already open.
    AlreadyOpen(String),
    /// No file exists at the path.
    NotFound(String),
    /// The file exists but could not be read as text.
    ReadError(String),
    /// There is no open file.
    NothingToClose,
    /// There is no content to save.
    NothingToSave,
    /// Writing to the path failed, for the reason given.
    WriteError(String, String),
}

impl FileError {
    /// The message that reports the failure.
    pub open spec fn spec_message(&self) -> Seq<char> {
        match self {
            FileError::AlreadyOpen(p) => "File "@ + p@ + " already opened"@,
            FileError::NotFound(p) => "File "@ + p@ + " does not exist"@,
            FileError::ReadError(p) => "Error while reading file "@ + p@,
            FileError::NothingToClose => "No file to close"@,
            FileError::NothingToSave => "No file to save"@,
            FileError::WriteError(p, e) => "Error while writing file "@ + p@ + ": "@ + e@,
        }
    }

    /// The message that reports the failure.
    pub fn message(&self) -> (r: String)
        ensures
            r@ == self.spec_message(),
    {
        match self {
            FileError::AlreadyOpen(p) => String::from_str("File ").concat(p.as_str()).concat(
                " already opened",
            ),
            FileError::NotFound(p) => String::from_str("File ").concat(p.as_str()).concat(
                " does not exist",
            ),
            FileError::ReadError(p) => String::from_str("Error while reading file ").concat(
                p.as_str(),
            ),
            FileError::NothingToClose => String::from_str("No file to close"),
            FileError::NothingToSave => String::from_str("No file to save"),
            FileError::WriteError(p, e) => String::from_str("Error while writing file ").concat(
                p.as_str(),
            ).concat(": ").concat(e.as_str()),
        }
    }
}

/// What reading a file gave.
#[derive(Clone, Debug, PartialEq, Eq)]
pub enum ReadOutcome {
    /// No file exists at the path.
    Missing,
    /// The file exists but could not be read as text.
    Unreadable,
    /// The file's text.
    Text(String),
}

/// A file write that saving asks for.
#[derive(Clone, Debug, PartialEq, Eq)]
pub struct PendingWrite {
    pub path: String,
    pub content: String,
}

/// Relies on `names::Generator::next`: an `adjective-noun` name drawn at
/// random, so never empty.
#[verifier::external_body]
fn fresh_file_name() -> (r: String)
    ensures
        r@.len() > 0,
{
    names::Generator::default().next().unwrap()
}

/// The open files: their paths and contents, side by side, and the
/// selected one.
///
/// A buffer whose content was never given a path comes after all those
/// that have one; there is at most one such buffer.
#[derive(Clone, Debug)]
pub struct OpenFilesData {
    file_paths: Vec<String>,
    file_contents: Vec<String>,
    currently_selected_file_index: usize,
}

/// The index that selecting the previous buffer gives, out of `len`.
pub open spec fn previous_index(i: int, len: int) -> int {
    if len > 0 {
        (i + len - 1) % len
    } else {
        0
    }
}

/// The index that selecting the next buffer gives, out of `len`.
pub open spec fn next_index(i: int, len: int) -> int {
    if len > 0 {
        (i + 1) % len
    } else {
        0
    }
}

/// The index after `k` selections of the next buffer from `i`, out of `len`.
pub open spec fn after_nexts(i: int, len: int, k: nat) -> int
    decreases k,
{
    if k == 0 {
        i
    } else {
        next_index(after_nexts(i, len, (k - 1) as nat), len)
    }
}

/// The index after `k` selections of the previous buffer from `i`, out of
/// `len`.
pub open spec fn after_previouses(i: int, len: int, k: nat) -> int
    decreases k,
{
    if k == 0 {
        i
    } else {
        previous_index(after_previouses(i, len, (k - 1) as nat), len)
    }
}

proof fn lemma_after_nexts(i: int, len: int, k: nat)
    requires
        0 <= i < len,
    ensures
        after_nexts(i, len, k) == (i + k) % len,
    decreases k,
{
    if k == 0 {
        vstd::arithmetic::div_mod::lemma_small_mod(i as nat, len as nat);
    } else {
        lemma_after_nexts(i, len, (k - 1) as nat);
        vstd::arithmetic::div_mod::lemma_add_mod_noop(i + k - 1, 1, len);
        if len > 1 {
            vstd::arithmetic::div_mod::lemma_small_mod(1, len as nat);
        } else {
            vstd::arithmetic::div_mod::lemma_mod_self_0(1);
        }
    }
}

proof fn lemma_after_previouses(i: int, len: int, k: nat)
    requires
        0 <= i < len,
    ensures
        after_previouses(i, len, k) == (i - k) % len,
    decreases k,
{
    if k == 0 {
        vstd::arithmetic::div_mod::lemma_small_mod(i as nat, len as nat);
    } else {
        lemma_after_previouses(i, len, (k - 1) as nat);
        vstd::arithmetic::div_mod::lemma_add_mod_noop(i - (k - 1), len - 1, len);
        vstd::arithmetic::div_mod::lemma_small_mod((len - 1) as nat, len as nat);
        vstd::arithmetic::div_mod::lemma_mod_add_multiples_vanish(i - k, len);
    }
}

/// Selecting the next buffer as many times as there are buffers comes back
/// to the buffer selected at the start; so does selecting the previous one.
pub proof fn lemma_selection_cycles(i: int, len: int)
    requires
        0 <= i < len,
    ensures
        after_nexts(i, len, len as nat) == i,
        after_previouses(i, len, len as nat) == i,
{
    lemma_after_nexts(i, len, len as nat);
    lemma_after_previouses(i, len, len as nat);
    vstd::arithmetic::div_mod::lemma_mod_add_multiples_vanish(i, len);
    vstd::arithmetic::div_mod::lemma_mod_sub_multiples_vanish(i, len);
    vstd::arithmetic::div_mod::lemma_small_mod(i as nat, len as nat);
}

impl OpenFilesData {
    /// The paths of the buffers that have one, in order.
    pub closed spec fn paths(&self) -> Seq<Seq<char>> {
        views(self.file_paths@)
    }

    /// The contents of all buffers, in order.
    pub closed spec fn contents(&self) -> Seq<Seq<char>> {
        views(self.file_contents@)
    }

    /// The index of the selected buffer.
    pub closed spec fn selected(&self) -> int {
        self.currently_selected_file_index as int
    }

    /// The content of the selected buffer; empty where there is none.
    pub open spec fn selected_content(&self) -> Seq<char> {
        if 0 <= self.selected() < self.contents().len() {
            self.contents()[self.selected()]
        } else {
            Seq::empty()
        }
    }

    /// Whether the selected buffer has a path.
    pub open spec fn selected_has_path(&self) -> bool {
        0 <= self.selected() < self.paths().len()
    }

    /// The path of the selected buffer, or `/(unsaved)` where it has none.
    pub open spec fn selected_path(&self) -> Seq<char> {
        if self.selected_has_path() {
            self.paths()[self.selected()]
        } else {
            "/(unsaved)"@
        }
    }

    pub open spec fn wf(&self) -> bool {
        &&& self.paths().len() <= self.contents().len() <= self.paths().len() + 1
        &&& self.contents().len() == 0 ==> self.selected() == 0
        &&& self.contents().len() > 0 ==> 0 <= self.selected() < self.contents().len()
    }

    /// No buffer.
    pub fn new() -> (r: Self)
        ensures
            r.wf(),
            r.paths() == Seq::<Seq<char>>::empty(),
            r.contents() == Seq::<Seq<char>>::empty(),
            r.selected() == 0,
    {
        let r = Self { file_paths: vec![], file_contents: vec![], currently_selected_file_index: 0 };
        assert(r.paths() =~= Seq::<Seq<char>>::empty());
        assert(r.contents() =~= Seq::<Seq<char>>::empty());
        r
    }

    /// Whether `path` is open.
    pub fn is_open(&self, path: &str) -> (r: bool)
        ensures
            r == self.paths().contains(path@),
    {
        let p = String::from_str(path);
        let mut i: usize = 0;
        while i < self.file_paths.len()
            invariant
                p@ == path@,
                i <= self.file_paths.len(),
                forall|j: int| 0 <= j < i ==> self.paths()[j] != path@,
            decreases self.file_paths.len() - i,
        {
            if self.file_paths[i] == p {
                assert(self.paths()[i as int] == path@);
                return true;
            }
            i = i + 1;
        }
        false
    }

    /// Opens the file at `file_path`, given what reading it gave, and
    /// selects it. It goes after the buffers that have a path.
    pub fn open_file(&mut self, file_path: &str, read: ReadOutcome) -> (r: Result<(), FileError>)
        requires
            old(self).wf(),
        ensures
            final(self).wf(),
            old(self).paths().contains(file_path@) ==> (r matches Err(FileError::AlreadyOpen(p))
                && p@ == file_path@),
            !old(self).paths().contains(file_path@) ==> match read {
                ReadOutcome::Missing => (r matches Err(FileError::NotFound(p)) && p@ == file_path@),
                ReadOutcome::Unreadable => (r matches Err(FileError::ReadError(p)) && p@
                    == file_path@),
                ReadOutcome::Text(content) => {
                    let k = old(self).paths().len() as int;
                    &&& r is Ok
                    &&& final(self).paths() == old(self).paths().push(file_path@)
                    &&& final(self).contents() == old(self).contents().insert(k, content@)
                    &&& final(self).selected() == k
                },
            },
            r is Err ==> *final(self) == *old(self),
    {
        if self.is_open(file_path) {
            return Err(FileError::AlreadyOpen(String::from_str(file_path)));
        }
        match read {
            ReadOutcome::Missing => Err(FileError::NotFound(String::from_str(file_path))),
            ReadOutcome::Unreadable => Err(FileError::ReadError(String::from_str(file_path))),
            ReadOutcome::Text(content) => {
                let k = self.file_paths.len();
                let ghost old_paths = self.paths();
                let ghost old_contents = self.contents();
                self.file_paths.push(String::from_str(file_path));
                self.file_contents.insert(k, content);
                self.currently_selected_file_index = k;
                assert(self.paths() =~= old_paths.push(file_path@));
                assert(self.contents() =~= old_contents.insert(k as int, content@));
                Ok(())
            },
        }
    }
}

impl OpenFilesData {
    /// Closes the selected buffer, then selects the one before it, cyclically
    /// among those left.
    pub fn close_file(&mut self) -> (r: Result<(), FileError>)
        requires
            old(self).wf(),
        ensures
            final(self).wf(),
            old(self).contents().len() == 0 ==> r == Err::<(), FileError>(FileError::NothingToClose)
                && *final(self) == *old(self),
            old(self).contents().len() > 0 ==> {
                let i = old(self).selected();
                &&& r is Ok
                &&& final(self).contents() == old(self).contents().remove(i)
                &&& final(self).paths() == if old(self).selected_has_path() {
                    old(self).paths().remove(i)
                } else {
                    old(self).paths()
                }
                &&& final(self).selected() == previous_index(i, final(self).contents().len() as int)
            },
    {
        if self.file_contents.len() == 0 {
            return Err(FileError::NothingToClose);
        }
        let i = self.currently_selected_file_index;
        let ghost old_paths = self.paths();
        let ghost old_contents = self.contents();
        if i < self.file_paths.len() {
            self.file_paths.remove(i);
            assert(self.paths() =~= old_paths.remove(i as int));
        }
        self.file_contents.remove(i);
        assert(self.contents() =~= old_contents.remove(i as int));
        let len = self.file_contents.len();
        self.currently_selected_file_index = if len == 0 {
            0
        } else if i == 0 {
            len - 1
        } else {
            i - 1
        };
        proof {
            if len > 0 {
                if i == 0 {
                    assert((i + len - 1) % (len as int) == len - 1) by (nonlinear_arith)
                        requires len > 0, i == 0;
                } else {
                    assert((i + len - 1) % (len as int) == i - 1) by (nonlinear_arith)
                        requires 0 < i <= len;
                }
            }
        }
        Ok(())
    }

    /// The paths of the buffers that have one.
    pub fn get_open_file_paths(&self) -> (r: &Vec<String>)
        ensures
            views(r@) == self.paths(),
    {
        &self.file_paths
    }

    /// The last segment of each path, in order.
    pub fn get_open_file_names(&self) -> (r: Vec<String>)
        ensures
            views(r@) == self.paths().map_values(|p: Seq<char>| file_name_of(p)),
    {
        let mut r: Vec<String> = Vec::new();
        let mut i: usize = 0;
        while i < self.file_paths.len()
            invariant
                i <= self.file_paths.len(),
                views(r@) == self.paths().subrange(0, i as int).map_values(
                    |p: Seq<char>| file_name_of(p),
                ),
            decreases self.file_paths.len() - i,
        {
            let name = file_name(self.file_paths[i].as_str());
            let ghost old_r = r@;
            r.push(name);
            assert(self.paths()[i as int] == self.file_paths@[i as int]@);
            assert(views(r@) =~= views(old_r).push(name@));
            assert(views(r@) =~= self.paths().subrange(0, i + 1).map_values(
                |p: Seq<char>| file_name_of(p),
            ));
            i = i + 1;
        }
        assert(self.paths().subrange(0, i as int) =~= self.paths());
        r
    }

    /// The contents of all buffers.
    pub fn get_open_file_contents(&self) -> (r: &Vec<String>)
        ensures
            views(r@) == self.contents(),
    {
        &self.file_contents
    }

    /// The content of the selected buffer; empty where there is none.
    pub fn get_currently_selected_file_content(&self) -> (r: String)
        ensures
            r@ == self.selected_content(),
    {
        if self.currently_selected_file_index < self.file_contents.len() {
            self.file_contents[self.currently_selected_file_index].clone()
        } else {
            String::new()
        }
    }

    /// Puts `new_content` in place of the selected buffer's content; with no
    /// buffer, it becomes the content of a first one, which has no path.
    pub fn replace_currently_selected_file_content(&mut self, new_content: &str)
        requires
            old(self).wf(),
        ensures
            final(self).wf(),
            final(self).paths() == old(self).paths(),
            final(self).selected() == old(self).selected(),
            old(self).contents().len() > 0 ==> final(self).contents() == old(self).contents().update(
                old(self).selected(),
                new_content@,
            ),
            old(self).contents().len() == 0 ==> final(self).contents() == seq![new_content@],
    {
        let ghost old_contents = self.contents();
        let s = String::from_str(new_content);
        if self.currently_selected_file_index < self.file_contents.len() {
            self.file_contents.set(self.currently_selected_file_index, s);
            assert(self.contents() =~= old_contents.update(self.selected(), new_content@));
        } else {
            self.file_contents.push(s);
            assert(self.contents() =~= seq![new_content@]);
        }
    }

    /// The path of the selected buffer, or `/(unsaved)` where it has none.
    pub fn get_currently_selected_file_path(&self) -> (r: String)
        ensures
            r@ == self.selected_path(),
    {
        if self.currently_selected_file_index < self.file_paths.len() {
            self.file_paths[self.currently_selected_file_index].clone()
        } else {
            String::from_str("/(unsaved)")
        }
    }

    /// The last segment of the selected buffer's path.
    pub fn get_currently_selected_file_name(&self) -> (r: String)
        ensures
            r@ == file_name_of(self.selected_path()),
    {
        let path = self.get_currently_selected_file_path();
        file_name(path.as_str())
    }

    /// Selects the next buffer, wrapping round after the last.
    pub fn select_next_file(&mut self)
        requires
            old(self).wf(),
        ensures
            final(self).wf(),
            final(self).paths() == old(self).paths(),
            final(self).contents() == old(self).contents(),
            final(self).selected() == next_index(old(self).selected(), old(self).contents().len() as int),
    {
        let len = self.file_contents.len();
        if len > 0 {
            let i = self.currently_selected_file_index;
            self.currently_selected_file_index = if i + 1 == len {
                0
            } else {
                i + 1
            };
            assert((i + 1) % (len as int) == if i + 1 == len { 0 } else { i + 1 }) by (nonlinear_arith)
                requires i < len;
        } else {
            self.currently_selected_file_index = 0;
        }
    }

    /// Selects the previous buffer, wrapping round before the first.
    pub fn select_previous_file(&mut self)
        requires
            old(self).wf(),
        ensures
            final(self).wf(),
            final(self).paths() == old(self).paths(),
            final(self).contents() == old(self).contents(),
            final(self).selected() == previous_index(old(self).selected(), old(self).contents().len() as int),
    {
        let len = self.file_contents.len();
        if len > 0 {
            let i = self.currently_selected_file_index;
            self.currently_selected_file_index = if i == 0 {
                len - 1
            } else {
                i - 1
            };
            assert((i + len - 1) % (len as int) == if i == 0 { len - 1 } else { i - 1 }) by (nonlinear_arith)
                requires i < len;
        } else {
            self.currently_selected_file_index = 0;
        }
    }

    /// The write that saves the selected buffer: to its path, or, where it
    /// has none, to `fresh_name`. Nothing changes until `record_saved`
    /// reports that the write succeeded.
    pub fn save_file_with_name(&self, fresh_name: String) -> (r: Result<PendingWrite, FileError>)
        requires
            self.wf(),
        ensures
            self.contents().len() == 0 ==> r == Err::<PendingWrite, FileError>(FileError::NothingToSave),
            self.contents().len() > 0 ==> (r matches Ok(w) && w.content@ == self.selected_content()
                && w.path@ == if self.selected_has_path() {
                self.selected_path()
            } else {
                fresh_name@
            }),
    {
        let i = self.currently_selected_file_index;
        if i >= self.file_contents.len() {
            return Err(FileError::NothingToSave);
        }
        let content = self.file_contents[i].clone();
        if i < self.file_paths.len() {
            let path = self.file_paths[i].clone();
            Ok(PendingWrite { path, content })
        } else {
            Ok(PendingWrite { path: fresh_name, content })
        }
    }

    /// The write that saves the selected buffer: to its path, or, where it
    /// has none, to a freshly generated name. Nothing changes until
    /// `record_saved` reports that the write succeeded.
    pub fn save_file(&self) -> (r: Result<PendingWrite, FileError>)
        requires
            self.wf(),
        ensures
            self.contents().len() == 0 ==> r == Err::<PendingWrite, FileError>(FileError::NothingToSave),
            self.contents().len() > 0 ==> (r matches Ok(w) && w.content@ == self.selected_content()
                && if self.selected_has_path() {
                w.path@ == self.selected_path()
            } else {
                w.path@.len() > 0
            }),
    {
        let unsaved = self.currently_selected_file_index < self.file_contents.len()
            && self.currently_selected_file_index >= self.file_paths.len();
        let name = if unsaved {
            fresh_file_name()
        } else {
            String::new()
        };
        self.save_file_with_name(name)
    }

    /// The selected buffer was written to `path`: where it had no path, it
    /// takes this one.
    pub fn record_saved(&mut self, path: &str)
        requires
            old(self).wf(),
        ensures
            final(self).wf(),
            final(self).contents() == old(self).contents(),
            final(self).selected() == old(self).selected(),
            old(self).contents().len() > 0 && !old(self).selected_has_path() ==> final(self).paths()
                == old(self).paths().push(path@),
            !(old(self).contents().len() > 0 && !old(self).selected_has_path()) ==> final(self).paths()
                == old(self).paths(),
    {
        if self.currently_selected_file_index < self.file_contents.len()
            && self.currently_selected_file_index >= self.file_paths.len() {
            let ghost old_paths = self.paths();
            self.file_paths.push(String::from_str(path));
            assert(self.paths() =~= old_paths.push(path@));
        }
    }
}

/// Closing the only buffer leaves none, with the first index selected;
/// selecting the next buffer then keeps that index.
pub proof fn lemma_close_only_buffer(d: OpenFilesData)
    requires
        d.wf(),
        d.contents().len() == 1,
    ensures
        d.contents().remove(d.selected()).len() == 0,
        previous_index(d.selected(), 0) == 0,
        next_index(0, 0) == 0,
{
}

/// Opening a file, then replacing the selected content, selects that file
/// with the new content: saving then writes the new content to its path.
pub proof fn lemma_open_replace_save(
    d0: OpenFilesData,
    d1: OpenFilesData,
    d2: OpenFilesData,
    path: Seq<char>,
    content: Seq<char>,
    text: Seq<char>,
)
    requires
        d0.wf(),
        !d0.paths().contains(path),
        d1.paths() == d0.paths().push(path),
        d1.contents() == d0.contents().insert(d0.paths().len() as int, content),
        d1.selected() == d0.paths().len(),
        d2.paths() == d1.paths(),
        d2.selected() == d1.selected(),
        d2.contents() == d1.contents().update(d1.selected(), text),
    ensures
        d2.selected_has_path(),
        d2.selected_path() == path,
        d2.selected_content() == text,
{
}

} // verus!
