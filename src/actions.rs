use vstd::prelude::*;
use vstd::string::*;
use vstd::std_specs::iter::IteratorSpec;

use crate::key::Key;
use crate::text::{join, joined, views};

verus! {

/// A semantic operation of the editor.
#[derive(Clone, Copy, Debug, PartialEq, Eq, Structural)]
pub enum Action {
    Quit,
    BeginWriteMode,
    EndWriteMode,
    OpenFile,
    SaveFile,
    NextFile,
    PreviousFile,
    CloseFile,
    ScrollDown,
    ScrollUp,
    ScrollLeft,
    ScrollRight,
}

/// Every action, in the order in which the help view lists them.
pub open spec fn all_actions() -> Seq<Action> {
    seq![
        Action::Quit,
        Action::BeginWriteMode,
        Action::EndWriteMode,
        Action::OpenFile,
        Action::SaveFile,
        Action::NextFile,
        Action::PreviousFile,
        Action::CloseFile,
        Action::ScrollDown,
        Action::ScrollUp,
        Action::ScrollLeft,
        Action::ScrollRight,
    ]
}

impl Action {
    /// The key chords that trigger this action, in order.
    pub open spec fn spec_keys(self) -> Seq<Key> {
        match self {
            Action::Quit => seq![Key::Char('q')],
            Action::BeginWriteMode => seq![Key::Char('w')],
            Action::EndWriteMode => seq![Key::Ctrl('w')],
            Action::OpenFile => seq![Key::Ctrl('o')],
            Action::SaveFile => seq![Key::Ctrl('s')],
            Action::NextFile => seq![Key::Char('n')],
            Action::PreviousFile => seq![Key::Char('p')],
            Action::CloseFile => seq![Key::Ctrl('c')],
            Action::ScrollDown => seq![Key::Down],
            Action::ScrollUp => seq![Key::Up],
            Action::ScrollLeft => seq![Key::Left],
            Action::ScrollRight => seq![Key::Right],
        }
    }

    /// Whether `key` triggers this action.
    pub open spec fn triggered_by(self, key: Key) -> bool {
        self.spec_keys().contains(key)
    }

    /// The action that a key chord triggers, if any.
    pub open spec fn owner_of(key: Key) -> Option<Action> {
        match key {
            Key::Char('q') => Some(Action::Quit),
            Key::Char('w') => Some(Action::BeginWriteMode),
            Key::Ctrl('w') => Some(Action::EndWriteMode),
            Key::Ctrl('o') => Some(Action::OpenFile),
            Key::Ctrl('s') => Some(Action::SaveFile),
            Key::Char('n') => Some(Action::NextFile),
            Key::Char('p') => Some(Action::PreviousFile),
            Key::Ctrl('c') => Some(Action::CloseFile),
            Key::Down => Some(Action::ScrollDown),
            Key::Up => Some(Action::ScrollUp),
            Key::Left => Some(Action::ScrollLeft),
            Key::Right => Some(Action::ScrollRight),
            _ => None,
        }
    }

    /// Each key chord triggers at most one action, and no action lists a
    /// chord twice.
    pub proof fn lemma_keys_owned(self, key: Key)
        ensures
            self.triggered_by(key) <==> Action::owner_of(key) == Some(self),
            self.spec_keys().no_duplicates(),
    {
        let ks = self.spec_keys();
        if Action::owner_of(key) == Some(self) {
            assert(ks[0] == key);
        }
    }

    /// Whether `key` triggers this action.
    pub fn triggers(&self, key: Key) -> (r: bool)
        ensures
            r == self.triggered_by(key),
    {
        proof {
            self.lemma_keys_owned(key);
        }
        match self {
            Action::Quit => key == Key::Char('q'),
            Action::BeginWriteMode => key == Key::Char('w'),
            Action::EndWriteMode => key == Key::Ctrl('w'),
            Action::OpenFile => key == Key::Ctrl('o'),
            Action::SaveFile => key == Key::Ctrl('s'),
            Action::NextFile => key == Key::Char('n'),
            Action::PreviousFile => key == Key::Char('p'),
            Action::CloseFile => key == Key::Ctrl('c'),
            Action::ScrollDown => key == Key::Down,
            Action::ScrollUp => key == Key::Up,
            Action::ScrollLeft => key == Key::Left,
            Action::ScrollRight => key == Key::Right,
        }
    }

    /// A short description of the action, for the help view.
    pub open spec fn spec_name(self) -> Seq<char> {
        match self {
            Action::Quit => "Quit"@,
            Action::BeginWriteMode => "Begin Write Mode"@,
            Action::EndWriteMode => "End Write Mode"@,
            Action::OpenFile => "Open Copied File"@,
            Action::SaveFile => "Save File"@,
            Action::NextFile => "Next File"@,
            Action::PreviousFile => "Previous File"@,
            Action::CloseFile => "Close File"@,
            Action::ScrollDown => "Scroll Down"@,
            Action::ScrollUp => "Scroll Up"@,
            Action::ScrollLeft => "Scroll Left"@,
            Action::ScrollRight => "Scroll Right"@,
        }
    }

    /// A short description of the action, for the help view.
    pub fn name(&self) -> (r: String)
        ensures
            r@ == self.spec_name(),
    {
        String::from_str(
            match self {
                Action::Quit => "Quit",
                Action::BeginWriteMode => "Begin Write Mode",
                Action::EndWriteMode => "End Write Mode",
                Action::OpenFile => "Open Copied File",
                Action::SaveFile => "Save File",
                Action::NextFile => "Next File",
                Action::PreviousFile => "Previous File",
                Action::CloseFile => "Close File",
                Action::ScrollDown => "Scroll Down",
                Action::ScrollUp => "Scroll Up",
                Action::ScrollLeft => "Scroll Left",
                Action::ScrollRight => "Scroll Right",
            },
        )
    }

    /// All available actions, as an iterator.
    pub fn iterator() -> (r: std::vec::IntoIter<Action>)
        ensures
            r.remaining() == all_actions(),
    {
        Action::values().into_iter()
    }

    /// All available actions.
    pub fn values() -> (r: Vec<Action>)
        ensures
            r@ == all_actions(),
    {
        let r = vec![
            Action::Quit,
            Action::BeginWriteMode,
            Action::EndWriteMode,
            Action::OpenFile,
            Action::SaveFile,
            Action::NextFile,
            Action::PreviousFile,
            Action::CloseFile,
            Action::ScrollDown,
            Action::ScrollUp,
            Action::ScrollLeft,
            Action::ScrollRight,
        ];
        assert(r@ =~= all_actions());
        r
    }

    /// The key chords that trigger this action.
    pub fn keys(&self) -> (r: Vec<Key>)
        ensures
            r@ == self.spec_keys(),
    {
        let r = match self {
            Action::Quit => vec![Key::Char('q')],
            Action::BeginWriteMode => vec![Key::Char('w')],
            Action::EndWriteMode => vec![Key::Ctrl('w')],
            Action::OpenFile => vec![Key::Ctrl('o')],
            Action::SaveFile => vec![Key::Ctrl('s')],
            Action::NextFile => vec![Key::Char('n')],
            Action::PreviousFile => vec![Key::Char('p')],
            Action::CloseFile => vec![Key::Ctrl('c')],
            Action::ScrollDown => vec![Key::Down],
            Action::ScrollUp => vec![Key::Up],
            Action::ScrollLeft => vec![Key::Left],
            Action::ScrollRight => vec![Key::Right],
        };
        assert(r@ =~= self.spec_keys());
        r
    }
}

/// The entries of `s` that `key` triggers, in list order.
pub open spec fn holders(s: Seq<Action>, key: Key) -> Seq<Action>
    decreases s.len(),
{
    if s.len() == 0 {
        Seq::empty()
    } else {
        let h = holders(s.drop_last(), key);
        if s.last().triggered_by(key) {
            h.push(s.last())
        } else {
            h
        }
    }
}

/// No key chord triggers two entries of `s`.
pub open spec fn conflict_free(s: Seq<Action>) -> bool {
    forall|i: int, j: int, key: Key|
        0 <= i < j < s.len() && #[trigger] s[i].triggered_by(key) ==> !#[trigger] s[j].triggered_by(
            key,
        )
}

/// A key chord that several entries of an action list share.
#[derive(Clone, Debug)]
pub struct KeyConflict {
    pub key: Key,
    /// The entries that the chord triggers, in list order.
    pub actions: Vec<Action>,
}

/// `report` lists every shared key chord of `s` once, each with all the
/// entries that it triggers.
pub open spec fn reports_conflicts(s: Seq<Action>, report: Seq<KeyConflict>) -> bool {
    &&& forall|c: int|
        0 <= c < report.len() ==> {
            &&& (#[trigger] report[c]).actions@ == holders(s, report[c].key)
            &&& report[c].actions@.len() >= 2
        }
    &&& forall|c: int, d: int|
        0 <= c < d < report.len() ==> (#[trigger] report[c]).key != (#[trigger] report[d]).key
    &&& forall|i: int, key: Key|
        0 <= i < s.len() && #[trigger] s[i].triggered_by(key) && holders(s, key).len() >= 2
            ==> exists|c: int| 0 <= c < report.len() && (#[trigger] report[c]).key == key
}

proof fn lemma_one_holder(s: Seq<Action>, i: int, key: Key)
    requires
        0 <= i < s.len(),
        s[i].triggered_by(key),
    ensures
        holders(s, key).len() >= 1,
    decreases s.len(),
{
    if i < s.len() - 1 {
        assert(s.drop_last()[i] == s[i]);
        lemma_one_holder(s.drop_last(), i, key);
    }
}

proof fn lemma_some_holder(s: Seq<Action>, key: Key) -> (i: int)
    requires
        holders(s, key).len() >= 1,
    ensures
        0 <= i < s.len(),
        s[i].triggered_by(key),
    decreases s.len(),
{
    if s.last().triggered_by(key) {
        s.len() - 1
    } else {
        let i = lemma_some_holder(s.drop_last(), key);
        assert(s.drop_last()[i] == s[i]);
        i
    }
}

/// Two entries that share a chord make it a shared chord.
proof fn lemma_two_holders(s: Seq<Action>, i: int, j: int, key: Key)
    requires
        0 <= i < j < s.len(),
        s[i].triggered_by(key),
        s[j].triggered_by(key),
    ensures
        holders(s, key).len() >= 2,
    decreases s.len(),
{
    assert(s.drop_last()[i] == s[i]);
    if j == s.len() - 1 {
        lemma_one_holder(s.drop_last(), i, key);
    } else {
        assert(s.drop_last()[j] == s[j]);
        lemma_two_holders(s.drop_last(), i, j, key);
    }
}

/// A shared chord is shared by two entries.
proof fn lemma_pair_of_holders(s: Seq<Action>, key: Key) -> (ij: (int, int))
    requires
        holders(s, key).len() >= 2,
    ensures
        0 <= ij.0 < ij.1 < s.len(),
        s[ij.0].triggered_by(key),
        s[ij.1].triggered_by(key),
    decreases s.len(),
{
    if s.last().triggered_by(key) {
        let i = lemma_some_holder(s.drop_last(), key);
        assert(s.drop_last()[i] == s[i]);
        (i, s.len() - 1)
    } else {
        let (i, j) = lemma_pair_of_holders(s.drop_last(), key);
        assert(s.drop_last()[i] == s[i]);
        assert(s.drop_last()[j] == s[j]);
        (i, j)
    }
}

/// The entries of `s` that `key` triggers.
fn holders_of(s: &Vec<Action>, key: Key) -> (r: Vec<Action>)
    ensures
        r@ == holders(s@, key),
{
    let mut r: Vec<Action> = Vec::new();
    let mut j: usize = 0;
    while j < s.len()
        invariant
            j <= s.len(),
            r@ == holders(s@.subrange(0, j as int), key),
        decreases s.len() - j,
    {
        assert(s@.subrange(0, j + 1).drop_last() =~= s@.subrange(0, j as int));
        if s[j].triggers(key) {
            r.push(s[j]);
        }
        j = j + 1;
    }
    assert(s@.subrange(0, s.len() as int) =~= s@);
    r
}

/// Whether an entry of `s` before position `i` is triggered by `key`.
fn held_before(s: &Vec<Action>, i: usize, key: Key) -> (r: bool)
    requires
        i <= s.len(),
    ensures
        r == exists|j: int| 0 <= j < i && #[trigger] s@[j].triggered_by(key),
{
    let mut j: usize = 0;
    while j < i
        invariant
            j <= i <= s.len(),
            forall|jj: int| 0 <= jj < j ==> !#[trigger] s@[jj].triggered_by(key),
        decreases i - j,
    {
        if s[j].triggers(key) {
            return true;
        }
        j = j + 1;
    }
    false
}

/// The line that reports one shared key chord.
pub open spec fn conflict_line(c: KeyConflict) -> Seq<char> {
    "Conflict key "@ + c.key.spec_label() + " with actions "@ + joined(
        c.actions@.map_values(|a: Action| a.spec_name()),
        ", "@,
    )
}

/// The report of all shared key chords, one line each, separated by `; `.
pub open spec fn conflicts_text(report: Seq<KeyConflict>) -> Seq<char> {
    joined(report.map_values(|c: KeyConflict| conflict_line(c)), "; "@)
}

/// The names of `actions`, in order.
fn names_of(actions: &Vec<Action>) -> (r: Vec<String>)
    ensures
        views(r@) == actions@.map_values(|a: Action| a.spec_name()),
{
    let mut r: Vec<String> = Vec::new();
    let mut i: usize = 0;
    while i < actions.len()
        invariant
            i <= actions.len(),
            views(r@) == actions@.subrange(0, i as int).map_values(|a: Action| a.spec_name()),
        decreases actions.len() - i,
    {
        let ghost old_r = r@;
        r.push(actions[i].name());
        assert(views(r@) =~= views(old_r).push(actions@[i as int].spec_name()));
        assert(views(r@) =~= actions@.subrange(0, i + 1).map_values(|a: Action| a.spec_name()));
        i = i + 1;
    }
    assert(actions@.subrange(0, i as int) =~= actions@);
    r
}

/// Reports every shared key chord for a human reader.
pub fn conflicts_message(report: &Vec<KeyConflict>) -> (r: String)
    ensures
        r@ == conflicts_text(report@),
{
    let mut lines_out: Vec<String> = Vec::new();
    let mut i: usize = 0;
    while i < report.len()
        invariant
            i <= report.len(),
            views(lines_out@) == report@.subrange(0, i as int).map_values(
                |c: KeyConflict| conflict_line(c),
            ),
        decreases report.len() - i,
    {
        let c = &report[i];
        let names = names_of(&c.actions);
        let listed = join(&names, ", ");
        let line = String::from_str("Conflict key ").concat(c.key.label().as_str()).concat(
            " with actions ",
        ).concat(listed.as_str());
        let ghost old_lines = lines_out@;
        lines_out.push(line);
        assert(views(lines_out@) =~= views(old_lines).push(conflict_line(report@[i as int])));
        assert(views(lines_out@) =~= report@.subrange(0, i + 1).map_values(
            |c: KeyConflict| conflict_line(c),
        ));
        i = i + 1;
    }
    assert(report@.subrange(0, i as int) =~= report@);
    join(&lines_out, "; ")
}

/// Finds every key chord that two or more entries of `s` share.
pub fn find_conflicts(s: &Vec<Action>) -> (r: Vec<KeyConflict>)
    ensures
        reports_conflicts(s@, r@),
{
    let mut r: Vec<KeyConflict> = Vec::new();
    let mut i: usize = 0;
    while i < s.len()
        invariant
            i <= s.len(),
            forall|c: int|
                0 <= c < r@.len() ==> {
                    &&& (#[trigger] r@[c]).actions@ == holders(s@, r@[c].key)
                    &&& r@[c].actions@.len() >= 2
                    &&& exists|j: int| 0 <= j < i && #[trigger] s@[j].triggered_by(r@[c].key)
                },
            forall|c: int, d: int|
                0 <= c < d < r@.len() ==> (#[trigger] r@[c]).key != (#[trigger] r@[d]).key,
            forall|j: int, key: Key|
                0 <= j < i && #[trigger] s@[j].triggered_by(key) && holders(s@, key).len() >= 2
                    ==> exists|c: int| 0 <= c < r@.len() && (#[trigger] r@[c]).key == key,
        decreases s.len() - i,
    {
        let a = s[i];
        let ks = a.keys();
        let mut m: usize = 0;
        while m < ks.len()
            invariant
                i < s.len(),
                a == s@[i as int],
                ks@ == a.spec_keys(),
                m <= ks.len(),
                forall|c: int|
                    0 <= c < r@.len() ==> {
                        &&& (#[trigger] r@[c]).actions@ == holders(s@, r@[c].key)
                        &&& r@[c].actions@.len() >= 2
                        &&& (exists|j: int| 0 <= j < i && #[trigger] s@[j].triggered_by(r@[c].key))
                            || (exists|mm: int| 0 <= mm < m && ks@[mm] == r@[c].key)
                    },
                forall|c: int, d: int|
                    0 <= c < d < r@.len() ==> (#[trigger] r@[c]).key != (#[trigger] r@[d]).key,
                forall|j: int, key: Key|
                    0 <= j < i && #[trigger] s@[j].triggered_by(key) && holders(s@, key).len() >= 2
                        ==> exists|c: int| 0 <= c < r@.len() && (#[trigger] r@[c]).key == key,
                forall|mm: int|
                    0 <= mm < m && holders(s@, #[trigger] ks@[mm]).len() >= 2 ==> exists|c: int|
                        0 <= c < r@.len() && (#[trigger] r@[c]).key == ks@[mm],
            decreases ks.len() - m,
        {
            let key = ks[m];
            proof {
                a.lemma_keys_owned(key);
                assert(ks@.contains(key));
            }
            if !held_before(s, i, key) {
                let hs = holders_of(s, key);
                if hs.len() >= 2 {
                    let ghost old_r = r@;
                    r.push(KeyConflict { key, actions: hs });
                    proof {
                        assert forall|c: int| 0 <= c < old_r.len() implies (#[trigger] r@[c]).key
                            != key by {
                            assert(r@[c] == old_r[c]);
                            if exists|mm: int| 0 <= mm < m && ks@[mm] == old_r[c].key {
                                let mm = choose|mm: int| 0 <= mm < m && ks@[mm] == old_r[c].key;
                                assert(ks@[mm] != ks@[m as int]);
                            }
                        }
                        assert(r@[old_r.len() as int].key == key);
                        assert forall|j: int, k: Key|
                            0 <= j < i && #[trigger] s@[j].triggered_by(k) && holders(s@, k).len()
                                >= 2 implies exists|c: int|
                            0 <= c < r@.len() && (#[trigger] r@[c]).key == k by {
                            let c = choose|c: int| 0 <= c < old_r.len() && (#[trigger] old_r[c]).key == k;
                            assert(r@[c] == old_r[c]);
                        }
                        assert forall|mm: int|
                            0 <= mm < m && holders(s@, #[trigger] ks@[mm]).len() >= 2 implies exists|c: int|
                            0 <= c < r@.len() && (#[trigger] r@[c]).key == ks@[mm] by {
                            let c = choose|c: int| 0 <= c < old_r.len() && (#[trigger] old_r[c]).key == ks@[mm];
                            assert(r@[c] == old_r[c]);
                        }
                    }
                }
            } else {
                proof {
                    let j = choose|j: int| 0 <= j < i && #[trigger] s@[j].triggered_by(key);
                    assert(s@[j].triggered_by(key));
                }
            }
            m = m + 1;
        }
        proof {
            assert forall|c: int| 0 <= c < r@.len() implies exists|j: int|
                0 <= j < i + 1 && #[trigger] s@[j].triggered_by((#[trigger] r@[c]).key) by {
                if exists|mm: int| 0 <= mm < ks.len() && ks@[mm] == r@[c].key {
                    let mm = choose|mm: int| 0 <= mm < ks.len() && ks@[mm] == r@[c].key;
                    assert(ks@.contains(ks@[mm]));
                    assert(s@[i as int].triggered_by(r@[c].key));
                }
            }
            assert forall|j: int, key: Key|
                0 <= j < i + 1 && #[trigger] s@[j].triggered_by(key) && holders(s@, key).len() >= 2
                    implies exists|c: int| 0 <= c < r@.len() && (#[trigger] r@[c]).key == key by {
                if j == i {
                    let mm = choose|mm: int| 0 <= mm < ks@.len() && ks@[mm] == key;
                    assert(holders(s@, ks@[mm]).len() >= 2);
                }
            }
        }
        i = i + 1;
    }
    r
}

/// The actions available in the current context.
///
/// No key chord triggers two of them.
#[derive(Clone, Debug)]
pub struct Actions(Vec<Action>);

impl View for Actions {
    type V = Seq<Action>;

    closed spec fn view(&self) -> Seq<Action> {
        self.0@
    }
}

impl Default for Actions {
    /// No action.
    fn default() -> (r: Actions)
        ensures
            r@ == Seq::<Action>::empty(),
    {
        Actions(Vec::new())
    }
}

impl Actions {
    /// No key chord triggers two of the actions.
    pub open spec fn wf(&self) -> bool {
        conflict_free(self@)
    }

    /// Builds the contextual actions; fails with every shared key chord,
    /// each with the actions that share it, when a chord triggers two of them.
    pub fn new(actions: Vec<Action>) -> (r: Result<Actions, Vec<KeyConflict>>)
        ensures
            r is Ok <==> conflict_free(actions@),
            r matches Ok(a) ==> a@ == actions@ && a.wf(),
            r matches Err(report) ==> report@.len() > 0 && reports_conflicts(actions@, report@),
    {
        let report = find_conflicts(&actions);
        if report.len() == 0 {
            proof {
                assert forall|i: int, j: int, key: Key|
                    0 <= i < j < actions@.len() && #[trigger] actions@[i].triggered_by(key)
                        implies !#[trigger] actions@[j].triggered_by(key) by {
                    if actions@[j].triggered_by(key) {
                        lemma_two_holders(actions@, i, j, key);
                    }
                }
            }
            Ok(Actions(actions))
        } else {
            proof {
                let (i, j) = lemma_pair_of_holders(actions@, report@[0].key);
                assert(actions@[i].triggered_by(report@[0].key));
            }
            Err(report)
        }
    }

    /// Given a key, finds the action that it triggers.
    pub fn find(&self, key: Key) -> (r: Option<&Action>)
        ensures
            r matches Some(a) ==> exists|i: int|
                0 <= i < self@.len() && self@[i] == *a && a.triggered_by(key) && forall|j: int|
                    0 <= j < i ==> !(#[trigger] self@[j]).triggered_by(key),
            r is None ==> forall|i: int| 0 <= i < self@.len() ==> !(#[trigger] self@[i]).triggered_by(key),
    {
        let mut i: usize = 0;
        while i < self.0.len()
            invariant
                i <= self@.len(),
                self@ == self.0@,
                forall|j: int| 0 <= j < i ==> !(#[trigger] self@[j]).triggered_by(key),
            decreases self.0.len() - i,
        {
            if self.0[i].triggers(key) {
                return Some(&self.0[i]);
            }
            i = i + 1;
        }
        None
    }

    /// The contextual actions, for building a help view.
    pub fn actions(&self) -> (r: &[Action])
        ensures
            r@ == self@,
    {
        self.0.as_slice()
    }
}

} // verus!
