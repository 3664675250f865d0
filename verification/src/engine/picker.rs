//! The interactive update picker: a list of updates, each with a check box,
//! a cursor, and the keys that move it, toggle boxes and finish. The screen
//! and the keyboard belong to the caller; this module decides what each key
//! does and what each screen line reads.
use vstd::prelude::*;

use crate::models::package_source::PackageSource;
use crate::models::package_update::PackageUpdate;
use crate::text::{fmt_u64, decimal, push_str, string_from, string_of, chars_of};

verus! {

// ---------------------------------------------------------------------
// Keys and the picker's state
// ---------------------------------------------------------------------

/// A key as the picker reads it.
#[derive(Debug, Clone, Copy, PartialEq, Eq, Structural)]
pub enum PickerKey {
    Char(char),
    Esc,
    Enter,
    Up,
    Down,
    Tab,
    Other,
}

/// A key press: the key and whether Control was held.
#[derive(Debug, Clone, Copy, PartialEq, Eq, Structural)]
pub struct KeyPress {
    pub key: PickerKey,
    pub control: bool,
}

/// What the caller does after a key press.
#[derive(Debug, Clone, PartialEq, Eq)]
pub enum PickerAction {
    /// Draw the list again and read the next key.
    Redraw,
    /// The user left without choosing: nothing is installed.
    Cancel,
    /// The user confirmed: the indices of the checked rows, in order.
    Finish(Vec<usize>),
}

/// Check boxes, one per update, and the row under the cursor.
pub struct PickerState {
    pub selected: Vec<bool>,
    pub cursor: usize,
}

/// What a key press means.
pub enum KeyEffect {
    Cancel,
    Finish,
    Up,
    Down,
    Toggle,
    All,
    Ignore,
}

/// The picker's key bindings: Control-C, Esc and `q` cancel; Enter
/// finishes; Up or `k`, Down or `j` move; space or Tab toggle the row;
/// `a` checks every row, or clears every row when all are checked.
pub open spec fn key_effect(k: KeyPress) -> KeyEffect {
    if k.key == PickerKey::Char('c') && k.control {
        KeyEffect::Cancel
    } else if k.key == PickerKey::Esc || k.key == PickerKey::Char('q') {
        KeyEffect::Cancel
    } else if k.key == PickerKey::Enter {
        KeyEffect::Finish
    } else if k.key == PickerKey::Up || k.key == PickerKey::Char('k') {
        KeyEffect::Up
    } else if k.key == PickerKey::Down || k.key == PickerKey::Char('j') {
        KeyEffect::Down
    } else if k.key == PickerKey::Char(' ') || k.key == PickerKey::Tab {
        KeyEffect::Toggle
    } else if k.key == PickerKey::Char('a') {
        KeyEffect::All
    } else {
        KeyEffect::Ignore
    }
}

/// The indices among the first `n` rows whose box is checked, in order.
pub open spec fn checked_among(sel: Seq<bool>, n: nat) -> Seq<usize>
    decreases n,
{
    if n == 0 {
        seq![]
    } else {
        let p = checked_among(sel, (n - 1) as nat);
        if sel[n - 1] {
            p.push((n - 1) as usize)
        } else {
            p
        }
    }
}

/// The indices of the checked rows, in order.
pub open spec fn checked_indices(sel: Seq<bool>) -> Seq<usize> {
    checked_among(sel, sel.len())
}

/// `n` boxes, all set to `v`.
pub open spec fn filled(n: nat, v: bool) -> Seq<bool> {
    Seq::new(n, |i: int| v)
}

/// Whether every box is checked.
pub open spec fn all_checked(sel: Seq<bool>) -> bool {
    forall|i: int| 0 <= i < sel.len() ==> #[trigger] sel[i]
}

impl PickerState {
    /// A picker is well formed when there is at least one row and the
    /// cursor is on one of them.
    pub open spec fn wf(&self) -> bool {
        self.cursor < self.selected@.len()
    }

    /// A picker over `count` updates, all checked, with the cursor on the
    /// first.
    pub fn new(count: usize) -> (s: Self)
        requires
            count > 0,
        ensures
            s.wf(),
            s.cursor == 0,
            s.selected@ == filled(count as nat, true),
    {
        let mut selected: Vec<bool> = Vec::new();
        let mut i: usize = 0;
        while i < count
            invariant
                i <= count,
                selected@ == filled(i as nat, true),
            decreases count - i,
        {
            selected.push(true);
            i += 1;
        }
        PickerState { selected, cursor: 0 }
    }

    /// Applies one key press and says what the caller does next.
    pub fn press(&mut self, k: KeyPress) -> (a: PickerAction)
        requires
            old(self).wf(),
        ensures
            final(self).wf(),
            match key_effect(k) {
                KeyEffect::Cancel => a == PickerAction::Cancel && final(self).selected@ == old(self).selected@
                    && final(self).cursor == old(self).cursor,
                KeyEffect::Finish => a matches PickerAction::Finish(v) && v@ == checked_indices(
                    old(self).selected@,
                ) && final(self).selected@ == old(self).selected@ && final(self).cursor == old(self).cursor,
                KeyEffect::Up => a == PickerAction::Redraw && final(self).selected@ == old(
                    self,
                ).selected@ && final(self).cursor == (if old(self).cursor > 0 {
                    old(self).cursor - 1
                } else {
                    0
                }),
                KeyEffect::Down => a == PickerAction::Redraw && final(self).selected@ == old(
                    self,
                ).selected@ && final(self).cursor == (if old(self).cursor + 1 < old(
                    self,
                ).selected@.len() {
                    old(self).cursor + 1
                } else {
                    old(self).cursor as int
                }),
                KeyEffect::Toggle => a == PickerAction::Redraw && final(self).cursor == old(
                    self,
                ).cursor && final(self).selected@ == old(self).selected@.update(
                    old(self).cursor as int,
                    !old(self).selected@[old(self).cursor as int],
                ),
                KeyEffect::All => a == PickerAction::Redraw && final(self).cursor == old(
                    self,
                ).cursor && final(self).selected@ == filled(
                    old(self).selected@.len(),
                    !all_checked(old(self).selected@),
                ),
                KeyEffect::Ignore => a == PickerAction::Redraw && final(self).selected@ == old(self).selected@
                    && final(self).cursor == old(self).cursor,
            },
    {
        let code = k.key;
        if code == PickerKey::Char('c') && k.control {
            return PickerAction::Cancel;
        }
        match code {
            PickerKey::Esc | PickerKey::Char('q') => PickerAction::Cancel,
            PickerKey::Enter => PickerAction::Finish(checked_rows(&self.selected)),
            PickerKey::Up | PickerKey::Char('k') => {
                if self.cursor > 0 {
                    self.cursor = self.cursor - 1;
                }
                PickerAction::Redraw
            },
            PickerKey::Down | PickerKey::Char('j') => {
                if self.cursor < self.selected.len() - 1 {
                    self.cursor = self.cursor + 1;
                }
                PickerAction::Redraw
            },
            PickerKey::Char(' ') | PickerKey::Tab => {
                let c = self.cursor;
                let on = self.selected[c];
                self.selected.set(c, !on);
                PickerAction::Redraw
            },
            PickerKey::Char('a') => {
                let all_on = every_checked(&self.selected);
                let n = self.selected.len();
                let mut i: usize = 0;
                while i < n
                    invariant
                        n == self.selected@.len(),
                        n == old(self).selected@.len(),
                        i <= n,
                        self.cursor == old(self).cursor,
                        forall|j: int| 0 <= j < i ==> self.selected@[j] == !all_on,
                        forall|j: int| i <= j < n ==> self.selected@[j] == old(self).selected@[j],
                    decreases n - i,
                {
                    self.selected.set(i, !all_on);
                    i += 1;
                }
                proof {
                    assert(self.selected@ =~= filled(n as nat, !all_on));
                }
                PickerAction::Redraw
            },
            _ => PickerAction::Redraw,
        }
    }
}

/// Whether every box is checked.
pub fn every_checked(sel: &Vec<bool>) -> (r: bool)
    ensures
        r == all_checked(sel@),
{
    let mut i: usize = 0;
    while i < sel.len()
        invariant
            i <= sel@.len(),
            forall|j: int| 0 <= j < i ==> #[trigger] sel@[j],
        decreases sel@.len() - i,
    {
        if !sel[i] {
            return false;
        }
        i += 1;
    }
    true
}

/// The indices of the checked rows, in order.
pub fn checked_rows(sel: &Vec<bool>) -> (r: Vec<usize>)
    ensures
        r@ == checked_indices(sel@),
{
    let mut r: Vec<usize> = Vec::new();
    let mut i: usize = 0;
    while i < sel.len()
        invariant
            i <= sel@.len(),
            r@ == checked_among(sel@, i as nat),
        decreases sel@.len() - i,
    {
        if sel[i] {
            r.push(i);
        }
        i += 1;
    }
    r
}

/// How many rows are checked.
pub fn checked_count(sel: &Vec<bool>) -> (r: usize)
    ensures
        r == checked_indices(sel@).len(),
{
    let mut n: usize = 0;
    let mut i: usize = 0;
    while i < sel.len()
        invariant
            i <= sel@.len(),
            n == checked_among(sel@, i as nat).len(),
            n <= i,
        decreases sel@.len() - i,
    {
        if sel[i] {
            n += 1;
        }
        i += 1;
    }
    n
}

// ---------------------------------------------------------------------
// Laws of the picker
// ---------------------------------------------------------------------

proof fn lemma_checked_among(sel: Seq<bool>, n: nat)
    requires
        n <= sel.len(),
        sel.len() <= usize::MAX,
    ensures
        checked_among(sel, n).len() <= n,
        forall|k: int|
            0 <= k < checked_among(sel, n).len() ==> (#[trigger] checked_among(sel, n)[k]) < n
                && sel[checked_among(sel, n)[k] as int],
        forall|a: int, b: int|
            0 <= a < b < checked_among(sel, n).len() ==> (#[trigger] checked_among(sel, n)[a])
                < #[trigger] checked_among(sel, n)[b],
        forall|i: int|
            0 <= i < n && #[trigger] sel[i] ==> checked_among(sel, n).contains(i as usize),
    decreases n,
{
    if n > 0 {
        lemma_checked_among(sel, (n - 1) as nat);
        let p = checked_among(sel, (n - 1) as nat);
        if sel[n - 1] {
            assert(p.push((n - 1) as usize)[p.len() as int] == (n - 1) as usize);
            assert forall|i: int| 0 <= i < n && #[trigger] sel[i] implies checked_among(
                sel,
                n,
            ).contains(i as usize) by {
                if i < n - 1 {
                    let k = choose|k: int| 0 <= k < p.len() && p[k] == i as usize;
                    assert(checked_among(sel, n)[k] == i as usize);
                } else {
                    assert(checked_among(sel, n)[p.len() as int] == i as usize);
                }
            }
        }
    }
}

/// Finishing gives back exactly the checked rows, each once, in increasing
/// order, each a valid row index.
pub proof fn lemma_finish_gives_checked_rows(sel: Seq<bool>)
    requires
        sel.len() <= usize::MAX,
    ensures
        forall|k: int|
            0 <= k < checked_indices(sel).len() ==> (#[trigger] checked_indices(sel)[k]) < sel.len()
                && sel[checked_indices(sel)[k] as int],
        forall|a: int, b: int|
            0 <= a < b < checked_indices(sel).len() ==> (#[trigger] checked_indices(sel)[a])
                < #[trigger] checked_indices(sel)[b],
        forall|i: int| 0 <= i < sel.len() && #[trigger] sel[i] ==> checked_indices(sel).contains(i as usize),
{
    lemma_checked_among(sel, sel.len());
}

/// Toggling the same row twice leaves the boxes as they were.
pub proof fn lemma_toggle_twice(s: PickerState, k: KeyPress)
    requires
        s.wf(),
        key_effect(k) == KeyEffect::Toggle,
    ensures
        s.selected@.update(s.cursor as int, !s.selected@[s.cursor as int]).update(
            s.cursor as int,
            !s.selected@.update(s.cursor as int, !s.selected@[s.cursor as int])[s.cursor as int],
        ) == s.selected@,
{
    assert(s.selected@.update(s.cursor as int, !s.selected@[s.cursor as int]).update(
        s.cursor as int,
        !s.selected@.update(s.cursor as int, !s.selected@[s.cursor as int])[s.cursor as int],
    ) =~= s.selected@);
}

/// After `a` every box is checked or every box is cleared, and pressing it
/// again from all checked clears all, from all cleared checks all.
pub proof fn lemma_all_key(sel: Seq<bool>)
    requires
        sel.len() > 0,
    ensures
        all_checked(filled(sel.len(), !all_checked(sel))) != all_checked(sel),
        all_checked(sel) ==> filled(sel.len(), !all_checked(filled(sel.len(), !all_checked(sel))))
            == sel,
{
    let t = filled(sel.len(), !all_checked(sel));
    if all_checked(sel) {
        assert(!t[0]);
        assert(filled(sel.len(), true) =~= sel);
    }
}

// ---------------------------------------------------------------------
// The screen
// ---------------------------------------------------------------------

/// How many list rows fit on a screen `rows` lines high: four lines go to
/// the header and the status line, and at least one row is shown.
pub open spec fn visible_rows_spec(rows: u16) -> nat {
    if rows > 5 {
        (rows - 4) as nat
    } else {
        1
    }
}

pub fn visible_rows(rows: u16) -> (r: usize)
    ensures
        r == visible_rows_spec(rows),
{
    if rows > 5 {
        (rows - 4) as usize
    } else {
        1
    }
}

/// The first row shown, so that the cursor stays on screen: moved up to the
/// cursor when it is above, or down just far enough when it is below.
pub open spec fn scroll_spec(cursor: nat, offset: nat, visible: nat) -> nat {
    if cursor < offset {
        cursor
    } else if cursor >= offset + visible {
        (cursor + 1 - visible) as nat
    } else {
        offset
    }
}

pub fn scroll_offset(cursor: usize, offset: usize, visible: usize) -> (r: usize)
    requires
        visible > 0,
    ensures
        r == scroll_spec(cursor as nat, offset as nat, visible as nat),
        r <= cursor < r + visible,
{
    if cursor < offset {
        cursor
    } else if cursor - offset >= visible {
        cursor - visible + 1
    } else {
        offset
    }
}

/// The end (exclusive) of the rows shown from `offset`.
pub fn window_end(offset: usize, visible: usize, len: usize) -> (r: usize)
    ensures
        r == (if offset + visible < len { offset + visible } else { len as int }),
{
    if offset < len && len - offset > visible {
        offset + visible
    } else {
        len
    }
}

/// The screen line of an update: the repository (`aur` for the AUR, `repo`
/// when unknown), a slash, the name, two spaces, and the versions.
pub open spec fn row_spec(
    source: PackageSource,
    repository: Seq<char>,
    name: Seq<char>,
    current: Seq<char>,
    new: Seq<char>,
) -> Seq<char> {
    let repo = if source == PackageSource::Aur {
        "aur"@
    } else if repository.len() == 0 {
        "repo"@
    } else {
        repository
    };
    if current.len() == 0 {
        repo + "/"@ + name + "  "@ + new
    } else {
        repo + "/"@ + name + "  "@ + current + " -> "@ + new
    }
}

pub open spec fn pkg_row(pkg: PackageUpdate) -> Seq<char> {
    row_spec(pkg.source, pkg.repository@, pkg.name@, pkg.current_version@, pkg.new_version@)
}

pub fn format_row(pkg: &PackageUpdate) -> (r: String)
    ensures
        r@ == pkg_row(*pkg),
{
    let mut s = if pkg.source == PackageSource::Aur {
        string_from("aur")
    } else if pkg.repository.as_str().is_empty() {
        string_from("repo")
    } else {
        pkg.repository.clone()
    };
    push_str(&mut s, "/");
    push_str(&mut s, pkg.name.as_str());
    push_str(&mut s, "  ");
    if pkg.current_version.as_str().is_empty() {
        push_str(&mut s, pkg.new_version.as_str());
    } else {
        push_str(&mut s, pkg.current_version.as_str());
        push_str(&mut s, " -> ");
        push_str(&mut s, pkg.new_version.as_str());
    }
    proof {
        reveal_strlit("aur");
        reveal_strlit("repo");
    }
    s
}

/// The first `max` characters of `text`.
pub open spec fn truncate_spec(text: Seq<char>, max: nat) -> Seq<char> {
    if max < text.len() {
        text.take(max as int)
    } else {
        text
    }
}

pub fn truncate(text: &str, max: usize) -> (r: String)
    ensures
        r@ == truncate_spec(text@, max as nat),
{
    let cs = chars_of(text);
    if max < cs.len() {
        let mut v: Vec<char> = Vec::new();
        let mut i: usize = 0;
        while i < max
            invariant
                i <= max < cs@.len(),
                v@ == cs@.take(i as int),
            decreases max - i,
        {
            v.push(cs[i]);
            proof {
                assert(cs@.take(i + 1) =~= cs@.take(i as int).push(cs@[i as int]));
            }
            i += 1;
        }
        string_of(&v)
    } else {
        string_of(&cs)
    }
}

/// A list line: the check box, a space and the row, cut to the screen's
/// width.
pub open spec fn list_line_spec(on: bool, pkg: PackageUpdate, cols: nat) -> Seq<char> {
    truncate_spec((if on { "[x]"@ } else { "[ ]"@ }) + " "@ + pkg_row(pkg), cols)
}

pub fn list_line(on: bool, pkg: &PackageUpdate, cols: usize) -> (r: String)
    ensures
        r@ == list_line_spec(on, *pkg, cols as nat),
{
    let mut s = if on {
        string_from("[x]")
    } else {
        string_from("[ ]")
    };
    push_str(&mut s, " ");
    let row = format_row(pkg);
    push_str(&mut s, row.as_str());
    truncate(s.as_str(), cols)
}

/// The status line: how many of the updates are checked.
pub open spec fn status_spec(count: nat, total: nat) -> Seq<char> {
    decimal(count) + " of "@ + decimal(total) + " selected"@
}

pub fn status_line(count: usize, total: usize) -> (r: String)
    ensures
        r@ == status_spec(count as nat, total as nat),
{
    let mut s = fmt_u64(count as u64);
    push_str(&mut s, " of ");
    let t = fmt_u64(total as u64);
    push_str(&mut s, t.as_str());
    push_str(&mut s, " selected");
    s
}

} // verus!
