//! The filesystem browser pane: the entry list of the current directory,
//! cursor movement, and the decisions taken on opening an entry.
//!
//! The shell reads directories and knows which paths are directories; it
//! hands plain (path, file name) pairs in and performs the moves this
//! pane decides on.

use vstd::prelude::*;

use crate::list::ListSelector;
use crate::order::{lemma_str_le_total, lemma_str_le_trans, str_le, str_le_exec};

verus! {

/// One row of the browser list.
#[derive(Debug)]
pub enum BrowserItem {
    /// The parent directory.
    UpDirectory,
    /// A file or directory, by full path.
    Entry(String),
}

impl Clone for BrowserItem {
    fn clone(&self) -> (r: Self)
        ensures
            r == *self,
    {
        match self {
            BrowserItem::UpDirectory => BrowserItem::UpDirectory,
            BrowserItem::Entry(p) => BrowserItem::Entry(p.clone()),
        }
    }
}

/// The path an entry row stands for; the parent row has none.
pub open spec fn entry_path(b: BrowserItem) -> Seq<char> {
    match b {
        BrowserItem::UpDirectory => Seq::empty(),
        BrowserItem::Entry(p) => p@,
    }
}

/// A name the browser hides: one starting with a dot.
pub open spec fn hidden_name(name: Seq<char>) -> bool {
    name.len() > 0 && name[0] == '.'
}

/// How many of the given (path, name) pairs the browser shows.
pub open spec fn kept_count(entries: Seq<(String, String)>) -> int
    decreases entries.len(),
{
    if entries.len() == 0 {
        0
    } else {
        kept_count(entries.drop_last()) + if hidden_name(entries.last().1@) {
            0int
        } else {
            1int
        }
    }
}

/// Keep a path list ordered: insert after every path that comes no
/// later.
#[verifier::loop_isolation(false)]
fn insert_path_sorted(kept: &mut Vec<String>, p: String)
    requires
        forall|i: int, j: int|
            0 <= i < j < old(kept)@.len() ==> str_le(
                (#[trigger] old(kept)@[i])@,
                (#[trigger] old(kept)@[j])@,
            ),
    ensures
        forall|i: int, j: int|
            0 <= i < j < final(kept)@.len() ==> str_le(
                (#[trigger] final(kept)@[i])@,
                (#[trigger] final(kept)@[j])@,
            ),
        exists|q: int|
            #![auto]
            0 <= q <= old(kept)@.len() && final(kept)@ == old(kept)@.insert(q, p),
{
    let mut pos: usize = 0;
    while pos < kept.len() && str_le_exec(kept[pos].as_str(), p.as_str())
        invariant
            pos <= kept@.len(),
            kept@ == old(kept)@,
            forall|i: int| 0 <= i < pos ==> str_le((#[trigger] kept@[i])@, p@),
        decreases kept@.len() - pos,
    {
        pos += 1;
    }
    let ghost oldkept = kept@;
    let ghost gpos = pos as int;
    kept.insert(pos, p);
    proof {
        oldkept.insert_ensures(gpos, p);
        if gpos < oldkept.len() {
            lemma_str_le_total(oldkept[gpos]@, p@);
        }
        assert forall|i: int, j: int|
            0 <= i < j < kept@.len() implies str_le(
            (#[trigger] kept@[i])@,
            (#[trigger] kept@[j])@,
        ) by {
            if i < gpos {
                assert(kept@[i] == oldkept[i]);
            } else if i > gpos {
                assert(kept@[i] == oldkept[i - 1]);
            }
            if j < gpos {
                assert(kept@[j] == oldkept[j]);
            } else if j > gpos {
                assert(kept@[j] == oldkept[j - 1]);
            }
            if i == gpos && j > gpos {
                assert(str_le(p@, oldkept[gpos]@));
                if j - 1 > gpos {
                    assert(str_le(oldkept[gpos]@, oldkept[j - 1]@));
                    lemma_str_le_trans(p@, oldkept[gpos]@, oldkept[j - 1]@);
                }
            }
        };
    }
}

/// The paths of the pairs the browser keeps (name not hidden), in input
/// order.
pub open spec fn kept_paths(entries: Seq<(String, String)>) -> Seq<Seq<char>>
    decreases entries.len(),
{
    if entries.len() == 0 {
        Seq::empty()
    } else {
        kept_paths(entries.drop_last()) + if hidden_name(entries.last().1@) {
            Seq::empty()
        } else {
            seq![entries.last().0@]
        }
    }
}

/// Arrange a directory's (path, file name) pairs into browser rows: the
/// parent entry first, then exactly the pairs whose name is not hidden,
/// as entries ordered by path.
#[verifier::loop_isolation(false)]
pub fn arrange_entries(entries: Vec<(String, String)>) -> (r: Vec<BrowserItem>)
    ensures
        r@.len() >= 1,
        r@[0] is UpDirectory,
        forall|i: int| 1 <= i < r@.len() ==> (#[trigger] r@[i]) is Entry,
        forall|i: int, j: int|
            1 <= i < j < r@.len() ==> str_le(entry_path(#[trigger] r@[i]), entry_path(
                #[trigger] r@[j],
            )),
        r@.skip(1).map_values(|b: BrowserItem| entry_path(b)).to_multiset() == kept_paths(
            entries@,
        ).to_multiset(),
{
    let mut shown: Vec<String> = Vec::new();
    let mut k: usize = 0;
    while k < entries.len()
        invariant
            k <= entries@.len(),
            shown@.map_values(|s: String| s@) == kept_paths(entries@.take(k as int)),
        decreases entries@.len() - k,
    {
        proof {
            assert(entries@.take(k + 1).drop_last() =~= entries@.take(k as int));
            assert(entries@.take(k + 1).last() == entries@[k as int]);
        }
        let ghost oldmap = shown@.map_values(|s: String| s@);
        let name = &entries[k].1;
        let is_hidden = name.unicode_len() > 0 && name.get_char(0) == '.';
        if !is_hidden {
            let p = entries[k].0.clone();
            shown.push(p);
            proof {
                assert(shown@.map_values(|s: String| s@) =~= oldmap + seq![
                    entries@[k as int].0@,
                ]);
            }
        } else {
            proof {
                assert(oldmap + Seq::<Seq<char>>::empty() =~= oldmap);
            }
        }
        k += 1;
    }
    proof {
        assert(entries@.take(entries@.len() as int) =~= entries@);
    }
    let mut kept: Vec<String> = Vec::new();
    let mut i: usize = 0;
    proof {
        assert(kept@.map_values(|s: String| s@) =~= Seq::<Seq<char>>::empty());
        assert(shown@.map_values(|s: String| s@).take(0) =~= Seq::<Seq<char>>::empty());
    }
    while i < shown.len()
        invariant
            i <= shown@.len(),
            forall|i0: int, j0: int|
                0 <= i0 < j0 < kept@.len() ==> str_le(
                    (#[trigger] kept@[i0])@,
                    (#[trigger] kept@[j0])@,
                ),
            kept@.map_values(|s: String| s@).to_multiset() == shown@.map_values(
                |s: String| s@,
            ).take(i as int).to_multiset(),
        decreases shown@.len() - i,
    {
        let ghost oldkept = kept@;
        let ghost allmap = shown@.map_values(|s: String| s@);
        let p = shown[i].clone();
        insert_path_sorted(&mut kept, p);
        proof {
            let q = choose|q: int| #![auto] 0 <= q <= oldkept.len() && kept@ == oldkept.insert(
                q,
                p,
            );
            oldkept.insert_ensures(q, p);
            let oldmap = oldkept.map_values(|s: String| s@);
            assert(kept@.map_values(|s: String| s@) =~= oldmap.insert(q, p@)) by {
                oldmap.insert_ensures(q, p@);
            }
            vstd::seq_lib::to_multiset_insert(oldmap, q, p@);
            assert(allmap.take(i + 1) =~= allmap.take(i as int).push(allmap[i as int]));
            vstd::seq_lib::to_multiset_build(allmap.take(i as int), allmap[i as int]);
            assert(allmap[i as int] == p@);
        }
        i += 1;
    }
    proof {
        assert(shown@.map_values(|s: String| s@).take(shown@.len() as int) =~= shown@.map_values(
            |s: String| s@,
        ));
    }
    let mut r: Vec<BrowserItem> = Vec::new();
    r.push(BrowserItem::UpDirectory);
    let mut j: usize = 0;
    while j < kept.len()
        invariant
            j <= kept@.len(),
            r@.len() == 1 + j,
            r@[0] is UpDirectory,
            forall|i0: int| 1 <= i0 < r@.len() ==> (#[trigger] r@[i0]) is Entry,
            forall|i0: int| 1 <= i0 < r@.len() ==> entry_path(#[trigger] r@[i0]) == kept@[i0 - 1]@,
        decreases kept@.len() - j,
    {
        r.push(BrowserItem::Entry(kept[j].clone()));
        j += 1;
    }
    proof {
        assert(r@.skip(1).map_values(|b: BrowserItem| entry_path(b)) =~= kept@.map_values(
            |s: String| s@,
        ));
    }
    r
}

/// What opening the selected row should do.
#[derive(Debug)]
pub enum OpenAction {
    /// Go to the parent directory.
    GoUp,
    /// Enter this directory.
    Enter(String),
    /// Nothing: a file, or nothing selected.
    Stay,
}

/// The browser pane.
pub struct BrowserState {
    pub current_dir: String,
    pub list: ListSelector<BrowserItem>,
}

impl BrowserState {
    /// A browser showing `entries` of `current_dir`, cursor at the top.
    pub fn new(current_dir: String, entries: Vec<BrowserItem>) -> (b: BrowserState)
        ensures
            b.current_dir == current_dir,
            b.list.entries == entries,
            b.list.selected == 0,
    {
        BrowserState { current_dir, list: ListSelector::new(entries) }
    }

    /// Move the cursor up one row.
    pub fn move_up(&mut self)
        ensures
            final(self).current_dir == old(self).current_dir,
            final(self).list.entries == old(self).list.entries,
            final(self).list.selected == if old(self).list.selected > 0 {
                old(self).list.selected - 1
            } else {
                0int
            },
    {
        self.list.move_up();
    }

    /// Move the cursor down one row.
    pub fn move_down(&mut self)
        ensures
            final(self).current_dir == old(self).current_dir,
            final(self).list.entries == old(self).list.entries,
            final(self).list.selected == if old(self).list.selected + 1
                < old(self).list.entries@.len() {
                old(self).list.selected + 1
            } else {
                old(self).list.selected as int
            },
    {
        self.list.move_down();
    }

    /// The path under the cursor, when it is on an entry row.
    pub fn selected_path(&self) -> (r: Option<&String>)
        ensures
            ({
                let sel = self.list.selected as int;
                if sel < self.list.entries@.len() {
                    match self.list.entries@[sel] {
                        BrowserItem::Entry(p) => r matches Some(q) && *q == p,
                        BrowserItem::UpDirectory => r is None,
                    }
                } else {
                    r is None
                }
            }),
    {
        match self.list.selected_item() {
            Some(BrowserItem::Entry(p)) => Some(p),
            _ => None,
        }
    }

    /// What opening the selected row should do: the parent row goes up, a
    /// directory entry is entered, anything else stays.  The shell says
    /// whether the selected path is a directory.
    pub fn open_request(&self, selected_is_dir: bool) -> (a: OpenAction)
        ensures
            ({
                let sel = self.list.selected as int;
                if sel < self.list.entries@.len() {
                    match self.list.entries@[sel] {
                        BrowserItem::UpDirectory => a is GoUp,
                        BrowserItem::Entry(p) => if selected_is_dir {
                            a matches OpenAction::Enter(q) && q == p
                        } else {
                            a is Stay
                        },
                    }
                } else {
                    a is Stay
                }
            }),
    {
        match self.list.selected_item() {
            Some(BrowserItem::UpDirectory) => OpenAction::GoUp,
            Some(BrowserItem::Entry(p)) => {
                if selected_is_dir {
                    OpenAction::Enter(p.clone())
                } else {
                    OpenAction::Stay
                }
            },
            None => OpenAction::Stay,
        }
    }

    /// Show another directory: its path and its arranged rows, cursor at
    /// the top.  Both entering a directory and going up land here.
    pub fn enter_directory(&mut self, dir: String, entries: Vec<BrowserItem>)
        ensures
            final(self).current_dir == dir,
            final(self).list.entries == entries,
            final(self).list.selected == 0,
    {
        self.current_dir = dir;
        self.list.set_entries(entries);
    }
}

} // verus!
