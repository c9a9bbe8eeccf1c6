use vstd::prelude::*;

use crate::action::Action;
use crate::chars::copy_text;
use crate::context::Context;
use crate::combobox::{ComboBox, ComboItem, FileItem};
use crate::editor::combobox::texts;
use crate::paths::{combined, count_slashes, find_last_slash, joined, lemma_last_slash, slash_count, last_slash};
use crate::selection::SelectionMode;
use crate::status::DialogueStatus;
use crate::textbox::TextBox;

verus! {

/// `entries` after the hidden ones (those beginning with `.`) met from
/// `index` on were dealt with, as the listing does it: each time the entry
/// at `index` is hidden, the first entry is taken off, and put at the end
/// where hidden entries are shown; `remaining` entries are left to look at.
pub open spec fn hidden_moved(entries: Seq<Seq<char>>, index: int, remaining: int, show_hidden: bool) -> Seq<Seq<char>>
    decreases remaining - index,
{
    if index < 0 || index >= remaining || index >= entries.len() {
        entries
    } else if entries[index].len() > 0 && entries[index][0] == '.' {
        let rest = entries.drop_first();
        hidden_moved(if show_hidden { rest.push(entries[0]) } else { rest }, index, remaining - 1, show_hidden)
    } else {
        hidden_moved(entries, index + 1, remaining, show_hidden)
    }
}

/// Where hidden entries are shown, dealing with them only reorders the
/// entries: each stays, as often as it was there.
pub proof fn law_hidden_shown_kept(entries: Seq<Seq<char>>, index: int, remaining: int)
    ensures
        hidden_moved(entries, index, remaining, true).to_multiset() == entries.to_multiset(),
    decreases remaining - index,
{
    if index < 0 || index >= remaining || index >= entries.len() {
    } else if entries[index].len() > 0 && entries[index][0] == '.' {
        let rest = entries.drop_first();
        let moved = rest.push(entries[0]);
        law_hidden_shown_kept(moved, index, remaining - 1);
        rest.to_multiset_ensures();
        moved.to_multiset_ensures();
        assert(entries == seq![entries[0]] + rest);
        vstd::seq_lib::lemma_multiset_commutative(seq![entries[0]], rest);
        vstd::seq_lib::lemma_multiset_commutative(rest, seq![entries[0]]);
        assert(moved == rest + seq![entries[0]]);
    } else {
        law_hidden_shown_kept(entries, index + 1, remaining);
    }
}

/// `path` names the current directory or one above it, relative to it: it is
/// made of `.` and `/` and does not begin with `/`.
pub open spec fn is_relative_up(path: Seq<char>) -> bool {
    &&& forall|i: int| 0 <= i < path.len() ==> path[i] == '.' || path[i] == '/'
    &&& path[0] != '/'
}

/// The entries of the directory `path`, hidden ones dealt with, and the parent
/// directory added where `path` is the current directory or one above it.
pub open spec fn with_parent(entries: Seq<Seq<char>>, path: Seq<char>, show_hidden: bool) -> Seq<Seq<char>> {
    let sorted = hidden_moved(entries, 0, entries.len() as int, show_hidden);
    if is_relative_up(path) {
        sorted.push(seq!['.', '.', '/'])
    } else {
        sorted
    }
}

/// Each of `elements` is one of `entries` or the parent directory.
pub open spec fn drawn_from(elements: Seq<Seq<char>>, entries: Seq<Seq<char>>) -> bool {
    forall|k: int| 0 <= k < elements.len() ==> #[trigger] elements[k] == seq!['.', '.', '/'] || exists|j: int|
        0 <= j < entries.len() && entries[j] == elements[k]
}

proof fn lemma_hidden_moved(entries: Seq<Seq<char>>, index: int, remaining: int, show_hidden: bool)
    ensures
        drawn_from(hidden_moved(entries, index, remaining, show_hidden), entries),
        hidden_moved(entries, index, remaining, show_hidden).len() <= entries.len(),
    decreases remaining - index,
{
    if index < 0 || index >= remaining || index >= entries.len() {
        assert forall|k: int| 0 <= k < entries.len() implies #[trigger] entries[k] == seq!['.', '.', '/'] || exists|j: int|
            0 <= j < entries.len() && entries[j] == entries[k] by {}
    } else if entries[index].len() > 0 && entries[index][0] == '.' {
        let rest = entries.drop_first();
        let next = if show_hidden { rest.push(entries[0]) } else { rest };
        lemma_hidden_moved(next, index, remaining - 1, show_hidden);
        let r = hidden_moved(next, index, remaining - 1, show_hidden);
        assert forall|k: int| 0 <= k < r.len() implies #[trigger] r[k] == seq!['.', '.', '/'] || exists|j: int|
            0 <= j < entries.len() && entries[j] == r[k] by {
            if r[k] != seq!['.', '.', '/'] {
                let j = choose|j: int| 0 <= j < next.len() && next[j] == r[k];
                if j < rest.len() {
                    assert(entries[j + 1] == r[k]);
                } else {
                    assert(entries[0] == r[k]);
                }
            }
        }
    } else {
        lemma_hidden_moved(entries, index + 1, remaining, show_hidden);
    }
}

proof fn lemma_with_parent(entries: Seq<Seq<char>>, path: Seq<char>, show_hidden: bool)
    ensures
        drawn_from(with_parent(entries, path, show_hidden), entries),
        with_parent(entries, path, show_hidden).len() <= entries.len() + 1,
{
    lemma_hidden_moved(entries, 0, entries.len() as int, show_hidden);
    let sorted = hidden_moved(entries, 0, entries.len() as int, show_hidden);
    let r = with_parent(entries, path, show_hidden);
    assert forall|k: int| 0 <= k < r.len() implies #[trigger] r[k] == seq!['.', '.', '/'] || exists|j: int|
        0 <= j < entries.len() && entries[j] == r[k] by {
        if k < sorted.len() {
            assert(r[k] == sorted[k]);
        }
    }
}

/// Entries named under `prefix` fit the arithmetic of a combo box: there
/// are not too many, and each name, the parent directory's too, is short
/// enough once `prefix` is put before it.
pub open spec fn entries_fit(entries: Seq<Seq<char>>, prefix_length: int) -> bool {
    &&& entries.len() + 1 < usize::MAX / 4
    &&& prefix_length + 3 < usize::MAX / 8
    &&& forall|j: int| 0 <= j < entries.len() ==> prefix_length + (#[trigger] entries[j]).len() < usize::MAX / 8
}

/// `items` stand for `entries`, each named under `prefix`.
pub open spec fn items_for(items: Seq<FileItem>, entries: Seq<Seq<char>>, prefix: Seq<char>) -> bool {
    &&& items.len() == entries.len()
    &&& forall|i: int| 0 <= i < items.len() ==> (#[trigger] items[i]).file() == entries[i] && items[i].path() == prefix + entries[i]
}

/// The items for `entries`, each named under `prefix`.
fn file_items(entries: Vec<Vec<char>>, prefix: &Vec<char>) -> (r: Vec<FileItem>)
    requires
        named(texts(entries@)),
    ensures
        items_for(r@, texts(entries@), prefix@),
{
    let mut items: Vec<FileItem> = Vec::new();
    let mut k: usize = 0;
    while k < entries.len()
        invariant
            k <= entries@.len(),
            named(texts(entries@)),
            items@.len() == k,
            forall|i: int| 0 <= i < k ==> (#[trigger] items@[i]).file() == entries@[i]@ && items@[i].path() == prefix@ + entries@[i]@,
        decreases entries.len() - k,
    {
        assert(texts(entries@)[k as int] == entries@[k as int]@);
        items.push(FileItem::new(copy_text(&entries[k]), prefix));
        k = k + 1;
    }
    items
}

/// What follows the last `/` is left out of `text`: `combined(text, [])`.
fn directory_of(text: &Vec<char>) -> (r: Vec<char>)
    ensures
        r@ == combined(text@, seq![]),
{
    proof {
        lemma_last_slash(text@);
    }
    let empty: Vec<char> = Vec::new();
    match find_last_slash(text) {
        Some(position) => {
            let length = text.len();
            assert(position < length);
            joined(text, position + 1, &empty)
        },
        None => {
            assert(empty@ =~= combined(text@, seq![]));
            empty
        },
    }
}

/// A file dialogue field: a combo box over the entries of the directory typed
/// so far, each named by its path. Where the directory changes, the box asks
/// for the entries of the new one through `listing`.
pub struct FileBox {
    pub combobox: ComboBox<FileItem>,
    pub directories: usize,
    pub displacement: usize,
    pub show_hidden_files: bool,
    /// The directory whose entries are to be read and handed to `apply_listing`.
    pub listing: Option<Vec<char>>,
    /// The path the entries asked for are named under.
    pub prefix: Vec<char>,
}

/// The entries of a directory as plain values.
pub open spec fn entry_texts(entries: Option<Vec<Vec<char>>>) -> Option<Seq<Seq<char>>> {
    match entries {
        Some(e) => Some(texts(e@)),
        None => None,
    }
}

/// Every entry has a name.
pub open spec fn named(entries: Seq<Seq<char>>) -> bool {
    forall|i: int| 0 <= i < entries.len() ==> #[trigger] entries[i].len() > 0
}

/// The directory to read for `path`, given how many `/` the field holds.
pub open spec fn listing_for(directories: nat, path: Seq<char>) -> Seq<char> {
    if directories == 0 {
        seq!['.', '/'] + path
    } else {
        path
    }
}

/// The entries of the current directory, for the start: the entries read,
/// hidden ones shown, with the parent directory; none where reading failed.
pub open spec fn initial_variants(entries: Option<Seq<Seq<char>>>) -> Seq<Seq<char>> {
    match entries {
        Some(e) => with_parent(e, seq!['.', '/'], true),
        None => seq![],
    }
}

/// Turns a dialogue status into a field's answer: whether the action was
/// used, and whether the dialogue is done (`Some(true)` completed,
/// `Some(false)` aborted).
pub open spec fn reply_of(status: DialogueStatus) -> (bool, Option<bool>) {
    (status.handled, if status.closed { Some(status.completed) } else { None })
}

fn reply(status: DialogueStatus) -> (r: (bool, Option<bool>))
    ensures
        r == reply_of(status),
{
    (status.handled, if status.closed { Some(status.completed) } else { None })
}

impl FileBox {
    /// The combo box is usable.
    pub open spec fn wf(&self) -> bool {
        self.combobox.wf()
    }

    /// A field over the entries of the current directory, read by the caller
    /// (`None` where reading failed).
    pub fn new(description: &str, displacement: usize, allow_unknown: bool, entries: Option<Vec<Vec<char>>>) -> (r: Self)
        requires
            entries matches Some(e) ==> named(texts(e@)) && entries_fit(texts(e@), 0),
        ensures
            r.wf(),
            items_for(r.combobox.entries(), initial_variants(entry_texts(entries)), seq![]),
            r.combobox.field().description@ == description@,
            r.combobox.field().filebuffer.text() == seq![' '],
            r.combobox.unknown_allowed() == allow_unknown,
            r.combobox.focus() is None,
            r.displacement == displacement,
            r.directories == 0,
            r.show_hidden_files,
            r.listing is None,
            r.prefix@ == Seq::<char>::empty(),
    {
        let mut here: Vec<char> = Vec::new();
        here.push('.');
        here.push('/');
        assert(here@ =~= seq!['.', '/']);
        let prefix: Vec<char> = Vec::new();
        let items = match entries {
            Some(entries) => {
                proof {
                    lemma_with_parent(texts(entries@), here@, true);
                }
                let listed = Self::entries_with_parent(entries, &here, true);
                Self::fitting_items(listed, &prefix, Ghost(texts(entries@)))
            },
            None => {
                let none: Vec<FileItem> = Vec::new();
                none
            },
        };
        Self {
            combobox: ComboBox::new(description, displacement, allow_unknown, items),
            displacement,
            directories: 0,
            show_hidden_files: true,
            listing: None,
            prefix,
        }
    }

    /// The items for `listed`, drawn from entries that fit under `prefix`.
    fn fitting_items(listed: Vec<Vec<char>>, prefix: &Vec<char>, Ghost(read): Ghost<Seq<Seq<char>>>) -> (r: Vec<FileItem>)
        requires
            named(read),
            entries_fit(read, prefix@.len() as int),
            drawn_from(texts(listed@), read),
            listed@.len() <= read.len() + 1,
        ensures
            items_for(r@, texts(listed@), prefix@),
            r@.len() < usize::MAX / 4,
            forall|i: int| 0 <= i < r@.len() ==> (#[trigger] r@[i]).name().len() < usize::MAX / 8,
    {
        proof {
            assert forall|i: int| 0 <= i < texts(listed@).len() implies #[trigger] texts(listed@)[i].len() > 0 by {
                if texts(listed@)[i] != seq!['.', '.', '/'] {
                    let j = choose|j: int| 0 <= j < read.len() && read[j] == texts(listed@)[i];
                }
            }
        }
        let items = file_items(listed, prefix);
        proof {
            assert forall|i: int| 0 <= i < items@.len() implies (#[trigger] items@[i]).name().len() < usize::MAX / 8 by {
                let e = texts(listed@)[i];
                assert(items@[i].path() == prefix@ + e);
                if e != seq!['.', '.', '/'] {
                    let j = choose|j: int| 0 <= j < read.len() && read[j] == e;
                    assert(prefix@.len() + read[j].len() < usize::MAX / 8);
                }
            }
        }
        items
    }

    /// The path typed.
    pub fn get(&self) -> (r: Vec<char>)
        ensures
            r@ == self.combobox.field().typed(),
    {
        self.combobox.get_text()
    }

    /// The entries of the directory `path` as `with_parent` makes them.
    pub fn entries_with_parent(entries: Vec<Vec<char>>, path: &Vec<char>, show_hidden_files: bool) -> (r: Vec<Vec<char>>)
        requires
            named(texts(entries@)),
            path@.len() > 0,
        ensures
            texts(r@) == with_parent(texts(entries@), path@, show_hidden_files),
    {
        let ghost original = texts(entries@);
        let mut list = entries;
        let mut index: usize = 0;
        let mut remaining = list.len();
        while index < remaining
            invariant
                index <= remaining <= list@.len(),
                named(texts(list@)),
                hidden_moved(texts(list@), index as int, remaining as int, show_hidden_files) == hidden_moved(
                    original, 0, original.len() as int, show_hidden_files),
            decreases remaining - index,
        {
            assert(texts(list@)[index as int] == list@[index as int]@);
            if list[index].len() > 0 && list[index][0] == '.' {
                let ghost before = texts(list@);
                let entry = list.remove(0);
                if show_hidden_files {
                    list.push(entry);
                    assert(texts(list@) =~= before.drop_first().push(before[0]));
                } else {
                    assert(texts(list@) =~= before.drop_first());
                }
                remaining = remaining - 1;
            } else {
                index = index + 1;
            }
        }
        proof {
            assert(hidden_moved(texts(list@), index as int, remaining as int, show_hidden_files) == texts(list@));
        }
        let mut k: usize = 0;
        while k < path.len()
            invariant
                k <= path@.len(),
                texts(list@) == hidden_moved(original, 0, original.len() as int, show_hidden_files),
                original == texts(entries@),
                forall|i: int| 0 <= i < k ==> path@[i] == '.' || path@[i] == '/',
            decreases path.len() - k,
        {
            if path[k] != '.' && path[k] != '/' {
                assert(!is_relative_up(path@));
                assert(texts(list@) == with_parent(original, path@, show_hidden_files));
                return list;
            }
            k = k + 1;
        }
        if path[0] == '/' {
            return list;
        }
        let mut parent: Vec<char> = Vec::new();
        parent.push('.');
        parent.push('.');
        parent.push('/');
        assert(parent@ =~= seq!['.', '.', '/']);
        let ghost before = texts(list@);
        list.push(parent);
        assert(texts(list@) =~= before.push(seq!['.', '.', '/']));
        list
    }
}

/// The listing asked for, as plain values.
pub open spec fn listing_of(fb: &FileBox) -> Option<Seq<char>> {
    match fb.listing {
        Some(p) => Some(p@),
        None => None,
    }
}

/// Where removing a section cuts the path: at the last `/` before its end.
pub open spec fn section_cut(text: Seq<char>) -> Option<int> {
    if text.len() > 0 && text.last() == '/' {
        last_slash(text.drop_last())
    } else {
        last_slash(text)
    }
}

impl FileBox {
    /// The directory changes with the number of `/` in the path typed; then
    /// its entries are asked for, to be named under the directory typed.
    pub open spec fn checked(new: &FileBox, old: &FileBox) -> bool {
        let d = slash_count(old.combobox.field().typed());
        let path = if d == 0 { seq![] } else { combined(old.combobox.original(), seq![]) };
        &&& new.combobox == old.combobox
        &&& new.show_hidden_files == old.show_hidden_files
        &&& new.displacement == old.displacement
        &&& new.directories == d
        &&& if old.directories != d {
            listing_of(new) == Some(listing_for(d, path)) && new.prefix@ == path
        } else {
            listing_of(new) == listing_of(old) && new.prefix@ == old.prefix@
        }
    }

    /// Asks for the entries of the directory `path` stands for, to be named
    /// under `path`.
    fn update_entries(&mut self, path: &Vec<char>)
        ensures
            listing_of(final(self)) == Some(listing_for(slash_count(old(self).combobox.field().typed()), path@)),
            final(self).prefix@ == path@,
            final(self).combobox == old(self).combobox,
            final(self).show_hidden_files == old(self).show_hidden_files,
            final(self).displacement == old(self).displacement,
            final(self).directories == old(self).directories,
    {
        let directories = count_slashes(&self.combobox.get_text());
        let complete_path = if directories == 0 {
            let mut here: Vec<char> = Vec::new();
            here.push('.');
            here.push('/');
            let mut i: usize = 0;
            while i < path.len()
                invariant
                    i <= path@.len(),
                    here@ == seq!['.', '/'] + path@.take(i as int),
                decreases path.len() - i,
            {
                here.push(path[i]);
                i = i + 1;
                assert(here@ =~= seq!['.', '/'] + path@.take(i as int));
            }
            assert(path@.take(path@.len() as int) =~= path@);
            here
        } else {
            copy_text(path)
        };
        self.listing = Some(complete_path);
        self.prefix = copy_text(path);
    }

    /// Takes the entries read for the directory asked for (`None` where
    /// reading failed) as the items, named under the path asked for.
    pub fn apply_listing(&mut self, entries: Option<Vec<Vec<char>>>)
        requires
            old(self).wf(),
            entries matches Some(e) ==> named(texts(e@)) && entries_fit(texts(e@), old(self).prefix@.len() as int),
            listing_of(old(self)) matches Some(p) ==> p.len() > 0,
        ensures
            final(self).wf(),
            listing_of(final(self)) is None,
            listing_of(old(self)) matches Some(p) ==> items_for(final(self).combobox.entries(), match entry_texts(entries) {
                Some(e) => with_parent(e, p, old(self).show_hidden_files),
                None => seq![],
            }, old(self).prefix@),
            listing_of(old(self)) is None ==> final(self).combobox.entries() == old(self).combobox.entries(),
            final(self).combobox.field() == old(self).combobox.field(),
            final(self).combobox.focus() == old(self).combobox.focus(),
            final(self).combobox.first_shown() == old(self).combobox.first_shown(),
            final(self).combobox.unknown_allowed() == old(self).combobox.unknown_allowed(),
            final(self).show_hidden_files == old(self).show_hidden_files,
            final(self).directories == old(self).directories,
            final(self).prefix == old(self).prefix,
    {
        let listing = self.listing.take();
        if let Some(path) = listing {
            let items = match entries {
                Some(entries) => {
                    proof {
                        lemma_with_parent(texts(entries@), path@, self.show_hidden_files);
                    }
                    let listed = Self::entries_with_parent(entries, &path, self.show_hidden_files);
                    Self::fitting_items(listed, &self.prefix, Ghost(texts(entries@)))
                },
                None => {
                    let none: Vec<FileItem> = Vec::new();
                    proof {
                        assert(items_for(none@, seq![], self.prefix@));
                    }
                    none
                },
            };
            self.combobox.set_items(items);
        }
    }

    /// Asks for the entries of the directory typed where it changed.
    fn check_directories(&mut self)
        ensures
            FileBox::checked(final(self), old(self)),
    {
        let directories = count_slashes(&self.combobox.get_text());
        if self.directories != directories {
            self.directories = directories;
            if directories == 0 {
                let empty: Vec<char> = Vec::new();
                self.update_entries(&empty);
            } else {
                let original = self.combobox.get_original();
                let path = directory_of(&original);
                self.update_entries(&path);
            }
        }
    }
}

/// The actions after which the directory typed is checked.
pub open spec fn checks_directories(action: Action) -> bool {
    action is Confirm || action is FocusNext || action is Remove || action is Delete || action is DeleteLine
        || action is Paste || action is Cut
}

impl FileBox {
    /// Confirming on a focused directory: it goes into the field.
    pub open spec fn enters_directory(&self) -> bool {
        match self.combobox.focus() {
            Some(f) => f.0 < self.combobox.valid().len() && {
                let name = self.combobox.entries()[self.combobox.valid()[f.0 as int] as int].name();
                name.len() > 0 && name.last() == '/'
            },
            None => false,
        }
    }

    /// What handling `action` does to `old` and answers.
    pub open spec fn handled_action(new: &FileBox, old: &FileBox, gap: usize, action: Action, r: (bool, Option<bool>)) -> bool {
        &&& (action is Confirm && old.enters_directory() ==> r == (true, None::<bool>) && exists|mid: FileBox|
            #[trigger] FileBox::checked(new, &mid) && mid.combobox.focus() is None && mid.combobox.field()
            == old.combobox.field() && mid.combobox.entries() == old.combobox.entries() && mid.directories == old.directories
            && listing_of(&mid) == listing_of(old) && mid.prefix == old.prefix)
        &&& (action is RemoveSection ==> r == (true, None::<bool>) && exists|mid: FileBox| #[trigger] FileBox::checked(
            new, &mid) && mid.combobox.focus() is None && mid.directories == old.directories && listing_of(&mid)
            == listing_of(old) && mid.prefix == old.prefix && mid.combobox.entries() == old.combobox.entries()
            && mid.combobox.field().typed() == match section_cut(old.combobox.field().typed()) {
                Some(p) => old.combobox.field().typed().take(p + 1),
                None => Seq::<char>::empty(),
            })
        &&& (action is ToggleHiddenFiles ==> r == (true, None::<bool>) && new.show_hidden_files == !old.show_hidden_files
            && new.combobox == old.combobox && new.directories == old.directories && listing_of(new) == Some(
            listing_for(slash_count(old.combobox.field().typed()), combined(old.combobox.original(), seq![])))
            && new.prefix@ == combined(old.combobox.original(), seq![]))
        &&& (!(action is Confirm && old.enters_directory()) && !(action is RemoveSection) && !(action is ToggleHiddenFiles)
            ==> exists|mid: FileBox, status: DialogueStatus| {
            &&& #[trigger] ComboBox::handled_action(&mid.combobox, &old.combobox, gap, action, status)
            &&& r == reply_of(status)
            &&& mid.directories == old.directories
            &&& listing_of(&mid) == listing_of(old)
            &&& mid.prefix == old.prefix
            &&& mid.show_hidden_files == old.show_hidden_files
            &&& if checks_directories(action) {
                FileBox::checked(new, &mid)
            } else {
                new.combobox == mid.combobox && new.directories == mid.directories && listing_of(new) == listing_of(&mid)
                    && new.prefix == mid.prefix
            }
        })
    }

    /// Handles `action`: entering a focused directory, removing the last
    /// section of the path, showing or hiding hidden files, and otherwise what
    /// the combo box does, after which the directory typed is checked.
    /// Answers whether the action was used and whether the dialogue is done.
    pub fn handle_action(&mut self, context: &Context, action: Action) -> (r: (bool, Option<bool>))
        requires
            old(self).wf(),
            context.selection_gap <= usize::MAX / 4,
            old(self).combobox.field().textbuffer.has_room(&old(self).combobox.field().filebuffer),
            old(self).combobox.field().textbuffer.can_handle(&old(self).combobox.field().textbuffer_context, &old(self).combobox.field().filebuffer, action),
        ensures
            FileBox::handled_action(final(self), old(self), context.selection_gap, action, r),
            (!(action is Undo || action is Redo) || 0 < final(self).combobox.field().filebuffer.text().len() <= usize::MAX / 8)
                && !(action is AddSelection && old(self).combobox.field().textbuffer.adds_past_end(
                    old(self).combobox.field().filebuffer.text()))
                ==> final(self).wf(),
    {
        if let Action::Confirm = action {
            if let Some(name) = self.combobox.focused_name() {
                if name.len() > 0 && name[name.len() - 1] == '/' {
                    self.combobox.focus_field();
                    let ghost mid = *self;
                    self.check_directories();
                    return (true, None);
                }
            }
        }
        if let Action::RemoveSection = action {
            let text = self.combobox.get_text();
            let cut = if text.len() > 0 && text[text.len() - 1] == '/' {
                let mut shorter = copy_text(&text);
                shorter.pop();
                proof {
                    assert(shorter@ =~= text@.drop_last());
                }
                find_last_slash(&shorter)
            } else {
                find_last_slash(&text)
            };
            match cut {
                Some(position) => {
                    proof {
                        lemma_last_slash(text@);
                        lemma_last_slash(text@.drop_last());
                    }
                    let sliced = crate::chars::slice(&text, 0, position);
                    assert(sliced@ =~= text@.take(position + 1));
                    self.combobox.set_text(sliced);
                },
                None => self.combobox.clear(),
            }
            self.combobox.focus_field();
            let ghost mid = *self;
            self.check_directories();
            return (true, None);
        }
        if let Action::ToggleHiddenFiles = action {
            self.show_hidden_files = !self.show_hidden_files;
            let original = self.combobox.get_original();
            let path = directory_of(&original);
            self.update_entries(&path);
            return (true, None);
        }
        let status = self.combobox.handle_action(context, action);
        let return_value = reply(status);
        let ghost mid = *self;
        match action {
            Action::Confirm | Action::FocusNext | Action::Remove | Action::Delete | Action::DeleteLine | Action::Paste
            | Action::Cut => self.check_directories(),
            _ => {},
        }
        assert(ComboBox::handled_action(&mid.combobox, &old(self).combobox, context.selection_gap, action, status));
        return_value
    }

    /// Types `character` into the path field, then checks the directory typed.
    pub fn add_character(&mut self, character: char)
        requires
            old(self).wf(),
            old(self).combobox.field().filebuffer.text().len() + old(self).combobox.field().textbuffer.sels().len()
                < usize::MAX / 8,
        ensures
            exists|mid: FileBox| #[trigger] FileBox::checked(final(self), &mid) && mid.combobox.focus() is None
                && TextBox::typed_into(&mid.combobox.field(), &old(self).combobox.field(), character)
                && mid.combobox.entries() == old(self).combobox.entries() && mid.directories == old(self).directories
                && listing_of(&mid) == listing_of(old(self)) && mid.prefix == old(self).prefix,
            final(self).combobox.field().wf(),
    {
        self.combobox.add_character(character);
        let ghost mid = *self;
        self.check_directories();
    }
}

} // verus!
