use vstd::prelude::*;

pub mod action;
pub mod history;
pub mod step;
pub mod laws;

pub use self::action::{ActionModel, BufferAction};
pub use self::history::History;
pub use self::step::BufferActionStep;

use crate::chars::copy_text;
use crate::selection::SelectionMode;
use crate::token::{Token, TokenType, Word};

verus! {

/// `text` with `inserted` put in at `index`.
pub open spec fn text_with_insert(text: Seq<char>, index: int, inserted: Seq<char>) -> Seq<char> {
    text.take(index) + inserted + text.skip(index)
}

/// `text` without the `length` characters at `index`.
pub open spec fn text_with_removal(text: Seq<char>, index: int, length: int) -> Seq<char> {
    text.take(index) + text.skip(index + length)
}

/// What an action does to the text; actions that do not fit the text, and
/// actions on selections, leave it as it is.
pub open spec fn apply_to_text(text: Seq<char>, action: ActionModel) -> Seq<char> {
    match action {
        ActionModel::InsertText(_, s, i) => if i <= text.len() && text.len() + s.len() <= usize::MAX {
            text_with_insert(text, i as int, s)
        } else {
            text
        },
        ActionModel::RemoveText(_, s, i) => if i + s.len() <= text.len() {
            text_with_removal(text, i as int, s.len() as int)
        } else {
            text
        },
        _ => text,
    }
}

/// The text after undoing the actions `low .. high`, last one first.
pub open spec fn undone_text(text: Seq<char>, actions: Seq<ActionModel>, low: int, high: int) -> Seq<char>
    decreases high - low,
{
    if high <= low {
        text
    } else {
        apply_to_text(undone_text(text, actions, low + 1, high), actions[low].inverted())
    }
}

/// The text after redoing the actions `low .. high`, first one first.
pub open spec fn redone_text(text: Seq<char>, actions: Seq<ActionModel>, low: int, high: int) -> Seq<char>
    decreases high - low,
{
    if high <= low {
        text
    } else {
        apply_to_text(redone_text(text, actions, low, high - 1), actions[high - 1])
    }
}

/// A token covers position `index` and lies inside a text of `length` characters.
pub open spec fn covers(token: Token, index: int, length: int) -> bool {
    0 < token.length && token.index <= index < token.index + token.length && token.index + token.length
        <= length
}

/// The first of `tokens[from..]` that covers `index`.
pub open spec fn first_cover(tokens: Seq<Token>, index: int, length: int, from: int) -> Option<Token>
    decreases tokens.len() - from,
{
    if from < 0 || from >= tokens.len() {
        None
    } else if covers(tokens[from], index, length) {
        Some(tokens[from])
    } else {
        first_cover(tokens, index, length, from + 1)
    }
}

/// The word at `index`: the first token that covers it, or, where none does, the
/// single character at `index` as an ignored token.
pub open spec fn word_at(tokens: Seq<Token>, index: int, length: int) -> Token {
    match first_cover(tokens, index, length, 0) {
        Some(token) => token,
        None => Token { token_type: TokenType::Ignored, index: index as usize, length: 1 },
    }
}

/// The word before the word at `index`, or that word itself at the start.
pub open spec fn word_left_of(tokens: Seq<Token>, index: int, length: int) -> Token {
    let word = word_at(tokens, index, length);
    if word.index == 0 {
        word
    } else {
        word_at(tokens, word.index - 1, length)
    }
}

/// The word after the word at `index`, or that word itself at the end.
pub open spec fn word_right_of(tokens: Seq<Token>, index: int, length: int) -> Token {
    let word = word_at(tokens, index, length);
    if word.index + word.length < length {
        word_at(tokens, word.index + word.length, length)
    } else {
        word
    }
}

pub proof fn lemma_first_cover(tokens: Seq<Token>, index: int, length: int, from: int)
    ensures
        first_cover(tokens, index, length, from) matches Some(t) ==> covers(t, index, length),
    decreases tokens.len() - from,
{
    if 0 <= from < tokens.len() && !covers(tokens[from], index, length) {
        lemma_first_cover(tokens, index, length, from + 1);
    }
}

/// A word found at a position inside the text covers it and lies inside the text.
pub proof fn lemma_word_at(tokens: Seq<Token>, index: int, length: int)
    requires
        0 <= index < length,
        length <= usize::MAX,
    ensures
        covers(word_at(tokens, index, length), index, length),
{
    lemma_first_cover(tokens, index, length, 0);
}

/// The words left and right of a position inside the text lie inside the text.
pub proof fn lemma_neighbour_words(tokens: Seq<Token>, index: int, length: int)
    requires
        0 <= index < length,
        length <= usize::MAX,
    ensures
        0 < word_left_of(tokens, index, length).length,
        word_left_of(tokens, index, length).index + word_left_of(tokens, index, length).length <= length,
        0 < word_right_of(tokens, index, length).length,
        word_right_of(tokens, index, length).index + word_right_of(tokens, index, length).length <= length,
{
    lemma_word_at(tokens, index, length);
    let w = word_at(tokens, index, length);
    if w.index > 0 {
        lemma_word_at(tokens, w.index - 1, length);
    }
    if w.index + w.length < length {
        lemma_word_at(tokens, w.index + w.length, length);
    }
}

/// The text of one open file, its tokens, and the history of the changes that
/// the windows showing it made, with the position in that history that the
/// text is at.
pub struct Filebuffer {
    text: Vec<char>,
    tokens: Vec<Token>,
    history: History,
    history_index: usize,
}

impl Filebuffer {
    pub closed spec fn text(&self) -> Seq<char> {
        self.text@
    }

    pub closed spec fn tokens(&self) -> Seq<Token> {
        self.tokens@
    }

    /// Every action in the history, the undone ones included.
    pub closed spec fn actions(&self) -> Seq<ActionModel> {
        self.history.actions()
    }

    /// For each action, whether it is undone and redone with the one before it.
    pub closed spec fn combined(&self) -> Seq<bool> {
        self.history.combined()
    }

    /// How many actions of the history the text reflects.
    pub closed spec fn history_position(&self) -> int {
        self.history_index as int
    }

    pub closed spec fn wf(&self) -> bool {
        &&& self.history_index <= self.history.actions().len()
        &&& self.history.combined().len() == self.history.actions().len()
    }

    /// `new` is `old` after `action` was added to the history at the current
    /// position, the actions undone before it dropped, and the text became `text`.
    pub open spec fn recorded(old: &Filebuffer, new: &Filebuffer, action: ActionModel, text: Seq<char>) -> bool {
        &&& new.wf()
        &&& new.text() == text
        &&& new.tokens() == old.tokens()
        &&& new.actions() == old.actions().take(old.history_position()).push(action)
        &&& new.combined().take(old.history_position()) == old.combined().take(old.history_position())
        &&& new.history_position() == old.history_position() + 1
    }

    /// From `old` to `new` only actions on the selections of `window` were
    /// recorded: the text and tokens are as they were, the history up to the old
    /// position is kept, and every action after it is one of `window` on its
    /// selections.
    pub open spec fn logged_selection_changes(old: &Filebuffer, new: &Filebuffer, window: usize) -> bool {
        &&& new.wf()
        &&& new.text() == old.text()
        &&& new.tokens() == old.tokens()
        &&& old.history_position() <= new.history_position()
        &&& new.actions().take(old.history_position()) == old.actions().take(old.history_position())
        &&& forall|k: int|
            old.history_position() <= k < new.history_position() ==> !(#[trigger] new.actions()[k]).changes_text()
                && new.actions()[k].window() == window
    }

    /// From `old` to `new` only actions of `window` were recorded: the history
    /// up to the old position is kept, and every action after it was made by
    /// `window`. The tokens are as they were.
    pub open spec fn logged_changes(old: &Filebuffer, new: &Filebuffer, window: usize) -> bool {
        &&& new.wf()
        &&& new.tokens() == old.tokens()
        &&& old.history_position() <= new.history_position()
        &&& new.actions().take(old.history_position()) == old.actions().take(old.history_position())
        &&& forall|k: int|
            old.history_position() <= k < new.history_position() ==> (#[trigger] new.actions()[k]).window() == window
    }

    pub proof fn lemma_changes_from_selection_changes(old: &Filebuffer, new: &Filebuffer, window: usize)
        requires
            Filebuffer::logged_selection_changes(old, new, window),
        ensures
            Filebuffer::logged_changes(old, new, window),
    {
    }

    pub proof fn lemma_changes_trans(a: &Filebuffer, b: &Filebuffer, c: &Filebuffer, window: usize)
        requires
            a.wf(),
            Filebuffer::logged_changes(a, b, window),
            Filebuffer::logged_changes(b, c, window),
        ensures
            Filebuffer::logged_changes(a, c, window),
    {
        assert(c.actions().take(a.history_position()) =~= c.actions().take(b.history_position()).take(a.history_position()));
        assert(b.actions().take(a.history_position()) =~= b.actions().take(b.history_position()).take(a.history_position()));
        assert forall|k: int| a.history_position() <= k < c.history_position() implies (#[trigger] c.actions()[k]).window()
            == window by {
            if k < b.history_position() {
                assert(c.actions().take(b.history_position())[k] == b.actions().take(b.history_position())[k]);
            }
        }
    }

    pub proof fn lemma_changes_record(old: &Filebuffer, new: &Filebuffer, action: ActionModel, text: Seq<char>, window: usize)
        requires
            old.wf(),
            Filebuffer::recorded(old, new, action, text),
            action.window() == window,
        ensures
            Filebuffer::logged_changes(old, new, window),
    {
        assert(new.actions().take(old.history_position()) =~= old.actions().take(old.history_position()));
    }

    pub proof fn lemma_logged_refl(fb: &Filebuffer, window: usize)
        requires
            fb.wf(),
        ensures
            Filebuffer::logged_selection_changes(fb, fb, window),
    {
    }

    pub proof fn lemma_logged_trans(a: &Filebuffer, b: &Filebuffer, c: &Filebuffer, window: usize)
        requires
            a.wf(),
            Filebuffer::logged_selection_changes(a, b, window),
            Filebuffer::logged_selection_changes(b, c, window),
        ensures
            Filebuffer::logged_selection_changes(a, c, window),
    {
        assert(c.actions().take(a.history_position()) =~= c.actions().take(b.history_position()).take(a.history_position()));
        assert(b.actions().take(a.history_position()) =~= b.actions().take(b.history_position()).take(a.history_position()));
        assert forall|k: int| a.history_position() <= k < c.history_position() implies !(#[trigger] c.actions()[k]).changes_text()
            && c.actions()[k].window() == window by {
            if k < b.history_position() {
                assert(c.actions().take(b.history_position())[k] == b.actions().take(b.history_position())[k]);
            }
        }
    }

    pub proof fn lemma_logged_record(old: &Filebuffer, new: &Filebuffer, action: ActionModel, window: usize)
        requires
            old.wf(),
            Filebuffer::recorded(old, new, action, old.text()),
            !action.changes_text(),
            action.window() == window,
        ensures
            Filebuffer::logged_selection_changes(old, new, window),
    {
        assert(new.actions().take(old.history_position()) =~= old.actions().take(old.history_position()));
    }

    pub open spec fn word_at(&self, index: int) -> Word {
        word_at(self.tokens(), index, self.text().len() as int)
    }

    pub fn new(text: Vec<char>) -> (r: Self)
        ensures
            r.wf(),
            r.text() == text@,
            r.tokens() == Seq::<Token>::empty(),
            r.actions() == Seq::<ActionModel>::empty(),
            r.history_position() == 0,
    {
        let r = Self { text, tokens: Vec::new(), history: History::new(), history_index: 0 };
        proof {
            r.history.lemma_lengths();
        }
        r
    }

    pub fn character(&self, index: usize) -> (r: char)
        requires
            index < self.text().len(),
        ensures
            r == self.text()[index as int],
    {
        self.text[index]
    }

    pub fn length(&self) -> (r: usize)
        ensures
            r == self.text().len(),
    {
        self.text.len()
    }

    pub fn is_empty(&self) -> (r: bool)
        ensures
            r == (self.text().len() == 0),
    {
        self.text.len() == 0
    }

    pub fn last_buffer_index(&self) -> (r: usize)
        requires
            self.text().len() > 0,
        ensures
            r == self.text().len() - 1,
    {
        self.text.len() - 1
    }

    pub fn last_character(&self) -> (r: char)
        requires
            self.text().len() > 0,
        ensures
            r == self.text().last(),
    {
        self.text[self.text.len() - 1]
    }

    /// A copy of the text.
    pub fn get_text(&self) -> (r: Vec<char>)
        ensures
            r@ == self.text(),
    {
        copy_text(&self.text)
    }

    /// Replaces the tokens, as the tokenizer of the buffer's language found them.
    pub fn set_tokens(&mut self, tokens: Vec<Token>)
        requires
            old(self).wf(),
        ensures
            final(self).wf(),
            final(self).tokens() == tokens@,
            final(self).text() == old(self).text(),
            final(self).actions() == old(self).actions(),
            final(self).combined() == old(self).combined(),
            final(self).history_position() == old(self).history_position(),
    {
        self.tokens = tokens;
    }

    /// The word at `index`.
    pub fn word_from_index(&self, index: usize) -> (r: Word)
        ensures
            r == self.word_at(index as int),
    {
        let length = self.text.len();
        let mut k: usize = 0;
        while k < self.tokens.len()
            invariant
                k <= self.tokens@.len(),
                length == self.text@.len(),
                first_cover(self.tokens@, index as int, length as int, 0) == first_cover(
                    self.tokens@,
                    index as int,
                    length as int,
                    k as int,
                ),
            decreases self.tokens.len() - k,
        {
            let token = self.tokens[k];
            if token.length > 0 && token.index <= index && index - token.index < token.length
                && token.length <= length && token.index <= length - token.length {
                return token;
            }
            k = k + 1;
        }
        Token::new(TokenType::Ignored, index, 1)
    }

    /// The word before the word at `index`.
    pub fn left_word(&self, index: usize) -> (r: Word)
        ensures
            r == word_left_of(self.tokens(), index as int, self.text().len() as int),
    {
        let word = self.word_from_index(index);
        if word.index == 0 {
            word
        } else {
            self.word_from_index(word.index - 1)
        }
    }

    /// The word after the word at `index`.
    pub fn right_word(&self, index: usize) -> (r: Word)
        ensures
            r == word_right_of(self.tokens(), index as int, self.text().len() as int),
    {
        let word = self.word_from_index(index);
        if word.length < self.text.len() && word.index < self.text.len() - word.length {
            self.word_from_index(word.index + word.length)
        } else {
            word
        }
    }

    /// The word at the start of the text.
    pub fn first_word(&self) -> (r: Word)
        ensures
            r == self.word_at(0),
    {
        self.word_from_index(0)
    }

    /// The word at the last character of the text.
    pub fn last_word(&self) -> (r: Word)
        requires
            self.text().len() > 0,
        ensures
            r == self.word_at(self.text().len() - 1),
    {
        self.word_from_index(self.text.len() - 1)
    }

    pub fn get_history_index(&self) -> (r: usize)
        ensures
            r == self.history_position(),
    {
        self.history_index
    }

    /// The position lies inside the history.
    pub proof fn lemma_position(&self)
        requires
            self.wf(),
        ensures
            0 <= self.history_position() <= self.actions().len(),
            self.combined().len() == self.actions().len(),
    {
    }

    /// How many actions the history holds, the undone ones included.
    pub fn history_length(&mut self) -> (r: usize)
        ensures
            r == old(self).actions().len(),
            final(self).text() == old(self).text(),
            final(self).tokens() == old(self).tokens(),
            final(self).actions() == old(self).actions(),
            final(self).combined() == old(self).combined(),
            final(self).history_position() == old(self).history_position(),
            old(self).wf() ==> final(self).wf(),
    {
        self.history.length()
    }

    /// A copy of the action at `index` of the history.
    pub fn get_action(&self, index: usize) -> (r: BufferAction)
        requires
            index < self.actions().len(),
        ensures
            r@ == self.actions()[index as int],
    {
        self.history.get(index)
    }


    pub fn add_selection(&mut self, window_id: usize, index: usize, primary_index: usize, secondary_index: usize, offset: usize, combine: bool) -> (r: usize)
        requires
            old(self).wf(),
        ensures
            Filebuffer::recorded(old(self), final(self),
                ActionModel::AddSelection(window_id, index, primary_index, secondary_index, offset), old(self).text()),
            r == final(self).history_position(),
            final(self).combined().last() ==> combine,
    {
        self.record(BufferAction::AddSelection(window_id, index, primary_index, secondary_index, offset), combine)
    }

    pub fn remove_selection(&mut self, window_id: usize, index: usize, primary_index: usize, secondary_index: usize, offset: usize, combine: bool) -> (r: usize)
        requires
            old(self).wf(),
        ensures
            Filebuffer::recorded(old(self), final(self),
                ActionModel::RemoveSelection(window_id, index, primary_index, secondary_index, offset), old(self).text()),
            r == final(self).history_position(),
            final(self).combined().last() ==> combine,
    {
        self.record(BufferAction::RemoveSelection(window_id, index, primary_index, secondary_index, offset), combine)
    }

    pub fn change_primary_index(&mut self, window_id: usize, index: usize, previous: usize, new: usize, combine: bool) -> (r: usize)
        requires
            old(self).wf(),
        ensures
            Filebuffer::recorded(old(self), final(self), ActionModel::ChangePrimaryIndex(window_id, index, previous, new), old(self).text()),
            r == final(self).history_position(),
            final(self).combined().last() ==> combine,
    {
        self.record(BufferAction::ChangePrimaryIndex(window_id, index, previous, new), combine)
    }

    pub fn change_secondary_index(&mut self, window_id: usize, index: usize, previous: usize, new: usize, combine: bool) -> (r: usize)
        requires
            old(self).wf(),
        ensures
            Filebuffer::recorded(old(self), final(self), ActionModel::ChangeSecondaryIndex(window_id, index, previous, new), old(self).text()),
            r == final(self).history_position(),
            final(self).combined().last() ==> combine,
    {
        self.record(BufferAction::ChangeSecondaryIndex(window_id, index, previous, new), combine)
    }

    pub fn change_offset(&mut self, window_id: usize, index: usize, previous: usize, new: usize, combine: bool) -> (r: usize)
        requires
            old(self).wf(),
        ensures
            Filebuffer::recorded(old(self), final(self), ActionModel::ChangeOffset(window_id, index, previous, new), old(self).text()),
            r == final(self).history_position(),
            final(self).combined().last() ==> combine,
    {
        self.record(BufferAction::ChangeOffset(window_id, index, previous, new), combine)
    }

    pub fn change_selection_mode(&mut self, window_id: usize, previous: SelectionMode, new: SelectionMode, combine: bool) -> (r: usize)
        requires
            old(self).wf(),
        ensures
            Filebuffer::recorded(old(self), final(self), ActionModel::ChangeSelectionMode(window_id, previous, new), old(self).text()),
            r == final(self).history_position(),
            final(self).combined().last() ==> combine,
    {
        self.record(BufferAction::ChangeSelectionMode(window_id, previous, new), combine)
    }

    fn splice(&mut self, index: usize, inserted: &Vec<char>)
        requires
            index <= old(self).text().len(),
            old(self).text().len() + inserted@.len() <= usize::MAX,
        ensures
            final(self).text() == text_with_insert(old(self).text(), index as int, inserted@),
            final(self).tokens() == old(self).tokens(),
            final(self).history == old(self).history,
            final(self).history_index == old(self).history_index,
    {
        let mut text: Vec<char> = Vec::new();
        let mut i: usize = 0;
        while i < index
            invariant
                i <= index <= self.text@.len(),
                text@ == self.text@.take(i as int),
            decreases index - i,
        {
            text.push(self.text[i]);
            i = i + 1;
            assert(text@ =~= self.text@.take(i as int));
        }
        let mut j: usize = 0;
        while j < inserted.len()
            invariant
                i == index <= self.text@.len(),
                j <= inserted@.len(),
                text@ == self.text@.take(index as int) + inserted@.take(j as int),
            decreases inserted.len() - j,
        {
            text.push(inserted[j]);
            j = j + 1;
            assert(text@ =~= self.text@.take(index as int) + inserted@.take(j as int));
        }
        assert(inserted@.take(inserted@.len() as int) =~= inserted@);
        while i < self.text.len()
            invariant
                index <= i <= self.text@.len(),
                text@ == self.text@.take(index as int) + inserted@ + self.text@.subrange(index as int, i as int),
            decreases self.text.len() - i,
        {
            text.push(self.text[i]);
            i = i + 1;
            assert(text@ =~= self.text@.take(index as int) + inserted@ + self.text@.subrange(index as int, i as int));
        }
        assert(self.text@.subrange(index as int, self.text@.len() as int) =~= self.text@.skip(index as int));
        self.text = text;
    }

    fn cut(&mut self, index: usize, length: usize) -> (r: Vec<char>)
        requires
            index + length <= old(self).text().len(),
        ensures
            r@ == old(self).text().subrange(index as int, index + length),
            final(self).text() == text_with_removal(old(self).text(), index as int, length as int),
            final(self).tokens() == old(self).tokens(),
            final(self).history == old(self).history,
            final(self).history_index == old(self).history_index,
    {
        let mut kept: Vec<char> = Vec::new();
        let mut removed: Vec<char> = Vec::new();
        let mut i: usize = 0;
        while i < self.text.len()
            invariant
                i <= self.text@.len(),
                index + length <= self.text@.len(),
                i <= index ==> kept@ == self.text@.take(i as int) && removed@ == Seq::<char>::empty(),
                index < i <= index + length ==> kept@ == self.text@.take(index as int)
                    && removed@ == self.text@.subrange(index as int, i as int),
                index + length < i ==> kept@ == self.text@.take(index as int) + self.text@.subrange(index + length, i as int)
                    && removed@ == self.text@.subrange(index as int, index + length),
            decreases self.text.len() - i,
        {
            if i < index || i >= index + length {
                kept.push(self.text[i]);
            } else {
                removed.push(self.text[i]);
            }
            i = i + 1;
            assert(kept@ =~= self.text@.take(i as int) || i > index);
            proof {
                if i <= index {
                    assert(kept@ =~= self.text@.take(i as int));
                } else if i <= index + length {
                    assert(removed@ =~= self.text@.subrange(index as int, i as int));
                    assert(kept@ =~= self.text@.take(index as int));
                } else {
                    assert(kept@ =~= self.text@.take(index as int) + self.text@.subrange(index + length, i as int));
                }
            }
        }
        proof {
            if length == 0 {
                assert(removed@ =~= self.text@.subrange(index as int, index + length));
            }
            assert(self.text@.subrange(index + length, self.text@.len() as int) =~= self.text@.skip(index + length));
            assert(kept@ =~= self.text@.take(index as int) + self.text@.skip(index + length));
        }
        self.text = kept;
        removed
    }

    /// Puts `text` in at `index` and records it.
    pub fn insert_text(&mut self, window_id: usize, index: usize, text: Vec<char>, combine: bool) -> (r: usize)
        requires
            old(self).wf(),
            index <= old(self).text().len(),
            old(self).text().len() + text@.len() <= usize::MAX,
        ensures
            Filebuffer::recorded(old(self), final(self), ActionModel::InsertText(window_id, text@, index),
                text_with_insert(old(self).text(), index as int, text@)),
            r == final(self).history_position(),
            final(self).combined().last() ==> combine,
    {
        self.splice(index, &text);
        self.record(BufferAction::InsertText(window_id, text, index), combine)
    }

    /// Takes the `length` characters at `index` out and records it.
    pub fn remove_text(&mut self, window_id: usize, index: usize, length: usize, combine: bool) -> (r: usize)
        requires
            old(self).wf(),
            index + length <= old(self).text().len(),
        ensures
            Filebuffer::recorded(old(self), final(self),
                ActionModel::RemoveText(window_id, old(self).text().subrange(index as int, index + length), index),
                text_with_removal(old(self).text(), index as int, length as int)),
            r == final(self).history_position(),
            final(self).combined().last() ==> combine,
    {
        let removed = self.cut(index, length);
        self.record(BufferAction::RemoveText(window_id, removed, index), combine)
    }

    /// Replaces the whole text without recording it.
    pub fn set_text_without_save(&mut self, text: Vec<char>)
        requires
            old(self).wf(),
        ensures
            final(self).wf(),
            final(self).text() == text@,
            final(self).tokens() == old(self).tokens(),
            final(self).actions() == old(self).actions(),
            final(self).combined() == old(self).combined(),
            final(self).history_position() == old(self).history_position(),
    {
        self.text = text;
    }

    /// Replaces the whole text and records it as the removal of the old text
    /// followed by the insertion of the new one.
    pub fn set_text(&mut self, window_id: usize, text: Vec<char>) -> (r: usize)
        requires
            old(self).wf(),
        ensures
            final(self).wf(),
            final(self).text() == text@,
            final(self).tokens() == old(self).tokens(),
            final(self).actions() == old(self).actions().take(old(self).history_position()).push(
                ActionModel::RemoveText(window_id, old(self).text(), 0),
            ).push(ActionModel::InsertText(window_id, text@, 0)),
            final(self).history_position() == old(self).history_position() + 2,
            r == final(self).history_position(),
    {
        let length = self.text.len();
        self.remove_text(window_id, 0, length, false);
        proof {
            assert(old(self).text().subrange(0, length as int) =~= old(self).text());
            assert(self.text@ =~= Seq::<char>::empty());
            assert(text@.len() == text.len());
        }
        let r = self.insert_text(window_id, 0, text, true);
        proof {
            assert(self.text() =~= text_with_insert(Seq::<char>::empty(), 0, self.text()));
        }
        r
    }

    fn apply_text(&mut self, action: &BufferAction)
        ensures
            final(self).text() == apply_to_text(old(self).text(), action@),
            final(self).tokens() == old(self).tokens(),
            final(self).history == old(self).history,
            final(self).history_index == old(self).history_index,
    {
        match action {
            BufferAction::InsertText(_, inserted, index) => {
                if *index <= self.text.len() && inserted.len() <= usize::MAX - self.text.len() {
                    self.splice(*index, inserted);
                }
            },
            BufferAction::RemoveText(_, removed, index) => {
                if removed.len() <= self.text.len() && *index <= self.text.len() - removed.len() {
                    self.cut(*index, removed.len());
                }
            },
            _ => {},
        }
    }

    /// Steps back through the history: undoes the last action the text
    /// reflects, and the ones before it for as long as the one just undone is
    /// combined with its predecessor.
    pub fn undo(&mut self)
        requires
            old(self).wf(),
        ensures
            final(self).wf(),
            final(self).tokens() == old(self).tokens(),
            final(self).actions() == old(self).actions(),
            final(self).combined() == old(self).combined(),
            old(self).history_position() == 0 ==> final(self).history_position() == 0,
            old(self).history_position() > 0 ==> {
                &&& final(self).history_position() < old(self).history_position()
                &&& (final(self).history_position() == 0 || !final(self).combined()[final(self).history_position()])
                &&& forall|k: int| final(self).history_position() < k < old(self).history_position()
                    ==> #[trigger] final(self).combined()[k]
            },
            final(self).text() == undone_text(old(self).text(), old(self).actions(), final(self).history_position(),
                old(self).history_position()),
    {
        if self.history_index == 0 {
            return;
        }
        loop
            invariant_except_break
                0 < self.history_index,
                self.history_index < old(self).history_index ==> self.history.combined()[self.history_index as int],
            invariant
                self.wf(),
                self.history == old(self).history,
                self.tokens@ == old(self).tokens@,
                self.history_index <= old(self).history_index,
                self.text@ == undone_text(old(self).text@, old(self).history.actions(), self.history_index as int,
                    old(self).history_index as int),
                forall|k: int| self.history_index < k < old(self).history_index ==> #[trigger] self.history.combined()[k],
            ensures
                self.wf(),
                self.history == old(self).history,
                self.tokens@ == old(self).tokens@,
                self.history_index < old(self).history_index,
                self.history_index == 0 || !self.history.combined()[self.history_index as int],
                self.text@ == undone_text(old(self).text@, old(self).history.actions(), self.history_index as int,
                    old(self).history_index as int),
                forall|k: int| self.history_index < k < old(self).history_index ==> #[trigger] self.history.combined()[k],
            decreases self.history_index,
        {
            self.history_index = self.history_index - 1;
            let action = self.history.get(self.history_index).invert();
            self.apply_text(&action);
            if self.history_index == 0 || !self.history.is_action_combined(self.history_index) {
                break;
            }
        }
    }

    /// Steps forward through the history: redoes the first action the text
    /// does not reflect, and the ones after it for as long as they are combined
    /// with their predecessor.
    pub fn redo(&mut self)
        requires
            old(self).wf(),
        ensures
            final(self).wf(),
            final(self).tokens() == old(self).tokens(),
            final(self).actions() == old(self).actions(),
            final(self).combined() == old(self).combined(),
            old(self).history_position() == old(self).actions().len() ==> final(self).history_position()
                == old(self).history_position(),
            old(self).history_position() < old(self).actions().len() ==> {
                &&& old(self).history_position() < final(self).history_position()
                &&& (final(self).history_position() == final(self).actions().len()
                    || !final(self).combined()[final(self).history_position()])
                &&& forall|k: int| old(self).history_position() < k < final(self).history_position()
                    ==> #[trigger] final(self).combined()[k]
            },
            final(self).text() == redone_text(old(self).text(), old(self).actions(), old(self).history_position(),
                final(self).history_position()),
    {
        let length = self.history.length();
        if self.history_index >= length {
            return;
        }
        loop
            invariant_except_break
                old(self).history_index <= self.history_index < length,
                forall|k: int| old(self).history_index < k <= self.history_index ==> #[trigger] self.history.combined()[k],
            invariant
                self.wf(),
                self.history.actions() == old(self).history.actions(),
                self.history.combined() == old(self).history.combined(),
                self.tokens@ == old(self).tokens@,
                length == self.history.actions().len(),
                self.text@ == redone_text(old(self).text@, old(self).history.actions(), old(self).history_index as int,
                    self.history_index as int),
            ensures
                self.wf(),
                self.history.actions() == old(self).history.actions(),
                self.history.combined() == old(self).history.combined(),
                self.tokens@ == old(self).tokens@,
                old(self).history_index < self.history_index <= length,
                self.history_index == length || !self.history.combined()[self.history_index as int],
                self.text@ == redone_text(old(self).text@, old(self).history.actions(), old(self).history_index as int,
                    self.history_index as int),
                forall|k: int| old(self).history_index < k < self.history_index ==> #[trigger] self.history.combined()[k],
            decreases length - self.history_index,
        {
            let action = self.history.get(self.history_index);
            self.apply_text(&action);
            self.history_index = self.history_index + 1;
            if self.history_index == length || !self.history.is_action_combined(self.history_index) {
                break;
            }
        }
    }

    fn record(&mut self, action: BufferAction, combine: bool) -> (r: usize)
        requires
            old(self).wf(),
        ensures
            Filebuffer::recorded(old(self), final(self), action@, old(self).text()),
            final(self).combined().last() ==> combine,
            r == final(self).history_position(),
    {
        let ghost a = action@;
        self.history.pop_until(self.history_index);
        self.history.append_action(action, combine);
        self.history_index = self.history.length();
        proof {
            assert(self.history.combined().take(old(self).history_position()) =~= old(self).history.combined().take(old(self).history_position()));
        }
        self.history_index
    }
}

} // verus!
