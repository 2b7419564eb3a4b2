//! The line editor: a text with a cursor, and its layout in rows of a given width.
use crate::text;
use crate::unicode;
use vstd::prelude::*;
use vstd::string::*;
use vstd::utf8::*;

verus! {

/// What kind of thing a grapheme is, as far as moving by words goes.
#[derive(Clone, Copy, Debug, PartialEq, Eq, Structural)]
pub enum InputClass {
    Whitespace,
    Identifier,
    Punctuation,
}

/// The class of a grapheme: that of its first character.
pub open spec fn class_of(grapheme: Seq<char>) -> InputClass {
    if grapheme.len() > 0 && text::white_space(grapheme[0]) {
        InputClass::Whitespace
    } else if grapheme.len() > 0 && (unicode::letter_or_number(grapheme[0]) || grapheme[0] == '_') {
        InputClass::Identifier
    } else {
        InputClass::Punctuation
    }
}

/// The class of a grapheme: that of its first character.
pub fn input_class(grapheme: &str) -> (r: InputClass)
    ensures
        r == class_of(grapheme@),
{
    if grapheme.is_empty() {
        return InputClass::Punctuation;
    }
    let first = grapheme.get_char(0);
    if text::is_whitespace(first) {
        InputClass::Whitespace
    } else if unicode::is_alphanumeric(first) || first == '_' {
        InputClass::Identifier
    } else {
        InputClass::Punctuation
    }
}

/// The grapheme that begins a text.
pub open spec fn first_cluster(s: Seq<char>) -> Seq<char> {
    unicode::clusters(s)[0]
}

/// `s` without the grapheme that begins it.
pub open spec fn without_first(s: Seq<char>) -> Seq<char> {
    s.subrange(first_cluster(s).len() as int, s.len() as int)
}

/// `s` without the grapheme that ends it.
pub open spec fn without_last(s: Seq<char>) -> Seq<char> {
    s.subrange(0, s.len() - unicode::last_cluster(s).len())
}

/// `s` without the graphemes of the given class at its end.
pub open spec fn skip_back(s: Seq<char>, class: InputClass) -> Seq<char>
    decreases s.len(),
{
    if s.len() > 0 && class_of(unicode::last_cluster(s)) == class && 0 < unicode::last_cluster(
        s,
    ).len() <= s.len() {
        skip_back(without_last(s), class)
    } else {
        s
    }
}

/// `s` without the graphemes of the given class at its beginning.
pub open spec fn skip_forward(s: Seq<char>, class: InputClass) -> Seq<char>
    decreases s.len(),
{
    if s.len() > 0 && class_of(first_cluster(s)) == class && 0 < first_cluster(s).len() <= s.len() {
        skip_forward(without_first(s), class)
    } else {
        s
    }
}

/// What stands before the word that ends `s`: white space behind the word is skipped, and the
/// word is a run of graphemes of one class.
pub open spec fn before_word(s: Seq<char>) -> Seq<char> {
    let rest = skip_back(s, InputClass::Whitespace);
    if rest.len() == 0 {
        rest
    } else {
        skip_back(rest, class_of(unicode::last_cluster(rest)))
    }
}

/// What stands behind the word that begins `s`: white space before the word is skipped.
pub open spec fn behind_word(s: Seq<char>) -> Seq<char> {
    let rest = skip_forward(s, InputClass::Whitespace);
    if rest.len() == 0 {
        rest
    } else {
        skip_forward(rest, class_of(first_cluster(rest)))
    }
}

/// The part of `s` up to and with its last line feed.
pub open spec fn through_last_newline(s: Seq<char>) -> Seq<char>
    decreases s.len(),
{
    if s.len() == 0 || s.last() == '\n' {
        s
    } else {
        through_last_newline(s.drop_last())
    }
}

/// The part of `s` from its first line feed on.
pub open spec fn from_first_newline(s: Seq<char>) -> Seq<char>
    decreases s.len(),
{
    if s.len() == 0 || s[0] == '\n' {
        s
    } else {
        from_first_newline(s.subrange(1, s.len() as int))
    }
}

proof fn lemma_concatenated_first(parts: Seq<Seq<char>>)
    requires
        parts.len() > 0,
    ensures
        parts[0].len() <= unicode::concatenated(parts).len(),
        unicode::concatenated(parts).subrange(0, parts[0].len() as int) == parts[0],
    decreases parts.len(),
{
    let init = parts.drop_last();
    if init.len() == 0 {
        assert(unicode::concatenated(init) + parts.last() =~= parts[0]);
    } else {
        lemma_concatenated_first(init);
    }
    assert(unicode::concatenated(parts).subrange(0, parts[0].len() as int) =~= parts[0]);
}

/// The grapheme that begins a text, if it is not empty.
fn first_grapheme(s: &str) -> (r: Option<String>)
    ensures
        r is None <==> s@.len() == 0,
        r matches Some(g) ==> g@ == first_cluster(s@) && 0 < g@.len() <= s@.len() && g@
            == s@.subrange(0, g@.len() as int),
{
    let parts = unicode::graphemes(s);
    if parts.len() == 0 {
        return None;
    }
    proof {
        lemma_concatenated_first(parts.deep_view());
        assert(parts.deep_view()[0] == parts@[0]@);
    }
    Some(parts[0].clone())
}

/// A text with a cursor, which is a byte index at a character boundary.
#[derive(Debug, PartialEq, Eq)]
pub struct InputBuffer {
    pub text: String,
    pub cursor: usize,
}

/// What a buffer holds: the text before and behind its cursor.
#[verifier::ext_equal]
pub struct InputView {
    pub before: Seq<char>,
    pub after: Seq<char>,
}

impl InputView {
    /// The whole text.
    pub open spec fn text(self) -> Seq<char> {
        self.before + self.after
    }

    /// The same text with the cursor behind its first `count` characters.
    pub open spec fn cut_at(self, count: int) -> InputView {
        InputView { before: self.text().take(count), after: self.text().skip(count) }
    }

    /// A text with the cursor at its end.
    pub open spec fn ending(s: Seq<char>) -> InputView {
        InputView { before: s, after: Seq::empty() }
    }

    /// With a character put before the cursor.
    pub open spec fn inserted(self, c: char) -> InputView {
        InputView { before: self.before.push(c), after: self.after }
    }

    /// Without the grapheme before the cursor.
    pub open spec fn backspaced(self) -> InputView {
        if self.before.len() == 0 {
            self
        } else {
            InputView { before: without_last(self.before), after: self.after }
        }
    }

    /// Without the grapheme behind the cursor.
    pub open spec fn deleted(self) -> InputView {
        if self.after.len() == 0 {
            self
        } else {
            InputView { before: self.before, after: without_first(self.after) }
        }
    }

    /// With the cursor one grapheme to the left.
    pub open spec fn left(self) -> InputView {
        if self.before.len() == 0 {
            self
        } else {
            InputView {
                before: without_last(self.before),
                after: unicode::last_cluster(self.before) + self.after,
            }
        }
    }

    /// With the cursor one grapheme to the right.
    pub open spec fn right(self) -> InputView {
        if self.after.len() == 0 {
            self
        } else {
            InputView {
                before: self.before + first_cluster(self.after),
                after: without_first(self.after),
            }
        }
    }

    /// With the cursor at the beginning.
    pub open spec fn at_start(self) -> InputView {
        InputView { before: Seq::empty(), after: self.text() }
    }

    /// With the cursor at the end.
    pub open spec fn at_end(self) -> InputView {
        InputView::ending(self.text())
    }

    /// With the cursor at the beginning of its line.
    pub open spec fn at_line_start(self) -> InputView {
        self.cut_at(through_last_newline(self.before).len() as int)
    }

    /// With the cursor at the end of its line.
    pub open spec fn at_line_end(self) -> InputView {
        self.cut_at(self.text().len() - from_first_newline(self.after).len())
    }

    /// With the cursor at the beginning of the word before it.
    pub open spec fn word_left(self) -> InputView {
        self.cut_at(before_word(self.before).len() as int)
    }

    /// With the cursor at the end of the word behind it.
    pub open spec fn word_right(self) -> InputView {
        self.cut_at(self.text().len() - behind_word(self.after).len())
    }

    /// Without the word before the cursor.
    pub open spec fn word_left_deleted(self) -> InputView {
        InputView { before: before_word(self.before), after: self.after }
    }

    /// Without the word behind the cursor.
    pub open spec fn word_right_deleted(self) -> InputView {
        InputView { before: self.before, after: behind_word(self.after) }
    }
}

impl DeepView for InputBuffer {
    type V = InputView;

    open spec fn deep_view(&self) -> InputView {
        InputView { before: self.before(), after: self.after() }
    }
}

impl Default for InputBuffer {
    fn default() -> (r: Self)
        ensures
            r.wf(),
            r.before() == Seq::<char>::empty(),
            r.after() == Seq::<char>::empty(),
    {
        InputBuffer::from_parts(String::new(), String::new())
    }
}

impl InputBuffer {
    /// The cursor stands at a character boundary.
    pub open spec fn wf(&self) -> bool {
        is_char_boundary(encode_utf8(self.text@), self.cursor as int)
    }

    /// The text before the cursor.
    pub open spec fn before(&self) -> Seq<char> {
        text::before_byte(self.text@, self.cursor as int)
    }

    /// The text behind the cursor.
    pub open spec fn after(&self) -> Seq<char> {
        text::after_byte(self.text@, self.cursor as int)
    }

    /// A buffer is its text before and behind the cursor.
    pub proof fn lemma_parts(&self)
        requires
            self.wf(),
        ensures
            self.text@ == self.before() + self.after(),
            self.cursor == text::utf8_len(self.before()),
            self.cursor <= text::utf8_len(self.text@),
    {
        text::lemma_parts_at(self.text@, self.cursor as int);
    }

    /// The buffer with these texts before and behind the cursor.
    fn from_parts(before: String, after: String) -> (r: InputBuffer)
        ensures
            r.wf(),
            r.before() == before@,
            r.after() == after@,
            r.text@ == before@ + after@,
            r.cursor == text::utf8_len(before@),
    {
        proof {
            text::lemma_parts_of_sum(before@, after@);
        }
        let cursor = text::byte_len(before.as_str());
        InputBuffer { text: text::cat(before.as_str(), after.as_str()), cursor }
    }

    /// The texts before and behind the cursor.
    fn parts(&self) -> (r: (String, String))
        requires
            self.wf(),
        ensures
            r.0@ == self.before(),
            r.1@ == self.after(),
    {
        text::split_at_byte(self.text.as_str(), self.cursor)
    }

    /// The text.
    pub fn as_str(&self) -> (r: &str)
        ensures
            r@ == self.text@,
    {
        self.text.as_str()
    }

    /// Whether there is no text.
    pub fn is_empty(&self) -> (r: bool)
        ensures
            r == (self.text@.len() == 0),
    {
        self.text.as_str().is_empty()
    }

    /// Replaces the text; the cursor goes to its end.
    pub fn set_text(&mut self, text: String)
        ensures
            final(self).wf(),
            final(self).before() == text@,
            final(self).after() == Seq::<char>::empty(),
            final(self).text@ == text@,
    {
        let buffer = InputBuffer::from_parts(text, String::new());
        assert(text@ + Seq::<char>::empty() =~= text@);
        *self = buffer;
    }

    /// Removes the text.
    pub fn clear(&mut self)
        ensures
            final(self).wf(),
            final(self).before() == Seq::<char>::empty(),
            final(self).after() == Seq::<char>::empty(),
            final(self).text@ == Seq::<char>::empty(),
    {
        self.set_text(String::new());
    }

    /// Puts a character before the cursor.
    pub fn insert(&mut self, character: char)
        requires
            old(self).wf(),
        ensures
            final(self).deep_view() == old(self).deep_view().inserted(character),
            final(self).wf(),
            final(self).before() == old(self).before().push(character),
            final(self).after() == old(self).after(),
    {
        let (mut before, after) = self.parts();
        before.push(character);
        *self = InputBuffer::from_parts(before, after);
    }

    /// Removes the grapheme before the cursor, if there is one.
    pub fn backspace(&mut self) -> (r: bool)
        requires
            old(self).wf(),
        ensures
            final(self).deep_view() == old(self).deep_view().backspaced(),
            final(self).wf(),
            r == (old(self).before().len() > 0),
            r ==> final(self).before() == without_last(old(self).before()),
            !r ==> final(self).before() == old(self).before(),
            final(self).after() == old(self).after(),
    {
        let (before, after) = self.parts();
        match unicode::last_grapheme(before.as_str()) {
            Some(grapheme) => {
                let count = text::char_count(before.as_str()) - text::char_count(
                    grapheme.as_str(),
                );
                let rest = text::substring(before.as_str(), 0, count);
                *self = InputBuffer::from_parts(rest, after);
                true
            },
            None => false,
        }
    }

    /// Removes the grapheme behind the cursor, if there is one.
    pub fn delete(&mut self) -> (r: bool)
        requires
            old(self).wf(),
        ensures
            final(self).deep_view() == old(self).deep_view().deleted(),
            final(self).wf(),
            r == (old(self).after().len() > 0),
            r ==> final(self).after() == without_first(old(self).after()),
            !r ==> final(self).after() == old(self).after(),
            final(self).before() == old(self).before(),
    {
        let (before, after) = self.parts();
        match first_grapheme(after.as_str()) {
            Some(grapheme) => {
                let rest = text::substring(
                    after.as_str(),
                    text::char_count(grapheme.as_str()),
                    text::char_count(after.as_str()),
                );
                *self = InputBuffer::from_parts(before, rest);
                true
            },
            None => false,
        }
    }

    /// The byte index before the grapheme before the cursor.
    pub fn previous_grapheme_boundary(&self) -> (r: usize)
        requires
            self.wf(),
        ensures
            r == if self.before().len() == 0 {
                self.cursor as nat
            } else {
                text::utf8_len(without_last(self.before()))
            },
            is_char_boundary(encode_utf8(self.text@), r as int),
            r <= self.cursor,
            self.before().len() > 0 ==> text::before_byte(self.text@, r as int) == without_last(
                self.before(),
            ) && text::after_byte(self.text@, r as int) == unicode::last_cluster(self.before())
                + self.after(),
    {
        let (before, after) = self.parts();
        proof {
            self.lemma_parts();
        }
        match unicode::last_grapheme(before.as_str()) {
            Some(grapheme) => {
                let count = text::char_count(before.as_str()) - text::char_count(
                    grapheme.as_str(),
                );
                let rest = text::substring(before.as_str(), 0, count);
                proof {
                    assert(before@ =~= rest@ + grapheme@);
                    assert(self.text@ =~= rest@ + (grapheme@ + after@));
                    text::lemma_parts_of_sum(rest@, grapheme@ + after@);
                    text::lemma_encode_append(rest@, grapheme@);
                }
                text::byte_len(rest.as_str())
            },
            None => self.cursor,
        }
    }

    /// The byte index behind the grapheme behind the cursor.
    pub fn next_grapheme_boundary(&self) -> (r: usize)
        requires
            self.wf(),
        ensures
            r == if self.after().len() == 0 {
                self.cursor as nat
            } else {
                text::utf8_len(self.before() + first_cluster(self.after()))
            },
            is_char_boundary(encode_utf8(self.text@), r as int),
            r >= self.cursor,
            self.after().len() > 0 ==> text::before_byte(self.text@, r as int) == self.before()
                + first_cluster(self.after()) && text::after_byte(self.text@, r as int)
                == without_first(self.after()),
    {
        let (before, after) = self.parts();
        proof {
            self.lemma_parts();
        }
        match first_grapheme(after.as_str()) {
            Some(grapheme) => {
                let ghost rest = without_first(after@);
                let head = text::cat(before.as_str(), grapheme.as_str());
                proof {
                    assert(after@ =~= grapheme@ + rest);
                    assert(self.text@ =~= head@ + rest);
                    text::lemma_parts_of_sum(head@, rest);
                    text::lemma_encode_append(before@, grapheme@);
                }
                text::byte_len(head.as_str())
            },
            None => self.cursor,
        }
    }

    /// Moves the cursor back by one grapheme.
    pub fn move_left(&mut self)
        requires
            old(self).wf(),
        ensures
            final(self).deep_view() == old(self).deep_view().left(),
            final(self).wf(),
            final(self).text@ == old(self).text@,
            old(self).before().len() == 0 ==> final(self).before() == old(self).before()
                && final(self).after() == old(self).after(),
            old(self).before().len() > 0 ==> final(self).before() == without_last(
                old(self).before(),
            ) && final(self).after() == unicode::last_cluster(old(self).before())
                + old(self).after(),
    {
        self.cursor = self.previous_grapheme_boundary();
    }

    /// Moves the cursor forward by one grapheme.
    pub fn move_right(&mut self)
        requires
            old(self).wf(),
        ensures
            final(self).deep_view() == old(self).deep_view().right(),
            final(self).wf(),
            final(self).text@ == old(self).text@,
            old(self).after().len() == 0 ==> final(self).before() == old(self).before()
                && final(self).after() == old(self).after(),
            old(self).after().len() > 0 ==> final(self).before() == old(self).before()
                + first_cluster(old(self).after()) && final(self).after() == without_first(
                old(self).after(),
            ),
    {
        self.cursor = self.next_grapheme_boundary();
    }

    /// Moves the cursor to the beginning.
    pub fn move_start(&mut self)
        requires
            old(self).wf(),
        ensures
            final(self).deep_view() == old(self).deep_view().at_start(),
            final(self).wf(),
            final(self).text@ == old(self).text@,
            final(self).before() == Seq::<char>::empty(),
            final(self).after() == old(self).text@,
    {
        proof {
            self.lemma_parts();
        }
        self.cursor = 0;
        proof {
            let empty = Seq::<char>::empty();
            text::lemma_parts_of_sum(empty, self.text@);
            assert(empty + self.text@ =~= self.text@);
        }
    }

    /// Moves the cursor to the end.
    pub fn move_end(&mut self)
        requires
            old(self).wf(),
        ensures
            final(self).deep_view() == old(self).deep_view().at_end(),
            final(self).wf(),
            final(self).text@ == old(self).text@,
            final(self).before() == old(self).text@,
            final(self).after() == Seq::<char>::empty(),
    {
        proof {
            self.lemma_parts();
        }
        self.cursor = text::byte_len(self.text.as_str());
        proof {
            let empty = Seq::<char>::empty();
            text::lemma_parts_of_sum(self.text@, empty);
            assert(self.text@ + empty =~= self.text@);
        }
    }

    /// Moves the cursor to the beginning of its line.
    pub fn move_line_start(&mut self)
        requires
            old(self).wf(),
        ensures
            final(self).deep_view() == old(self).deep_view().at_line_start(),
            final(self).wf(),
            final(self).text@ == old(self).text@,
            final(self).before() == through_last_newline(old(self).before()),
            final(self).before() + final(self).after() == old(self).text@,
    {
        proof {
            self.lemma_parts();
        }
        let (before, after) = self.parts();
        let chars = text::chars_of(before.as_str());
        let mut i: usize = chars.len();
        assert(before@.take(i as int) =~= before@);
        while i > 0 && chars[i - 1] != '\n'
            invariant
                chars@ == before@,
                i <= chars@.len(),
                through_last_newline(before@.take(i as int)) == through_last_newline(before@),
            decreases i,
        {
            assert(before@.take(i as int).drop_last() =~= before@.take(i - 1));
            i -= 1;
        }
        let head = text::string_range(&chars, 0, i);
        proof {
            assert(head@ =~= before@.take(i as int));
            assert(i > 0 ==> before@.take(i as int).last() == '\n');
            let tail = before@.subrange(i as int, before@.len() as int) + after@;
            assert(self.text@ =~= head@ + tail);
            text::lemma_parts_of_sum(head@, tail);
        }
        self.cursor = text::byte_len(head.as_str());
    }

    /// Moves the cursor to the end of its line.
    pub fn move_line_end(&mut self)
        requires
            old(self).wf(),
        ensures
            final(self).deep_view() == old(self).deep_view().at_line_end(),
            final(self).wf(),
            final(self).text@ == old(self).text@,
            final(self).after() == from_first_newline(old(self).after()),
            final(self).before() + final(self).after() == old(self).text@,
    {
        proof {
            self.lemma_parts();
        }
        let (before, after) = self.parts();
        let chars = text::chars_of(after.as_str());
        let mut i: usize = 0;
        assert(after@.skip(0) =~= after@);
        while i < chars.len() && chars[i] != '\n'
            invariant
                chars@ == after@,
                i <= chars@.len(),
                from_first_newline(after@.skip(i as int)) == from_first_newline(after@),
            decreases chars@.len() - i,
        {
            let ghost rest = after@.skip(i as int);
            assert(rest.subrange(1, rest.len() as int) =~= after@.skip(i + 1));
            i += 1;
        }
        let shown = text::string_range(&chars, 0, i);
        let head = text::cat(before.as_str(), shown.as_str());
        proof {
            let tail = after@.skip(i as int);
            assert(i < chars@.len() ==> tail[0] == '\n');
            assert(self.text@ =~= head@ + tail);
            text::lemma_parts_of_sum(head@, tail);
        }
        self.cursor = text::byte_len(head.as_str());
    }

    /// The text before the word before the cursor.
    fn word_start(&self) -> (r: String)
        requires
            self.wf(),
        ensures
            r@ == before_word(self.before()),
            r@.len() <= self.before().len(),
            r@ == self.before().subrange(0, r@.len() as int),
    {
        let (before, _after) = self.parts();
        let rest = skip_back_over(before.as_str(), InputClass::Whitespace);
        match unicode::last_grapheme(rest.as_str()) {
            Some(grapheme) => {
                let class = input_class(grapheme.as_str());
                skip_back_over(rest.as_str(), class)
            },
            None => rest,
        }
    }

    /// The text behind the word behind the cursor.
    fn word_end(&self) -> (r: String)
        requires
            self.wf(),
        ensures
            r@ == behind_word(self.after()),
            r@.len() <= self.after().len(),
            r@ == self.after().subrange(self.after().len() - r@.len(), self.after().len() as int),
    {
        let (_before, after) = self.parts();
        let rest = skip_forward_over(after.as_str(), InputClass::Whitespace);
        match first_grapheme(rest.as_str()) {
            Some(grapheme) => {
                let class = input_class(grapheme.as_str());
                skip_forward_over(rest.as_str(), class)
            },
            None => rest,
        }
    }

    /// The byte index at the beginning of the word before the cursor.
    pub fn previous_word_boundary(&self) -> (r: usize)
        requires
            self.wf(),
        ensures
            r == text::utf8_len(before_word(self.before())),
            r <= self.cursor,
            r == self.cursor <==> self.before().len() == before_word(self.before()).len(),
            is_char_boundary(encode_utf8(self.text@), r as int),
            text::before_byte(self.text@, r as int) == before_word(self.before()),
    {
        let head = self.word_start();
        proof {
            self.lemma_parts();
            let tail = self.before().subrange(head@.len() as int, self.before().len() as int);
            assert(self.before() =~= head@ + tail);
            assert(self.text@ =~= head@ + (tail + self.after()));
            text::lemma_parts_of_sum(head@, tail + self.after());
            text::lemma_encode_append(head@, tail);
            text::lemma_utf8_len(tail);
        }
        text::byte_len(head.as_str())
    }

    /// The byte index at the end of the word behind the cursor.
    pub fn next_word_boundary(&self) -> (r: usize)
        requires
            self.wf(),
        ensures
            r + text::utf8_len(behind_word(self.after())) == text::utf8_len(self.text@),
            r >= self.cursor,
            r == self.cursor <==> self.after().len() == behind_word(self.after()).len(),
            is_char_boundary(encode_utf8(self.text@), r as int),
            text::after_byte(self.text@, r as int) == behind_word(self.after()),
    {
        let rest = self.word_end();
        proof {
            self.lemma_parts();
            let word = self.after().subrange(0, self.after().len() - rest@.len());
            assert(self.after() =~= word + rest@);
            assert(self.text@ =~= (self.before() + word) + rest@);
            text::lemma_parts_of_sum(self.before() + word, rest@);
            text::lemma_encode_append(self.before() + word, rest@);
            text::lemma_encode_append(self.before(), word);
            text::lemma_utf8_len(word);
        }
        text::byte_len(self.text.as_str()) - text::byte_len(rest.as_str())
    }

    /// Moves the cursor to the beginning of the word before it.
    pub fn move_word_left(&mut self)
        requires
            old(self).wf(),
        ensures
            final(self).deep_view() == old(self).deep_view().word_left(),
            final(self).wf(),
            final(self).text@ == old(self).text@,
            final(self).before() == before_word(old(self).before()),
            final(self).before() + final(self).after() == old(self).text@,
    {
        proof {
            self.lemma_parts();
        }
        self.cursor = self.previous_word_boundary();
        proof {
            self.lemma_parts();
        }
    }

    /// Moves the cursor to the end of the word behind it.
    pub fn move_word_right(&mut self)
        requires
            old(self).wf(),
        ensures
            final(self).deep_view() == old(self).deep_view().word_right(),
            final(self).wf(),
            final(self).text@ == old(self).text@,
            final(self).after() == behind_word(old(self).after()),
            final(self).before() + final(self).after() == old(self).text@,
    {
        proof {
            self.lemma_parts();
        }
        self.cursor = self.next_word_boundary();
        proof {
            self.lemma_parts();
        }
    }

    /// Removes the word before the cursor, with the white space behind it.
    pub fn delete_word_left(&mut self) -> (r: bool)
        requires
            old(self).wf(),
        ensures
            final(self).deep_view() == old(self).deep_view().word_left_deleted(),
            final(self).wf(),
            r == (old(self).before().len() != before_word(old(self).before()).len()),
            final(self).before() == before_word(old(self).before()),
            final(self).after() == old(self).after(),
    {
        let head = self.word_start();
        let (before, after) = self.parts();
        if text::char_count(head.as_str()) == text::char_count(before.as_str()) {
            assert(self.before().subrange(0, head@.len() as int) =~= self.before());
            return false;
        }
        *self = InputBuffer::from_parts(head, after);
        true
    }

    /// Removes the word behind the cursor, with the white space before it.
    pub fn delete_word_right(&mut self) -> (r: bool)
        requires
            old(self).wf(),
        ensures
            final(self).deep_view() == old(self).deep_view().word_right_deleted(),
            final(self).wf(),
            r == (old(self).after().len() != behind_word(old(self).after()).len()),
            final(self).after() == behind_word(old(self).after()),
            final(self).before() == old(self).before(),
    {
        let rest = self.word_end();
        let (before, after) = self.parts();
        if text::char_count(rest.as_str()) == text::char_count(after.as_str()) {
            assert(self.after().subrange(0, rest@.len() as int) =~= self.after());
            return false;
        }
        *self = InputBuffer::from_parts(before, rest);
        true
    }
}

/// `s` without the graphemes of the given class at its end.
fn skip_back_over(s: &str, class: InputClass) -> (r: String)
    ensures
        r@ == skip_back(s@, class),
        r@.len() <= s@.len(),
        r@ == s@.subrange(0, r@.len() as int),
{
    let mut rest = s.to_owned();
    assert(rest@ =~= s@.subrange(0, rest@.len() as int));
    loop
        invariant
            rest@.len() <= s@.len(),
            rest@ == s@.subrange(0, rest@.len() as int),
            skip_back(rest@, class) == skip_back(s@, class),
        decreases rest@.len(),
    {
        let grapheme = match unicode::last_grapheme(rest.as_str()) {
            Some(grapheme) => grapheme,
            None => {
                return rest;
            },
        };
        if input_class(grapheme.as_str()) != class {
            return rest;
        }
        let count = text::char_count(rest.as_str()) - text::char_count(grapheme.as_str());
        rest = text::substring(rest.as_str(), 0, count);
        assert(rest@ =~= s@.subrange(0, rest@.len() as int));
    }
}

/// `s` without the graphemes of the given class at its beginning.
fn skip_forward_over(s: &str, class: InputClass) -> (r: String)
    ensures
        r@ == skip_forward(s@, class),
        r@.len() <= s@.len(),
        r@ == s@.subrange(s@.len() - r@.len(), s@.len() as int),
{
    let mut rest = s.to_owned();
    assert(rest@ =~= s@.subrange(s@.len() - rest@.len(), s@.len() as int));
    loop
        invariant
            rest@.len() <= s@.len(),
            rest@ == s@.subrange(s@.len() - rest@.len(), s@.len() as int),
            skip_forward(rest@, class) == skip_forward(s@, class),
        decreases rest@.len(),
    {
        let grapheme = match first_grapheme(rest.as_str()) {
            Some(grapheme) => grapheme,
            None => {
                return rest;
            },
        };
        if input_class(grapheme.as_str()) != class {
            return rest;
        }
        rest = text::substring(
            rest.as_str(),
            text::char_count(grapheme.as_str()),
            text::char_count(rest.as_str()),
        );
        assert(rest@ =~= s@.subrange(s@.len() - rest@.len(), s@.len() as int));
    }
}

proof fn lemma_skip_back(s: Seq<char>, class: InputClass)
    ensures
        skip_back(s, class).len() <= s.len(),
        skip_back(s, class) == s.take(skip_back(s, class).len() as int),
    decreases s.len(),
{
    let last = unicode::last_cluster(s);
    if s.len() > 0 && class_of(last) == class && 0 < last.len() <= s.len() {
        lemma_skip_back(without_last(s), class);
        let rest = skip_back(s, class);
        assert(without_last(s).take(rest.len() as int) =~= s.take(rest.len() as int));
    } else {
        assert(s.take(s.len() as int) =~= s);
    }
}

proof fn lemma_skip_forward(s: Seq<char>, class: InputClass)
    ensures
        skip_forward(s, class).len() <= s.len(),
        skip_forward(s, class) == s.skip(s.len() - skip_forward(s, class).len()),
    decreases s.len(),
{
    let first = first_cluster(s);
    if s.len() > 0 && class_of(first) == class && 0 < first.len() <= s.len() {
        lemma_skip_forward(without_first(s), class);
        let rest = skip_forward(s, class);
        let shorter = without_first(s);
        assert(shorter.skip(shorter.len() - rest.len()) =~= s.skip(s.len() - rest.len()));
    } else {
        assert(s.skip(0) =~= s);
    }
}

/// What stands before a word is a beginning of the text.
pub proof fn lemma_before_word(s: Seq<char>)
    ensures
        before_word(s).len() <= s.len(),
        before_word(s) == s.take(before_word(s).len() as int),
{
    let rest = skip_back(s, InputClass::Whitespace);
    lemma_skip_back(s, InputClass::Whitespace);
    lemma_skip_back(rest, class_of(unicode::last_cluster(rest)));
    assert(before_word(s) =~= s.take(before_word(s).len() as int));
}

/// What stands behind a word is an end of the text.
pub proof fn lemma_behind_word(s: Seq<char>)
    ensures
        behind_word(s).len() <= s.len(),
        behind_word(s) == s.skip(s.len() - behind_word(s).len()),
{
    let rest = skip_forward(s, InputClass::Whitespace);
    lemma_skip_forward(s, InputClass::Whitespace);
    lemma_skip_forward(rest, class_of(first_cluster(rest)));
    assert(behind_word(s) =~= s.skip(s.len() - behind_word(s).len()));
}

/// `a + b`, at most the largest `usize`.
pub open spec fn sat_add(a: int, b: int) -> int {
    if a + b > usize::MAX {
        usize::MAX as int
    } else {
        a + b
    }
}

/// How far a text is laid out: the finished rows, the row at work with its columns, the bytes
/// passed, and where the cursor was met.
#[verifier::ext_equal]
pub struct LayoutState {
    pub lines: Seq<Seq<char>>,
    pub line: Seq<char>,
    pub column: int,
    pub offset: nat,
    pub cursor: Option<(int, int)>,
}

impl LayoutState {
    /// Before any grapheme.
    pub open spec fn start() -> LayoutState {
        LayoutState {
            lines: Seq::empty(),
            line: Seq::empty(),
            column: 0,
            offset: 0,
            cursor: None,
        }
    }

    /// The row at work is finished.
    pub open spec fn broken(self) -> LayoutState {
        LayoutState {
            lines: self.lines.push(self.line),
            line: Seq::empty(),
            column: 0,
            offset: self.offset,
            cursor: self.cursor,
        }
    }

    /// The cursor is here if the bytes passed are those before it.
    pub open spec fn marked(self, cursor: nat) -> LayoutState {
        if self.offset == cursor {
            LayoutState { cursor: Some((self.lines.len() as int, self.column)), ..self }
        } else {
            self
        }
    }

    /// One more grapheme: a line feed ends the row; another grapheme goes to a new row if it has
    /// columns and would pass the width of a row that already has some.
    pub open spec fn after(self, grapheme: Seq<char>, cursor: nat, width: int) -> LayoutState {
        let size = text::utf8_len(grapheme);
        if grapheme == seq!['\n'] {
            let here = if self.column >= width {
                self.broken()
            } else {
                self
            };
            let ended = here.marked(cursor).broken();
            LayoutState { offset: self.offset + size, ..ended }
        } else {
            let columns = unicode::text_columns(grapheme) as int;
            let here = if columns > 0 && self.column > 0 && sat_add(self.column, columns) > width {
                self.broken()
            } else {
                self
            };
            let met = here.marked(cursor);
            LayoutState {
                line: met.line + grapheme,
                column: sat_add(met.column, columns),
                offset: self.offset + size,
                ..met
            }
        }
    }

    /// All graphemes, one after the other.
    pub open spec fn over(graphemes: Seq<Seq<char>>, cursor: nat, width: int) -> LayoutState
        decreases graphemes.len(),
    {
        if graphemes.len() == 0 {
            LayoutState::start()
        } else {
            LayoutState::over(graphemes.drop_last(), cursor, width).after(
                graphemes.last(),
                cursor,
                width,
            )
        }
    }

    /// The end of the text: a cursor there stands on a new row where the last one is full.
    pub open spec fn finished(self, cursor: nat, total: nat, width: int) -> LayoutState {
        if cursor == total {
            let here = if self.column >= width && self.line.len() > 0 {
                self.broken()
            } else {
                self
            };
            LayoutState { cursor: Some((here.lines.len() as int, here.column)), ..here }
        } else {
            self
        }
    }
}

/// The rows of an input and the place of its cursor in them.
#[derive(Debug, PartialEq, Eq)]
pub struct InputLayout {
    pub lines: Vec<String>,
    pub cursor_row: usize,
    pub cursor_column: usize,
}

/// What the layout of a text is.
pub open spec fn layout_of(s: Seq<char>, cursor: nat, width: u16) -> LayoutState {
    let columns = if width == 0 {
        1
    } else {
        width as int
    };
    LayoutState::over(unicode::clusters(s), cursor, columns).finished(
        cursor,
        text::utf8_len(s),
        columns,
    )
}

/// Finishes the row at work.
fn break_line(lines: &mut Vec<String>, line: &mut String)
    ensures
        final(lines).deep_view() == old(lines).deep_view().push(old(line)@),
        final(line)@ == Seq::<char>::empty(),
{
    let mut done = String::new();
    std::mem::swap(&mut done, line);
    let ghost before = lines.deep_view();
    lines.push(done);
    assert(lines.deep_view() =~= before.push(done@));
}

impl InputLayout {
    /// Lays an input out in rows of `width` columns.
    pub fn new(input: &InputBuffer, width: u16) -> (r: Self)
        ensures
            ({
                let state = layout_of(input.text@, input.cursor as nat, width);
                &&& r.lines.deep_view() == state.lines.push(state.line)
                &&& state.cursor matches Some((row, column)) ==> r.cursor_row == row
                    && r.cursor_column == column
                &&& state.cursor is None ==> r.cursor_row == 0 && r.cursor_column == 0
            }),
    {
        let columns: usize = if width == 0 {
            1
        } else {
            width as usize
        };
        let parts = unicode::graphemes(input.text.as_str());
        let ghost all = parts.deep_view();
        let ghost wanted = input.cursor as nat;
        let total = text::byte_len(input.text.as_str());
        let mut lines: Vec<String> = Vec::new();
        let mut line = String::new();
        let mut column: usize = 0;
        let mut offset: usize = 0;
        let mut cursor: Option<(usize, usize)> = None;
        let mut i: usize = 0;
        assert(lines.deep_view() =~= Seq::empty());
        proof {
            lemma_concatenated_len(all, 0);
        }
        while i < parts.len()
            invariant
                all == parts.deep_view(),
                all == unicode::clusters(input.text@),
                unicode::concatenated(all) == input.text@,
                wanted == input.cursor,
                total == text::utf8_len(input.text@),
                i <= parts@.len(),
                offset == text::utf8_len(unicode::concatenated(all.take(i as int))),
                ({
                    let state = LayoutState::over(all.take(i as int), wanted, columns as int);
                    &&& lines.deep_view() == state.lines
                    &&& line@ == state.line
                    &&& column == state.column
                    &&& offset == state.offset
                    &&& cursor is Some <==> state.cursor is Some
                    &&& cursor matches Some((r, c)) ==> state.cursor == Some((r as int, c as int))
                }),
            decreases parts@.len() - i,
        {
            let grapheme = &parts[i];
            let ghost state = LayoutState::over(all.take(i as int), wanted, columns as int);
            proof {
                assert(all.take(i + 1).drop_last() =~= all.take(i as int));
                assert(all[i as int] == grapheme@);
                lemma_concatenated_len(all, i as int);
                lemma_concatenated_len(all, i + 1);
                text::lemma_encode_append(
                    unicode::concatenated(all.take(i as int)),
                    grapheme@,
                );
                reveal_strlit("\n");
                assert("\n"@ =~= seq!['\n']);
            }
            if text::str_eq(grapheme.as_str(), "\n") {
                if column >= columns {
                    break_line(&mut lines, &mut line);
                    column = 0;
                }
                if input.cursor == offset {
                    cursor = Some((lines.len(), column));
                }
                break_line(&mut lines, &mut line);
                column = 0;
            } else {
                let grapheme_width = unicode::text_width(grapheme.as_str());
                if grapheme_width > 0 && column > 0 && column.saturating_add(grapheme_width)
                    > columns {
                    break_line(&mut lines, &mut line);
                    column = 0;
                }
                if input.cursor == offset {
                    cursor = Some((lines.len(), column));
                }
                line.append(grapheme.as_str());
                column = column.saturating_add(grapheme_width);
            }
            offset += text::byte_len(grapheme.as_str());
            i += 1;
        }
        assert(all.take(i as int) =~= all);
        if input.cursor == total {
            if column >= columns && !line.as_str().is_empty() {
                break_line(&mut lines, &mut line);
                column = 0;
            }
            cursor = Some((lines.len(), column));
        }
        let ghost rows = lines.deep_view();
        lines.push(line);
        assert(lines.deep_view() =~= rows.push(line@));
        let (cursor_row, cursor_column) = match cursor {
            Some(place) => place,
            None => (0, 0),
        };
        InputLayout { lines, cursor_row, cursor_column }
    }

    /// The height of the input box: its rows and a border, between three rows and what there is.
    pub fn render_height(&self, available_height: u16) -> (r: u16)
        ensures
            r == vstd::math::max(
                3,
                vstd::math::min(
                    vstd::math::min(self.lines@.len() as int + 2, u16::MAX as int),
                    vstd::math::max(available_height as int, 3),
                ),
            ),
    {
        let total = self.lines.len().saturating_add(2);
        let desired: u16 = if total > 65535 {
            65535
        } else {
            total as u16
        };
        let most: u16 = if available_height < 3 {
            3
        } else {
            available_height
        };
        let height: u16 = if desired < most {
            desired
        } else {
            most
        };
        if height < 3 {
            3
        } else {
            height
        }
    }

    /// The first row to show so that the cursor's row is the last of `rows` rows or above it.
    pub fn visible_start(&self, rows: usize) -> (r: usize)
        ensures
            r == vstd::math::max(
                0,
                sat_add(self.cursor_row as int, 1) - vstd::math::max(rows as int, 1),
            ),
    {
        let shown: usize = if rows == 0 {
            1
        } else {
            rows
        };
        self.cursor_row.saturating_add(1).saturating_sub(shown)
    }

    /// At most `rows` rows from `start` on.
    pub fn visible_text(&self, start: usize, rows: usize) -> (r: Vec<String>)
        ensures
            ({
                let total = self.lines@.len() as int;
                let from = if start < total {
                    start as int
                } else {
                    total
                };
                let to = if total - from < rows {
                    total
                } else {
                    from + rows
                };
                r.deep_view() == self.lines.deep_view().subrange(from, to)
            }),
    {
        let total = self.lines.len();
        let from: usize = if start < total {
            start
        } else {
            total
        };
        let to: usize = if total - from < rows {
            total
        } else {
            from + rows
        };
        let mut out: Vec<String> = Vec::new();
        let mut i: usize = from;
        assert(out.deep_view() =~= self.lines.deep_view().subrange(from as int, from as int));
        while i < to
            invariant
                from <= i <= to <= self.lines@.len(),
                out.deep_view() == self.lines.deep_view().subrange(from as int, i as int),
            decreases to - i,
        {
            let ghost before = out.deep_view();
            out.push(self.lines[i].clone());
            assert(out.deep_view() =~= before.push(self.lines@[i as int]@));
            assert(out.deep_view() =~= self.lines.deep_view().subrange(from as int, i + 1));
            i += 1;
        }
        out
    }
}

proof fn lemma_concatenated_len(parts: Seq<Seq<char>>, count: int)
    requires
        0 <= count <= parts.len(),
    ensures
        text::utf8_len(unicode::concatenated(parts.take(count))) <= text::utf8_len(
            unicode::concatenated(parts),
        ),
    decreases parts.len(),
{
    if count < parts.len() {
        lemma_concatenated_len(parts.drop_last(), count);
        assert(parts.drop_last().take(count) =~= parts.take(count));
        text::lemma_encode_append(unicode::concatenated(parts.drop_last()), parts.last());
    } else {
        assert(parts.take(count) =~= parts);
    }
}

/// The graphemes of a text that take part in rows: all but line feeds.
pub open spec fn shown_graphemes(graphemes: Seq<Seq<char>>) -> Seq<char>
    decreases graphemes.len(),
{
    if graphemes.len() == 0 {
        Seq::empty()
    } else if graphemes.last() == seq!['\n'] {
        shown_graphemes(graphemes.drop_last())
    } else {
        shown_graphemes(graphemes.drop_last()) + graphemes.last()
    }
}

proof fn lemma_broken(state: LayoutState)
    ensures
        unicode::concatenated(state.broken().lines.push(state.broken().line))
            == unicode::concatenated(state.lines.push(state.line)),
{
    let rows = state.lines.push(state.line);
    let more = rows.push(Seq::<char>::empty());
    assert(more.drop_last() =~= rows);
    assert(unicode::concatenated(rows) + Seq::<char>::empty() =~= unicode::concatenated(rows));
}

proof fn lemma_layout_keeps_text(graphemes: Seq<Seq<char>>, cursor: nat, width: int)
    ensures
        ({
            let state = LayoutState::over(graphemes, cursor, width);
            &&& unicode::concatenated(state.lines.push(state.line)) == shown_graphemes(graphemes)
            &&& state.cursor matches Some((row, column)) ==> 0 <= row <= state.lines.len() && 0
                <= column
            &&& 0 <= state.column
        }),
    decreases graphemes.len(),
{
    if graphemes.len() == 0 {
        let rows = LayoutState::start().lines.push(Seq::<char>::empty());
        assert(rows.drop_last() =~= Seq::<Seq<char>>::empty());
        assert(unicode::concatenated(rows.drop_last()) =~= Seq::<char>::empty());
        assert(unicode::concatenated(rows) =~= Seq::<char>::empty());
    } else {
        let init = graphemes.drop_last();
        let grapheme = graphemes.last();
        lemma_layout_keeps_text(init, cursor, width);
        let state = LayoutState::over(init, cursor, width);
        lemma_broken(state);
        lemma_broken(state.broken());
        if grapheme == seq!['\n'] {
        } else {
            let columns = unicode::text_columns(grapheme) as int;
            let here = if columns > 0 && state.column > 0 && sat_add(state.column, columns)
                > width {
                state.broken()
            } else {
                state
            };
            let rows = here.lines.push(here.line);
            let longer = here.lines.push(here.line + grapheme);
            assert(rows.drop_last() =~= here.lines);
            assert(longer.drop_last() =~= here.lines);
            assert(unicode::concatenated(longer) =~= unicode::concatenated(rows) + grapheme);
        }
    }
}

/// The rows of an input hold its text, in order and without its line feeds, and the cursor stands
/// in one of them.
pub proof fn law_layout_keeps_text(s: Seq<char>, cursor: nat, width: u16)
    ensures
        ({
            let state = layout_of(s, cursor, width);
            &&& unicode::concatenated(state.lines.push(state.line)) == shown_graphemes(
                unicode::clusters(s),
            )
            &&& state.cursor matches Some((row, column)) ==> 0 <= row < state.lines.push(
                state.line,
            ).len() && 0 <= column
        }),
{
    let columns = if width == 0 {
        1
    } else {
        width as int
    };
    let graphemes = unicode::clusters(s);
    lemma_layout_keeps_text(graphemes, cursor, columns);
    lemma_broken(LayoutState::over(graphemes, cursor, columns));
}

} // verus!
