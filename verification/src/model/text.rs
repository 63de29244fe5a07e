use vstd::prelude::*;

verus! {

/// Calls `String::push`, which appends the character to the end of the string.
#[verifier::external_body]
fn push_char(s: &mut String, c: char)
    ensures
        final(s)@ == old(s)@.push(c),
{
    s.push(c);
}

/// The text with `c` inserted before position `at`.
pub open spec fn with_char_at(s: Seq<char>, at: int, c: char) -> Seq<char> {
    s.take(at).push(c) + s.skip(at)
}

/// The text without the character just before position `at`.
pub open spec fn without_char_before(s: Seq<char>, at: int) -> Seq<char> {
    s.take(at - 1) + s.skip(at)
}

/// Deleting the character before the cursor right after inserting one gives
/// back the text as it was, with the cursor where it was.
pub proof fn lemma_delete_undoes_insert(s: Seq<char>, at: int, c: char)
    requires
        0 <= at <= s.len(),
    ensures
        without_char_before(with_char_at(s, at, c), at + 1) == s,
{
    assert(without_char_before(with_char_at(s, at, c), at + 1) =~= s);
}

/// A line of text being edited, with a cursor between characters.
#[derive(Debug)]
pub struct TextInput {
    pub input: String,
    /// The cursor position, counted in characters from the start.
    pub char_index: usize,
}

impl TextInput {
    /// The cursor never lies past the end of the text.
    pub open spec fn wf(&self) -> bool {
        self.char_index <= self.input@.len()
    }

    /// Starts editing the text with the cursor after its last character.
    pub fn new(s: &str) -> (r: Self)
        ensures
            r.input@ == s@,
            r.char_index == s@.len(),
            r.wf(),
    {
        TextInput { input: String::from_str(s), char_index: s.unicode_len() }
    }

    /// Inserts a character at the cursor and moves the cursor past it.
    pub fn insert_char_at_cursor(&mut self, c: char)
        requires
            old(self).wf(),
            old(self).input@.len() < usize::MAX,
        ensures
            final(self).input@ == with_char_at(old(self).input@, old(self).char_index as int, c),
            final(self).char_index == old(self).char_index + 1,
            final(self).wf(),
    {
        let len = self.input.as_str().unicode_len();
        let mut s = String::from_str(self.input.as_str().substring_char(0, self.char_index));
        push_char(&mut s, c);
        s.append(self.input.as_str().substring_char(self.char_index, len));
        proof {
            assert(self.input@.subrange(0, self.char_index as int) =~= self.input@.take(self.char_index as int));
            assert(self.input@.subrange(self.char_index as int, len as int) =~= self.input@.skip(self.char_index as int));
        }
        self.input = s;
        self.char_index = self.char_index + 1;
    }

    /// Deletes the character before the cursor, if there is one, and moves the
    /// cursor back over it.
    pub fn delete_char(&mut self)
        requires
            old(self).wf(),
        ensures
            old(self).char_index == 0 ==> *final(self) == *old(self),
            old(self).char_index > 0 ==> {
                &&& final(self).input@ == without_char_before(old(self).input@, old(self).char_index as int)
                &&& final(self).char_index == old(self).char_index - 1
            },
            final(self).wf(),
    {
        if self.char_index == 0 {
            return;
        }
        let len = self.input.as_str().unicode_len();
        let mut s = String::from_str(self.input.as_str().substring_char(0, self.char_index - 1));
        s.append(self.input.as_str().substring_char(self.char_index, len));
        proof {
            assert(self.input@.subrange(0, self.char_index - 1) =~= self.input@.take(self.char_index - 1));
            assert(self.input@.subrange(self.char_index as int, len as int) =~= self.input@.skip(self.char_index as int));
        }
        self.input = s;
        self.char_index = self.char_index - 1;
    }
}

impl Clone for TextInput {
    fn clone(&self) -> (r: Self)
        ensures
            r == *self,
    {
        TextInput { input: self.input.clone(), char_index: self.char_index }
    }
}

} // verus!
