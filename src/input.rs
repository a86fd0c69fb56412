//! The text held by a text field, kept in Unicode normalization form C.
use vstd::prelude::*;
use unicode_normalization::UnicodeNormalization;

verus! {

/// The characters of `s` in normalization form C (canonical decomposition,
/// then canonical composition).
pub uninterp spec fn nfc_of(s: Seq<char>) -> Seq<char>;

/// Relies on `UnicodeNormalization::nfc` of unicode-normalization: the
/// normalized characters depend on the input characters alone.
#[verifier::external_body]
fn nfc(chars: &Vec<char>) -> (r: Vec<char>)
    ensures
        r@ == nfc_of(chars@),
{
    chars.iter().copied().nfc().collect()
}

/// Relies on std's `FromIterator<&char> for String`: the string holds the
/// characters in order.
#[verifier::external_body]
fn string_of(chars: &Vec<char>) -> (r: String)
    ensures
        r@ == chars@,
{
    chars.iter().collect()
}

/// The characters of `s`, in order.
pub fn chars_of(s: &str) -> (r: Vec<char>)
    ensures
        r@ == s@,
{
    let mut out: Vec<char> = Vec::new();
    for c in it: s.chars()
        invariant
            it.seq() == s@,
            out@ == it.seq().take(it.index() as int),
    {
        out.push(c);
    }
    out
}

/// `s` with `c` placed before the character at `index`, or after the last
/// one when `index` is the length; unchanged when `index` is beyond that.
pub open spec fn inserted(s: Seq<char>, index: int, c: char) -> Seq<char> {
    if 0 <= index <= s.len() {
        s.insert(index, c)
    } else {
        s
    }
}

/// `s` without the character at `index`; unchanged when there is none.
pub open spec fn removed(s: Seq<char>, index: int) -> Seq<char> {
    if 0 <= index < s.len() {
        s.remove(index)
    } else {
        s
    }
}

/// The value of a text field. The field owns it; the application reads and
/// writes it through the context (see `InputLink`).
pub struct InputChannel {
    text: Vec<char>,
}

impl View for InputChannel {
    type V = Seq<char>;

    closed spec fn view(&self) -> Seq<char> {
        self.text@
    }
}

impl InputChannel {
    /// A channel holding `v`, normalized.
    pub fn new(v: String) -> (r: Self)
        ensures
            r@ == nfc_of(v@),
    {
        let mut channel = InputChannel { text: chars_of(v.as_str()) };
        channel.normalize();
        channel
    }

    /// The current value.
    pub fn get(&self) -> (r: String)
        ensures
            r@ == self@,
    {
        string_of(&self.text)
    }

    /// Replaces the value with `new_val`, normalized.
    pub fn set(&mut self, new_val: String)
        ensures
            final(self)@ == nfc_of(new_val@),
    {
        self.text = chars_of(new_val.as_str());
        self.normalize();
    }

    /// Appends a character, then normalizes.
    pub fn push(&mut self, to_add: char)
        ensures
            final(self)@ == nfc_of(old(self)@.push(to_add)),
    {
        self.text.push(to_add);
        self.normalize();
    }

    /// Places a character before the one at `char_index` (at the end when
    /// `char_index` is the character count), then normalizes. An index
    /// beyond the count adds nothing.
    pub fn insert_char_at_place(&mut self, char_index: usize, to_add: char)
        ensures
            final(self)@ == nfc_of(inserted(old(self)@, char_index as int, to_add)),
    {
        let mut new_text: Vec<char> = Vec::new();
        let n = self.text.len();
        let mut i: usize = 0;
        while i < n
            invariant
                n == self.text@.len(),
                i <= n,
                new_text@ == (if char_index < i {
                    inserted(self.text@.take(i as int), char_index as int, to_add)
                } else {
                    self.text@.take(i as int)
                }),
            decreases n - i,
        {
            if i == char_index {
                new_text.push(to_add);
            }
            new_text.push(self.text[i]);
            proof {
                let s = self.text@;
                assert(s.take(i + 1) =~= s.take(i as int).push(s[i as int]));
                if char_index < i {
                    assert(s.take(i + 1).insert(char_index as int, to_add) =~= s.take(
                        i as int,
                    ).insert(char_index as int, to_add).push(s[i as int]));
                } else if char_index == i {
                    assert(s.take(i + 1).insert(char_index as int, to_add) =~= s.take(
                        i as int,
                    ).push(to_add).push(s[i as int]));
                }
            }
            i = i + 1;
        }
        proof {
            assert(self.text@.take(n as int) =~= self.text@);
        }
        if char_index == n {
            new_text.push(to_add);
            proof {
                assert(self.text@.insert(n as int, to_add) =~= self.text@.push(to_add));
            }
        }
        self.text = new_text;
        self.normalize();
    }

    /// Removes the character at `index`, then normalizes. An index past the
    /// last character removes nothing.
    pub fn remove_char_at(&mut self, index: usize)
        ensures
            final(self)@ == nfc_of(removed(old(self)@, index as int)),
    {
        let mut new_text: Vec<char> = Vec::new();
        let n = self.text.len();
        let mut i: usize = 0;
        while i < n
            invariant
                n == self.text@.len(),
                i <= n,
                new_text@ == removed(self.text@.take(i as int), index as int),
            decreases n - i,
        {
            if i != index {
                new_text.push(self.text[i]);
            }
            proof {
                let s = self.text@;
                assert(s.take(i + 1) =~= s.take(i as int).push(s[i as int]));
                if (index as int) < i {
                    assert(s.take(i + 1).remove(index as int) =~= s.take(i as int).remove(
                        index as int,
                    ).push(s[i as int]));
                } else if index == i {
                    assert(s.take(i + 1).remove(index as int) =~= s.take(i as int));
                }
            }
            i = i + 1;
        }
        proof {
            assert(self.text@.take(n as int) =~= self.text@);
        }
        self.text = new_text;
        self.normalize();
    }

    /// The number of characters.
    pub fn char_count(&self) -> (r: usize)
        ensures
            r == self@.len(),
    {
        self.text.len()
    }

    /// Every character, in order.
    pub fn chars(&self) -> (r: Vec<char>)
        ensures
            r@ == self@,
    {
        self.text.clone()
    }

    fn normalize(&mut self)
        ensures
            final(self)@ == nfc_of(old(self)@),
    {
        self.text = nfc(&self.text);
    }
}

} // verus!
