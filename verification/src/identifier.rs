//! Identifier and string-typed domain types.
//!
//! Each type validates its raw string once, at construction, and the
//! constructor's contract states exactly which strings are admitted.
use vstd::prelude::*;
use vstd::string::*;

use crate::limits::{MAX_ATTRIBUTE_NAME_LEN, MAX_PATTERN_LEN, MAX_TABLE_NAME_LEN};

verus! {

/// ASCII alphabetic or underscore: admissible first character of an
/// identifier.
pub open spec fn is_ident_start(c: char) -> bool {
    ('a' <= c && c <= 'z') || ('A' <= c && c <= 'Z') || c == '_'
}

/// ASCII alphanumeric or underscore: admissible body character of an
/// identifier.
pub open spec fn is_ident_char(c: char) -> bool {
    is_ident_start(c) || ('0' <= c && c <= '9')
}

/// Every character of `s` is an identifier character.
pub open spec fn all_ident_chars(s: Seq<char>) -> bool {
    forall|i: int| 0 <= i < s.len() ==> is_ident_char(#[trigger] s[i])
}

/// The attribute-name rule: 1..=`MAX_ATTRIBUTE_NAME_LEN` characters,
/// all identifier characters, the first one an identifier start.
pub open spec fn valid_attribute_name(s: Seq<char>) -> bool {
    &&& 1 <= s.len() <= MAX_ATTRIBUTE_NAME_LEN
    &&& all_ident_chars(s)
    &&& is_ident_start(s[0])
}

/// `offset` is the position of the first non-identifier character.
pub open spec fn first_bad_char(s: Seq<char>, offset: int) -> bool {
    &&& 0 <= offset < s.len()
    &&& !is_ident_char(s[offset])
    &&& all_ident_chars(s.take(offset))
}

fn char_is_ident_start(c: char) -> (r: bool)
    ensures
        r == is_ident_start(c),
{
    ('a' <= c && c <= 'z') || ('A' <= c && c <= 'Z') || c == '_'
}

fn char_is_ident_char(c: char) -> (r: bool)
    ensures
        r == is_ident_char(c),
{
    char_is_ident_start(c) || ('0' <= c && c <= '9')
}

/// Attribute name in a relation schema:
/// 1..=`MAX_ATTRIBUTE_NAME_LEN` characters; first character ASCII
/// alphabetic or underscore; remaining characters ASCII alphanumeric
/// or underscore.
#[derive(Debug, Hash, PartialEq, Eq, PartialOrd, Ord)]
pub struct AttributeName {
    name: String,
}

impl View for AttributeName {
    type V = Seq<char>;

    closed spec fn view(&self) -> Seq<char> {
        self.name@
    }
}

/// Constructor error for `AttributeName`.
#[derive(Debug, Clone, Copy, PartialEq, Eq)]
#[non_exhaustive]
pub enum AttributeNameError {
    /// Length (in characters) fell outside `1..=MAX_ATTRIBUTE_NAME_LEN`.
    Length {
        /// Observed character count.
        actual: usize,
    },
    /// The first character was not an admissible identifier start.
    FirstChar,
    /// A character was not admissible; `offset` is the UTF-8 byte
    /// offset of the first such character (every character before it
    /// is ASCII, so it is also its character index).
    BodyChar {
        /// UTF-8 byte offset of the first rejected character.
        offset: usize,
    },
}

impl Clone for AttributeName {
    fn clone(&self) -> (r: Self)
        ensures
            r == *self,
    {
        AttributeName { name: self.name.clone() }
    }
}

impl AttributeName {
    /// Validate `raw` against the attribute-name rule and wrap. The
    /// length is checked first, then every character, then the first
    /// character.
    pub fn try_new(raw: String) -> (r: Result<Self, AttributeNameError>)
        ensures
            match r {
                Ok(n) => valid_attribute_name(raw@) && n@ == raw@,
                Err(AttributeNameError::Length { actual }) => actual == raw@.len() && !(1
                    <= raw@.len() <= MAX_ATTRIBUTE_NAME_LEN),
                Err(AttributeNameError::BodyChar { offset }) => 1 <= raw@.len()
                    <= MAX_ATTRIBUTE_NAME_LEN && first_bad_char(raw@, offset as int),
                Err(AttributeNameError::FirstChar) => 1 <= raw@.len() <= MAX_ATTRIBUTE_NAME_LEN
                    && all_ident_chars(raw@) && !is_ident_start(raw@[0]),
            },
    {
        let len = raw.as_str().unicode_len();
        if len < 1 || len > MAX_ATTRIBUTE_NAME_LEN {
            return Err(AttributeNameError::Length { actual: len });
        }
        let mut i: usize = 0;
        while i < len
            invariant
                len == raw@.len(),
                1 <= len <= MAX_ATTRIBUTE_NAME_LEN,
                i <= len,
                all_ident_chars(raw@.take(i as int)),
            decreases len - i,
        {
            let c = raw.as_str().get_char(i);
            if !char_is_ident_char(c) {
                return Err(AttributeNameError::BodyChar { offset: i });
            }
            assert(raw@.take(i + 1) =~= raw@.take(i as int).push(c));
            i = i + 1;
        }
        assert(raw@.take(len as int) =~= raw@);
        let first = raw.as_str().get_char(0);
        if !char_is_ident_start(first) {
            return Err(AttributeNameError::FirstChar);
        }
        Ok(AttributeName { name: raw })
    }

    /// Borrow the inner string.
    pub fn as_str(&self) -> (r: &str)
        ensures
            r@ == self@,
    {
        self.name.as_str()
    }

    /// Consume the wrapper and return the inner string.
    pub fn into_inner(self) -> (r: String)
        ensures
            r@ == self@,
    {
        self.name
    }

    /// `true` iff the two names are the same string.
    pub fn equals(&self, other: &AttributeName) -> (r: bool)
        ensures
            r == (self@ == other@),
    {
        self.name == other.name
    }
}

/// Table name: 1..=`MAX_TABLE_NAME_LEN` characters.
#[derive(Debug, Hash, PartialEq, Eq, PartialOrd, Ord)]
pub struct TableName {
    name: String,
}

impl View for TableName {
    type V = Seq<char>;

    closed spec fn view(&self) -> Seq<char> {
        self.name@
    }
}

impl Clone for TableName {
    fn clone(&self) -> (r: Self)
        ensures
            r == *self,
    {
        TableName { name: self.name.clone() }
    }
}

/// Constructor error for `TableName`.
#[derive(Debug, Clone, Copy, PartialEq, Eq)]
#[non_exhaustive]
pub enum TableNameError {
    /// Length (in characters) fell outside `1..=MAX_TABLE_NAME_LEN`.
    Length {
        /// Observed character count.
        actual: usize,
    },
}

impl TableName {
    /// Validate `raw` against the table-name rule and wrap.
    pub fn try_new(raw: String) -> (r: Result<Self, TableNameError>)
        ensures
            match r {
                Ok(n) => 1 <= raw@.len() <= MAX_TABLE_NAME_LEN && n@ == raw@,
                Err(TableNameError::Length { actual }) => actual == raw@.len() && !(1
                    <= raw@.len() <= MAX_TABLE_NAME_LEN),
            },
    {
        let len = raw.as_str().unicode_len();
        if len < 1 || len > MAX_TABLE_NAME_LEN {
            return Err(TableNameError::Length { actual: len });
        }
        Ok(TableName { name: raw })
    }

    /// Borrow the inner string.
    pub fn as_str(&self) -> (r: &str)
        ensures
            r@ == self@,
    {
        self.name.as_str()
    }

    /// Consume the wrapper and return the inner string.
    pub fn into_inner(self) -> (r: String)
        ensures
            r@ == self@,
    {
        self.name
    }
}

/// `LIKE`-style pattern string: 1..=`MAX_PATTERN_LEN` characters. The
/// pattern's syntax is left to the backend that consumes it.
#[derive(Debug, Hash, PartialEq, Eq, PartialOrd, Ord)]
pub struct Pattern {
    text: String,
}

impl View for Pattern {
    type V = Seq<char>;

    closed spec fn view(&self) -> Seq<char> {
        self.text@
    }
}

impl Clone for Pattern {
    fn clone(&self) -> (r: Self)
        ensures
            r == *self,
    {
        Pattern { text: self.text.clone() }
    }
}

/// Constructor error for `Pattern`.
#[derive(Debug, Clone, Copy, PartialEq, Eq)]
#[non_exhaustive]
pub enum PatternError {
    /// Length (in characters) fell outside `1..=MAX_PATTERN_LEN`.
    Length {
        /// Observed character count.
        actual: usize,
    },
}

impl Pattern {
    /// Validate `raw` against the pattern rule and wrap.
    pub fn try_new(raw: String) -> (r: Result<Self, PatternError>)
        ensures
            match r {
                Ok(p) => 1 <= raw@.len() <= MAX_PATTERN_LEN && p@ == raw@,
                Err(PatternError::Length { actual }) => actual == raw@.len() && !(1 <= raw@.len()
                    <= MAX_PATTERN_LEN),
            },
    {
        let len = raw.as_str().unicode_len();
        if len < 1 || len > MAX_PATTERN_LEN {
            return Err(PatternError::Length { actual: len });
        }
        Ok(Pattern { text: raw })
    }

    /// Borrow the inner string.
    pub fn as_str(&self) -> (r: &str)
        ensures
            r@ == self@,
    {
        self.text.as_str()
    }

    /// Consume the wrapper and return the inner string.
    pub fn into_inner(self) -> (r: String)
        ensures
            r@ == self@,
    {
        self.text
    }
}

impl crate::refine::NameKeyed for AttributeName {
    open spec fn key_view(&self) -> Seq<char> {
        self@
    }

    fn key(&self) -> (k: &AttributeName) {
        self
    }
}

/// Lexicographic order on character sequences by code point (the
/// order `String`'s `Ord` induces, since UTF-8 preserves code-point
/// order).
pub open spec fn chars_lt(a: Seq<char>, b: Seq<char>) -> bool
    decreases a.len(),
{
    if a.len() == 0 {
        b.len() > 0
    } else if b.len() == 0 {
        false
    } else if a[0] != b[0] {
        a[0] < b[0]
    } else {
        chars_lt(a.drop_first(), b.drop_first())
    }
}

/// `chars_lt` is irreflexive and total on distinct sequences.
pub proof fn lemma_chars_lt_total(a: Seq<char>, b: Seq<char>)
    ensures
        !chars_lt(a, a),
        a != b ==> chars_lt(a, b) || chars_lt(b, a),
        !(chars_lt(a, b) && chars_lt(b, a)),
    decreases a.len(),
{
    if a.len() > 0 {
        lemma_chars_lt_total(a.drop_first(), a.drop_first());
        if b.len() > 0 {
            lemma_chars_lt_total(a.drop_first(), b.drop_first());
            if a[0] == b[0] && a.drop_first() == b.drop_first() {
                assert(a =~= seq![a[0]] + a.drop_first());
                assert(b =~= seq![b[0]] + b.drop_first());
            }
        }
    } else if b.len() == 0 {
        assert(a =~= b);
    }
}

/// `chars_lt` is transitive.
pub proof fn lemma_chars_lt_trans(a: Seq<char>, b: Seq<char>, c: Seq<char>)
    requires
        chars_lt(a, b),
        chars_lt(b, c),
    ensures
        chars_lt(a, c),
    decreases a.len(),
{
    if a.len() > 0 && b.len() > 0 && c.len() > 0 {
        if a[0] == b[0] && b[0] == c[0] {
            lemma_chars_lt_trans(a.drop_first(), b.drop_first(), c.drop_first());
        }
    }
}

impl AttributeName {
    /// `true` iff `self` sorts strictly before `other`.
    pub fn less_than(&self, other: &AttributeName) -> (r: bool)
        ensures
            r == chars_lt(self@, other@),
    {
        let a = self.name.as_str();
        let b = other.name.as_str();
        let na = a.unicode_len();
        let nb = b.unicode_len();
        let mut i: usize = 0;
        proof {
            assert(self@.skip(0) =~= self@);
            assert(other@.skip(0) =~= other@);
        }
        while i < na && i < nb
            invariant
                na == self@.len(),
                nb == other@.len(),
                a@ == self@,
                b@ == other@,
                i <= na,
                i <= nb,
                chars_lt(self@, other@) == chars_lt(self@.skip(i as int), other@.skip(i as int)),
            decreases na - i,
        {
            let ca = a.get_char(i);
            let cb = b.get_char(i);
            if ca != cb {
                return ca < cb;
            }
            proof {
                assert(self@.skip(i as int).drop_first() =~= self@.skip(i + 1));
                assert(other@.skip(i as int).drop_first() =~= other@.skip(i + 1));
            }
            i = i + 1;
        }
        i < nb
    }
}

} // verus!
