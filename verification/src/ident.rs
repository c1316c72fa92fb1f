//! A variant of an identifier with more ergonomic handling of raw
//! identifiers.
//!
//! An identifier is kept as the text it was written with, `r#` included where
//! it is raw, and the span it was found at. Two identifiers are the same when
//! their names are, raw or not.

use vstd::prelude::*;
use vstd::std_specs::cmp::{PartialEqSpecImpl, PartialOrdSpecImpl};
use vstd::string::{StrSliceExecFns, StringExecFns};
use std::cmp::Ordering;
use std::hash::{Hash, Hasher};
use devise::proc_macro2::Span;
use crate::hash::feed;

verus! {

/// `proc_macro2::Span`, a region of source code. It is carried along and
/// never looked into.
#[verifier::external_type_specification]
#[verifier::external_body]
pub struct ExSpan(Span);

/// Whether `text` is written as a raw identifier: whether it starts with
/// `r#`.
pub open spec fn raw(text: Seq<char>) -> bool {
    text.len() >= 2 && text[0] == 'r' && text[1] == '#'
}

/// The name that `text` stands for: `text` without the `r#` in front of a raw
/// identifier, `text` itself otherwise.
pub open spec fn unraw(text: Seq<char>) -> Seq<char> {
    if raw(text) {
        text.skip(2)
    } else {
        text
    }
}

/// Whether the character `a` comes before `b`: whether its code point is the
/// smaller.
pub open spec fn char_before(a: char, b: char) -> bool {
    (a as u32) < (b as u32)
}

/// Whether `a` comes before `b` in the order of strings: at the first
/// position where they differ `a` has the character that comes first, or `a`
/// ends there and `b` goes on.
pub open spec fn text_before(a: Seq<char>, b: Seq<char>) -> bool
    decreases a.len(),
{
    if b.len() == 0 {
        false
    } else if a.len() == 0 {
        true
    } else if a[0] != b[0] {
        char_before(a[0], b[0])
    } else {
        text_before(a.skip(1), b.skip(1))
    }
}

/// How `a` stands to `b` in the order of strings.
pub open spec fn text_order(a: Seq<char>, b: Seq<char>) -> Ordering {
    if a == b {
        Ordering::Equal
    } else if text_before(a, b) {
        Ordering::Less
    } else {
        Ordering::Greater
    }
}

/// Texts that agree on their first `i` characters stand as what follows
/// those characters does.
proof fn lemma_common_prefix(a: Seq<char>, b: Seq<char>, i: int)
    requires
        0 <= i <= a.len(),
        i <= b.len(),
        forall|j: int| 0 <= j < i ==> a[j] == b[j],
    ensures
        text_before(a, b) == text_before(a.skip(i), b.skip(i)),
        (a == b) == (a.skip(i) == b.skip(i)),
    decreases i,
{
    if i == 0 {
        assert(a.skip(0) =~= a);
        assert(b.skip(0) =~= b);
    } else {
        lemma_common_prefix(a.skip(1), b.skip(1), i - 1);
        assert(a.skip(1).skip(i - 1) =~= a.skip(i));
        assert(b.skip(1).skip(i - 1) =~= b.skip(i));
        if a.skip(i) == b.skip(i) {
            assert(a =~= b) by {
                assert(a.len() == b.len());
                assert forall|j: int| 0 <= j < a.len() implies a[j] == b[j] by {
                    if j >= i {
                        assert(a[j] == a.skip(i)[j - i]);
                        assert(b[j] == b.skip(i)[j - i]);
                    }
                }
            }
        }
    }
}

fn before(a: char, b: char) -> (is: bool)
    ensures
        is == char_before(a, b),
{
    (a as u32) < (b as u32)
}

/// Compares two texts: whether they are the same, and whether the first comes
/// before the second in the order of strings.
fn compare(a: &str, b: &str) -> (r: (bool, bool))
    ensures
        r.0 == (a@ == b@),
        r.1 == text_before(a@, b@),
{
    let n = a.unicode_len();
    let m = b.unicode_len();
    let mut i: usize = 0;
    while i < n && i < m
        invariant
            i <= n,
            i <= m,
            n == a@.len(),
            m == b@.len(),
            forall|j: int| 0 <= j < i ==> a@[j] == b@[j],
        decreases n - i,
    {
        let x = a.get_char(i);
        let y = b.get_char(i);
        if x != y {
            proof {
                lemma_common_prefix(a@, b@, i as int);
                assert(a@.skip(i as int)[0] == x);
                assert(b@.skip(i as int)[0] == y);
            }
            return (false, before(x, y));
        }
        i += 1;
    }
    proof {
        lemma_common_prefix(a@, b@, i as int);
        if n == m {
            assert(a@.skip(i as int) =~= b@.skip(i as int));
        }
    }
    (n == m, n < m)
}

/// An identifier and where it was found.
#[derive(Debug)]
pub struct Ident {
    text: String,
    span: Span,
}

impl Ident {
    /// The identifier as written.
    pub closed spec fn text(&self) -> Seq<char> {
        self.text@
    }

    /// Where the identifier was found.
    pub closed spec fn found_at(&self) -> Span {
        self.span
    }

    /// The name of the identifier, without `r#`.
    pub open spec fn name_of(&self) -> Seq<char> {
        unraw(self.text())
    }

    /// The identifier written as `text`, found at `span`.
    pub fn new(text: &str, span: Span) -> (ident: Ident)
        ensures
            ident.text() == text@,
            ident.found_at() == span,
    {
        Ident { text: text.to_owned(), span }
    }

    /// Whether the identifier is raw.
    pub fn is_raw(&self) -> (is: bool)
        ensures
            is == raw(self.text()),
    {
        let text = self.text.as_str();
        text.unicode_len() >= 2 && text.get_char(0) == 'r' && text.get_char(1) == '#'
    }

    /// The identifier as written, `r#` included where it is raw.
    pub fn as_written(&self) -> (text: &str)
        ensures
            text@ == self.text(),
    {
        self.text.as_str()
    }

    /// The name of the identifier, without `r#`.
    pub fn name(&self) -> (name: String)
        ensures
            name@ == self.name_of(),
    {
        let text = self.text.as_str();
        if self.is_raw() {
            let len = text.unicode_len();
            let name = text.substring_char(2, len);
            assert(name@ =~= self.text().skip(2));
            name.to_owned()
        } else {
            text.to_owned()
        }
    }

    /// The identifier whose text is `string` followed by the name of this
    /// one, at the same span. The result is not raw unless `string` makes it
    /// so.
    pub fn prepend(&self, string: &str) -> (ident: Ident)
        ensures
            ident.text() == string@ + self.name_of(),
            ident.found_at() == self.found_at(),
    {
        let mut text = string.to_owned();
        let name = self.name();
        text.append(name.as_str());
        Ident { text, span: self.span }
    }

    /// Where the identifier was found.
    pub fn span(&self) -> (span: Span)
        ensures
            span == self.found_at(),
    {
        self.span
    }

    /// Whether the name of the identifier is `other`.
    pub fn is_named(&self, other: &str) -> (same: bool)
        ensures
            same == (self.name_of() == other@),
    {
        let name = self.name();
        let other = other.to_owned();
        name == other
    }
}

impl Clone for Ident {
    fn clone(&self) -> (ident: Ident)
        ensures
            ident.text() == self.text(),
            ident.found_at() == self.found_at(),
    {
        Ident { text: self.text.clone(), span: self.span }
    }
}

impl PartialEq for Ident {
    /// Identifiers are equal when their names are.
    fn eq(&self, other: &Ident) -> (same: bool) {
        let ours = self.name();
        let theirs = other.name();
        ours == theirs
    }
}

impl Eq for Ident {

}

impl PartialOrd for Ident {
    /// Identifiers are ordered as their names are.
    fn partial_cmp(&self, other: &Ident) -> (order: Option<Ordering>) {
        let ours = self.name();
        let theirs = other.name();
        let (same, first) = compare(ours.as_str(), theirs.as_str());
        if same {
            Some(Ordering::Equal)
        } else if first {
            Some(Ordering::Less)
        } else {
            Some(Ordering::Greater)
        }
    }
}

impl PartialOrdSpecImpl for Ident {
    open spec fn obeys_partial_cmp_spec() -> bool {
        true
    }

    open spec fn partial_cmp_spec(&self, other: &Ident) -> Option<Ordering> {
        Some(text_order(self.name_of(), other.name_of()))
    }
}

impl Hash for Ident {
    /// An identifier hashes as its name does.
    fn hash<H: Hasher>(&self, state: &mut H) {
        let name = self.name();
        feed(&name, state);
    }
}

impl PartialEqSpecImpl for Ident {
    open spec fn obeys_eq_spec() -> bool {
        true
    }

    open spec fn eq_spec(&self, other: &Ident) -> bool {
        self.name_of() == other.name_of()
    }
}

} // verus!
