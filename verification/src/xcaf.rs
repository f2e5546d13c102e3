use vstd::prelude::*;

use crate::iteration::{cursor_step, widen};

verus! {

/// Semantic data for a datum annotation.
#[derive(Debug)]
pub struct DatumData {
    /// Datum identifier (e.g. "A", "B", "C").
    pub name: Option<String>,
    pub semantic_name: Option<String>,
}

/// A text attribute of a label: absent when it is empty.
pub open spec fn attribute_of(s: Seq<char>) -> Option<Seq<char>> {
    if s.len() == 0 {
        None
    } else {
        Some(s)
    }
}

/// `r` holds the text that `attribute_of` gives for `s`.
pub open spec fn is_attribute_of(r: Option<String>, s: Seq<char>) -> bool {
    match r {
        Some(t) => attribute_of(s) == Some(t@),
        None => attribute_of(s) is None,
    }
}

/// A text attribute is kept whole: it is absent only for the empty text,
/// and otherwise it is the stored text itself, every character of it.
pub proof fn text_attribute_is_the_whole_text(s: Seq<char>)
    ensures
        attribute_of(s) is None <==> s.len() == 0,
        attribute_of(s) matches Some(t) ==> t.len() == s.len() && forall|k: int|
            0 <= k < s.len() ==> t[k] == s[k],
{
}

/// A label's text attribute (a name, a semantic name), or `None` when the
/// label stores an empty text.
pub fn text_attribute(s: String) -> (r: Option<String>)
    ensures
        is_attribute_of(r, s@),
        r is None <==> s@.len() == 0,
        r matches Some(t) ==> t@ == s@,
{
    if s.as_str().is_empty() {
        None
    } else {
        Some(s)
    }
}

impl DatumData {
    /// The semantic data of a label from its datum attributes, or `None`
    /// when the label is not a datum.
    pub fn from_attributes(is_datum: bool, name: String, semantic_name: String) -> (r: Option<
        DatumData,
    >)
        ensures
            r is Some <==> is_datum,
            r matches Some(d) ==> is_attribute_of(d.name, name@) && is_attribute_of(
                d.semantic_name,
                semantic_name@,
            ),
            r matches Some(d) ==> (d.name is None <==> name@.len() == 0) && (d.name matches Some(
                t,
            ) ==> t@ == name@),
            r matches Some(d) ==> (d.semantic_name is None <==> semantic_name@.len() == 0) && (
            d.semantic_name matches Some(t) ==> t@ == semantic_name@),
    {
        if !is_datum {
            return None;
        }
        let name = text_attribute(name);
        let semantic_name = text_attribute(semantic_name);
        Some(DatumData { name, semantic_name })
    }
}

/// Walks a label sequence, whose labels are numbered from 1.
pub struct XcafLabelIter {
    len: i32,
    next: i32,
}

impl XcafLabelIter {
    /// The number of labels in the sequence.
    pub closed spec fn len(&self) -> int {
        self.len as int
    }

    /// The number of the next label to yield.
    pub closed spec fn position(&self) -> int {
        self.next as int
    }

    /// The cursor stays between the first label and one past the last.
    pub closed spec fn well_formed(&self) -> bool {
        &&& self.len < i32::MAX
        &&& 1 <= self.next
        &&& self.next <= if self.len > 0 {
            self.len + 1
        } else {
            1
        }
    }

    /// A walk over a sequence of `len` labels, from the first.
    pub fn new(len: i32) -> (it: Self)
        requires
            len < i32::MAX,
        ensures
            it.well_formed(),
            it.len() == len,
            it.position() == 1,
    {
        XcafLabelIter { len, next: 1 }
    }

    /// The number of the next label, if any is left; the walk then moves past it.
    pub fn next_index(&mut self) -> (r: Option<i32>)
        requires
            old(self).well_formed(),
        ensures
            final(self).well_formed(),
            final(self).len() == old(self).len(),
            (final(self).position(), widen(r)) == cursor_step(old(self).position(), old(self).len()),
    {
        if self.next > self.len {
            return None;
        }
        let label = self.next;
        self.next = self.next + 1;
        Some(label)
    }
}

} // verus!
