//! Interning of lexeme spans: each recognized lexeme is recorded as a
//! pair of character offsets into the source, and handed out as a small
//! dense handle, so tokens never carry copied text.
use super::clox_error::CloxError;
use vstd::prelude::*;

verus! {

/// A half-open span of character offsets into the source text.
#[derive(Debug, PartialEq, Eq, Structural, Clone, Copy)]
pub struct StringLocation {
    pub start: usize,
    pub end: usize,
}

pub type StringId = usize;

/// The span table. Handles are dense and increase from zero; the indexer
/// borrows the source text and never copies it.
pub struct StringIndexer<'src> {
    refs: Vec<StringLocation>,
    content: &'src str,
}

impl<'src> StringIndexer<'src> {
    /// The recorded spans, in the order they were added.
    pub closed spec fn locations(&self) -> Seq<StringLocation> {
        self.refs@
    }

    /// The source text the spans point into.
    pub closed spec fn text(&self) -> Seq<char> {
        self.content@
    }

    /// Every recorded span lies within the source text.
    pub open spec fn wf(&self) -> bool {
        forall|i: int|
            0 <= i < self.locations().len() ==> (#[trigger] self.locations()[i]).start
                <= self.locations()[i].end <= self.text().len()
    }

    /// The text a span of this indexer points at.
    pub open spec fn span_text(&self, loc: StringLocation) -> Seq<char> {
        self.text().subrange(loc.start as int, loc.end as int)
    }

    pub fn new(content: &'src str) -> (r: Self)
        ensures
            r.locations() == Seq::<StringLocation>::empty(),
            r.text() == content@,
            r.wf(),
    {
        Self { refs: Vec::new(), content }
    }

    /// Records a span and returns its handle: the next dense id.
    pub fn add_string(&mut self, start: usize, end: usize) -> (r: StringId)
        requires
            start <= end <= old(self).text().len(),
        ensures
            r == old(self).locations().len(),
            final(self).locations() == old(self).locations().push(
                StringLocation { start, end },
            ),
            final(self).text() == old(self).text(),
            old(self).wf() ==> final(self).wf(),
    {
        self.refs.push(StringLocation { start, end });
        proof {
            if old(self).wf() {
                assert forall|i: int| 0 <= i < self.locations().len() implies (
                #[trigger] self.locations()[i]).start <= self.locations()[i].end
                    <= self.text().len() by {
                    if i < old(self).locations().len() {
                        assert(old(self).locations()[i] == self.locations()[i]);
                    }
                }
            }
        }
        self.refs.len() - 1
    }

    /// The text of a recorded span, or a dedicated error for a handle
    /// past the end of the table.
    pub fn get_string(&self, string_id: StringId) -> (r: Result<&'src str, CloxError>)
        requires
            self.wf(),
        ensures
            string_id < self.locations().len() ==> (r matches Ok(s) && s@ == self.span_text(
                self.locations()[string_id as int],
            )),
            string_id >= self.locations().len() ==> r == Result::<&'src str, CloxError>::Err(
                CloxError::StringIndexOutOfBouds,
            ),
    {
        if string_id >= self.refs.len() {
            return Err(CloxError::StringIndexOutOfBouds);
        }
        let string_ref = &self.refs[string_id];
        proof {
            assert(self.locations()[string_id as int].start <= self.locations()[string_id as int].end
                <= self.text().len());
        }
        Ok(self.content.substring_char(string_ref.start, string_ref.end))
    }

    /// The text of a recorded span; the handle must be in range.
    pub fn get_str_at(&self, string_id: usize) -> (r: &'src str)
        requires
            self.wf(),
            string_id < self.locations().len(),
        ensures
            r@ == self.span_text(self.locations()[string_id as int]),
    {
        let location = &self.refs[string_id];
        self.content.substring_char(location.start, location.end)
    }
}

} // verus!
