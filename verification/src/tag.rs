//! Command correlation tags and their per-connection generator.

use vstd::prelude::*;

verus! {

/// Correlation key echoed by the server's tagged completion: one ASCII
/// prefix character and a sequence number. Two tags are the same exactly
/// when both fields agree.
#[derive(Clone, Copy, Debug, PartialEq, Eq, Structural)]
pub struct Tag {
    pub prefix: char,
    pub sequence: u32,
}

impl DeepView for Tag {
    type V = Tag;

    open spec fn deep_view(&self) -> Tag {
        *self
    }
}

impl Tag {
    /// The prefix is a printable ASCII character, so a tag always
    /// serializes to plain ASCII bytes.
    pub open spec fn wf(self) -> bool {
        33 <= self.prefix as u32 <= 126
    }

    pub fn new(prefix: char, sequence: u32) -> (r: Tag)
        ensures
            r == (Tag { prefix, sequence }),
    {
        Tag { prefix, sequence }
    }
}

/// The sequence number handed out by the first call on a fresh generator.
pub const TAG_SEQUENCE_START: u32 = 1;

/// Produces the tags of one connection: a fixed one-character namespace
/// paired with a strictly increasing counter. No tag value is ever handed
/// out twice by the same generator; the counter reaching `u32::MAX` is an
/// accepted, unhandled limit.
pub struct TagGenerator {
    pub prefix: char,
    pub counter: u32,
}

impl TagGenerator {
    pub open spec fn wf(self) -> bool {
        33 <= self.prefix as u32 <= 126
    }

    pub fn new(prefix: char) -> (r: TagGenerator)
        requires
            33 <= prefix as u32 <= 126,
        ensures
            r == (TagGenerator { prefix, counter: TAG_SEQUENCE_START }),
    {
        TagGenerator { prefix, counter: TAG_SEQUENCE_START }
    }

    /// Returns the next tag and advances the counter by exactly one.
    pub fn next_tag(&mut self) -> (r: Tag)
        requires
            old(self).counter < u32::MAX,
        ensures
            r == (Tag { prefix: old(self).prefix, sequence: old(self).counter }),
            final(self).prefix == old(self).prefix,
            final(self).counter == old(self).counter + 1,
    {
        let r = Tag { prefix: self.prefix, sequence: self.counter };
        self.counter = self.counter + 1;
        r
    }
}

/// The tag a generator seeded with `start` returns on its `k`-th call
/// (counting from zero), as follows from `next_tag`'s contract.
pub open spec fn generated_tag(prefix: char, start: u32, k: int) -> Tag {
    Tag { prefix, sequence: (start + k) as u32 }
}

/// Law: among any `n` sequential calls of one generator, the returned tags
/// are pairwise distinct.
pub proof fn lemma_generated_tags_distinct(prefix: char, start: u32, n: int)
    requires
        start + n <= u32::MAX + 1,
    ensures
        forall|i: int, j: int|
            0 <= i < j < n ==> generated_tag(prefix, start, i) != generated_tag(
                prefix,
                start,
                j,
            ),
{
    assert forall|i: int, j: int| 0 <= i < j < n implies generated_tag(prefix, start, i)
        != generated_tag(prefix, start, j) by {
        assert(start + i <= u32::MAX);
        assert(start + j <= u32::MAX);
        assert((start + i) as u32 != (start + j) as u32);
    }
}

} // verus!
