//! Blocks gathered by the message that they belong to.

use crate::part;
use crate::part::Part;
use crate::record::{BlockView, ContentBlock};
use vstd::hash_map::StringHashMap;
use vstd::prelude::*;

verus! {

/// The blocks of each message, until they are taken.
pub struct Buckets {
    slots: StringHashMap<usize>,
    blocks: Vec<Vec<ContentBlock>>,
}

impl Buckets {
    /// No two messages share a slot, and every slot exists.
    pub closed spec fn valid(self) -> bool {
        &&& forall|id: Seq<char>| #[trigger]
            self.slots@.contains_key(id) ==> self.slots@[id] < self.blocks.len()
        &&& forall|a: Seq<char>, b: Seq<char>| #[trigger]
            self.slots@.contains_key(a) && #[trigger] self.slots@.contains_key(b) && a != b
                ==> self.slots@[a] != self.slots@[b]
    }

    /// The blocks of the message `id`, in the order in which they were added.
    pub closed spec fn of(self, id: Seq<char>) -> Seq<BlockView> {
        if self.slots@.contains_key(id) {
            self.blocks@[self.slots@[id] as int].deep_view()
        } else {
            Seq::empty()
        }
    }

    /// No blocks for any message.
    pub fn new() -> (buckets: Self)
        ensures
            buckets.valid(),
            forall|id: Seq<char>| #[trigger] buckets.of(id) == Seq::<BlockView>::empty(),
    {
        Buckets { slots: StringHashMap::new(), blocks: Vec::new() }
    }

    /// Adds the blocks of a part to those of the message `id`.
    pub fn add_part(&mut self, id: String, part: &Part)
        requires
            old(self).valid(),
        ensures
            final(self).valid(),
            forall|other: Seq<char>| #[trigger]
                final(self).of(other) == if other == id@ {
                    old(self).of(other) + part::part_blocks(part.deep_view())
                } else {
                    old(self).of(other)
                },
    {
        let slot = match self.slots.get(id.as_str()) {
            Some(slot) => *slot,
            None => {
                let slot = self.blocks.len();
                self.blocks.push(Vec::new());
                self.slots.insert(id, slot);
                slot
            },
        };
        part::push_blocks_from_part(part, &mut self.blocks[slot]);
    }

    /// Takes the blocks of the message `id`, which has none from then on.
    pub fn remove(&mut self, id: &str) -> (blocks: Vec<ContentBlock>)
        requires
            old(self).valid(),
        ensures
            final(self).valid(),
            blocks.deep_view() == old(self).of(id@),
            forall|other: Seq<char>| #[trigger]
                final(self).of(other) == if other == id@ {
                    Seq::empty()
                } else {
                    old(self).of(other)
                },
    {
        let mut blocks: Vec<ContentBlock> = Vec::new();
        if let Some(slot) = self.slots.get(id) {
            std::mem::swap(&mut blocks, &mut self.blocks[*slot]);
        }
        blocks
    }
}

} // verus!
