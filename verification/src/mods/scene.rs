//! What the blocks of a scene say: the value that a key has in a block, and
//! the material that an object names.

use vstd::prelude::*;
use crate::mods::parser::{
    blocks_of, fields_of, Block, BlockKind, BlockSpec, FieldKey, FieldSpec, FieldValue,
    FieldValueSpec,
};
use crate::mods::text::{copy_text, same_text};

verus! {

/// The place of the last field of `fields` with the key `key`.
pub open spec fn last_field(fields: Seq<FieldSpec>, key: FieldKey) -> Option<int>
    decreases fields.len(),
{
    if fields.len() == 0 {
        None
    } else if fields.last().key == key {
        Some(fields.len() - 1)
    } else {
        last_field(fields.drop_last(), key)
    }
}

/// The last field with the key `key` is a field with that key, and no later
/// field has it; there is none only where no field has the key.
pub proof fn lemma_last_field(fields: Seq<FieldSpec>, key: FieldKey)
    ensures
        match last_field(fields, key) {
            Some(i) => 0 <= i < fields.len() && fields[i].key == key && forall|j: int|
                i < j < fields.len() ==> (#[trigger] fields[j]).key != key,
            None => forall|j: int| 0 <= j < fields.len() ==> (#[trigger] fields[j]).key != key,
        },
    decreases fields.len(),
{
    if fields.len() > 0 && fields.last().key != key {
        lemma_last_field(fields.drop_last(), key);
        let shorter = fields.drop_last();
        match last_field(shorter, key) {
            Some(i) => {
                assert forall|j: int| i < j < fields.len() implies (#[trigger] fields[j]).key
                    != key by {
                    if j < shorter.len() {
                        assert(shorter[j] == fields[j]);
                    }
                }
            },
            None => {
                assert forall|j: int| 0 <= j < fields.len() implies (#[trigger] fields[j]).key
                    != key by {
                    if j < shorter.len() {
                        assert(shorter[j] == fields[j]);
                    }
                }
            },
        }
    }
}

/// The name that the key `key` has in a block: that of the last field with
/// this key; the empty name where the block has no such field.
pub open spec fn name_in(block: BlockSpec, key: FieldKey) -> Seq<char> {
    match last_field(block.fields, key) {
        Some(i) => match block.fields[i].value {
            FieldValueSpec::Name(name) => name,
            FieldValueSpec::Numbers(_) => Seq::empty(),
        },
        None => Seq::empty(),
    }
}

/// `block` is a material with the name `wanted`.
pub open spec fn is_material_named(block: BlockSpec, wanted: Seq<char>) -> bool {
    block.kind == BlockKind::Material && name_in(block, FieldKey::Name) == wanted
}

/// The first place from `from` on, and before `limit`, that holds a material
/// with the name `wanted`.
pub open spec fn first_material(blocks: Seq<BlockSpec>, wanted: Seq<char>, from: int, limit: int)
    -> Option<int>
    decreases limit - from,
{
    if from >= limit || from < 0 || limit > blocks.len() {
        None
    } else if is_material_named(blocks[from], wanted) {
        Some(from)
    } else {
        first_material(blocks, wanted, from + 1, limit)
    }
}

/// The material of the block at `index`: the first material before it whose
/// name is the one that the block gives under `mat`. A material that comes
/// later in the scene does not count. `None` stands for the default
/// material.
pub open spec fn material_of(blocks: Seq<BlockSpec>, index: int) -> Option<int> {
    first_material(blocks, name_in(blocks[index], FieldKey::Mat), 0, index)
}

/// The first material of a name is a material with that name, and no
/// block between the start of the search and it is one; there is none only
/// where no block in the range is one.
pub proof fn lemma_first_material(blocks: Seq<BlockSpec>, wanted: Seq<char>, from: int, limit: int)
    requires
        0 <= from <= limit <= blocks.len(),
    ensures
        match first_material(blocks, wanted, from, limit) {
            Some(i) => from <= i < limit && is_material_named(blocks[i], wanted) && forall|j: int|
                from <= j < i ==> !is_material_named(#[trigger] blocks[j], wanted),
            None => forall|j: int|
                from <= j < limit ==> !is_material_named(#[trigger] blocks[j], wanted),
        },
    decreases limit - from,
{
    if from < limit && !is_material_named(blocks[from], wanted) {
        lemma_first_material(blocks, wanted, from + 1, limit);
    }
}

impl Block {
    /// The value of the last field with the key `key`.
    pub fn last_value(&self, key: FieldKey) -> (r: Option<&FieldValue>)
        ensures
            match last_field(self@.fields, key) {
                Some(i) => r is Some && r->Some_0@ == self@.fields[i].value,
                None => r is None,
            },
    {
        let ghost fields = fields_of(self.fields@);
        let mut i: usize = self.fields.len();
        assert(fields.take(i as int) =~= fields);
        while i > 0
            invariant
                i <= self.fields@.len(),
                fields == fields_of(self.fields@),
                last_field(fields, key) == last_field(fields.take(i as int), key),
            decreases i,
        {
            i = i - 1;
            assert(fields[i as int] == self.fields@[i as int]@);
            assert(fields.take(i + 1).last() == fields[i as int]);
            assert(fields.take(i + 1).drop_last() =~= fields.take(i as int));
            if self.fields[i].key == key {
                return Some(&self.fields[i].value);
            }
        }
        None
    }

    /// The name that the key `key` has in the block.
    pub fn name(&self, key: FieldKey) -> (r: Vec<char>)
        ensures
            r@ == name_in(self@, key),
    {
        match self.last_value(key) {
            Some(FieldValue::Name(name)) => copy_text(name),
            _ => Vec::new(),
        }
    }
}

/// The material of the block at `index`.
pub fn find_material(blocks: &Vec<Block>, index: usize) -> (r: Option<usize>)
    requires
        index < blocks@.len(),
    ensures
        match material_of(blocks_of(blocks@), index as int) {
            Some(i) => r == Some(i as usize) && i < index,
            None => r is None,
        },
{
    let ghost specs = blocks_of(blocks@);
    assert(specs[index as int] == blocks@[index as int]@);
    let wanted = blocks[index].name(FieldKey::Mat);
    let mut i: usize = 0;
    while i < index
        invariant
            i <= index < blocks@.len(),
            specs == blocks_of(blocks@),
            wanted@ == name_in(specs[index as int], FieldKey::Mat),
            material_of(specs, index as int) == first_material(
                specs,
                wanted@,
                i as int,
                index as int,
            ),
        decreases index - i,
    {
        assert(specs[i as int] == blocks@[i as int]@);
        let found = match blocks[i].kind {
            BlockKind::Material => {
                let name = blocks[i].name(FieldKey::Name);
                same_text(&name, &wanted)
            },
            _ => false,
        };
        if found {
            return Some(i);
        }
        i = i + 1;
    }
    None
}

} // verus!
