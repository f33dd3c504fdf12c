//! Where a block stands in the hash tree of a file, and an index of such
//! places that holds each of them once.

use vstd::prelude::*;
use crate::model::{HashModel, OmniHash};

verus! {

/// The place of one block in the hash tree that starts at `root_hash`.
/// `depth` is the distance from the root, which is at depth 0; `index` counts
/// the blocks of one depth from 0.
#[derive(Debug)]
pub struct MerkleLayer {
    pub root_hash: OmniHash,
    pub block_hash: OmniHash,
    pub depth: u32,
    pub index: u32,
}

/// A place, with hashes as sequences.
pub struct LayerModel {
    pub root_hash: HashModel,
    pub block_hash: HashModel,
    pub depth: u32,
    pub index: u32,
}

impl View for MerkleLayer {
    type V = LayerModel;

    open spec fn view(&self) -> LayerModel {
        LayerModel {
            root_hash: self.root_hash@,
            block_hash: self.block_hash@,
            depth: self.depth,
            index: self.index,
        }
    }
}

impl MerkleLayer {
    /// Whether two places are the same in all four parts.
    pub fn same(&self, other: &MerkleLayer) -> (r: bool)
        ensures
            r == (self@ == other@),
    {
        self.depth == other.depth && self.index == other.index && self.root_hash.same(
            &other.root_hash,
        ) && self.block_hash.same(&other.block_hash)
    }
}

/// Why a place does not go into an index.
#[derive(Clone, Copy, Debug, PartialEq, Eq, Structural)]
pub enum MerkleError {
    /// The index holds this very place already.
    Duplicate,
    /// The place is at depth 0 and its index is not 0.
    RootIndexNotZero,
    /// The place is at depth 0 and the index holds another place at depth 0
    /// of the same tree.
    RootTaken,
}

/// Whether a set of places has at most one place at depth 0 for each tree,
/// and that one at index 0.
pub open spec fn roots_wf(layers: Set<LayerModel>) -> bool {
    &&& forall|l: LayerModel| #[trigger] layers.contains(l) && l.depth == 0 ==> l.index == 0
    &&& forall|a: LayerModel, b: LayerModel|
        #[trigger] layers.contains(a) && #[trigger] layers.contains(b) && a.depth == 0 && b.depth
            == 0 && a.root_hash == b.root_hash ==> a == b
}

/// Whether a set of places holds the root of the tree that starts at
/// `root_hash`.
pub open spec fn has_root(layers: Set<LayerModel>, root_hash: HashModel) -> bool {
    exists|l: LayerModel| #[trigger] layers.contains(l) && l.depth == 0 && l.root_hash == root_hash
}

/// Whether a set of places holds the block `block_hash` of the tree that
/// starts at `root_hash`, at whatever place.
pub open spec fn has_block(layers: Set<LayerModel>, root_hash: HashModel, block_hash: HashModel)
    -> bool {
    exists|l: LayerModel|
        #[trigger] layers.contains(l) && l.root_hash == root_hash && l.block_hash == block_hash
}

/// What putting a place into a set of places gives: the set with the place,
/// or the reason why the place does not go in.
pub open spec fn spec_insert(layers: Set<LayerModel>, layer: LayerModel) -> Result<
    Set<LayerModel>,
    MerkleError,
> {
    if layers.contains(layer) {
        Err(MerkleError::Duplicate)
    } else if layer.depth == 0 && layer.index != 0 {
        Err(MerkleError::RootIndexNotZero)
    } else if layer.depth == 0 && has_root(layers, layer.root_hash) {
        Err(MerkleError::RootTaken)
    } else {
        Ok(layers.insert(layer))
    }
}

spec fn at(layers: Seq<MerkleLayer>, i: int) -> LayerModel {
    layers[i]@
}

spec fn holds(layers: Seq<MerkleLayer>, layer: LayerModel) -> bool {
    exists|i: int| 0 <= i < layers.len() && #[trigger] at(layers, i) == layer
}

spec fn to_set(layers: Seq<MerkleLayer>) -> Set<LayerModel> {
    Set::new(|l: LayerModel| holds(layers, l))
}

/// An index of places in hash trees. It holds no place twice, and for each
/// tree at most one place at depth 0, whose index is 0.
pub struct MerkleIndex {
    layers: Vec<MerkleLayer>,
}

impl View for MerkleIndex {
    type V = Set<LayerModel>;

    closed spec fn view(&self) -> Set<LayerModel> {
        to_set(self.layers@)
    }
}

impl MerkleIndex {
    /// The places are held once each and the roots are in order.
    pub closed spec fn wf(&self) -> bool {
        &&& forall|i: int, j: int|
            0 <= i < self.layers@.len() && 0 <= j < self.layers@.len() && i != j ==> #[trigger] at(
                self.layers@,
                i,
            ) != #[trigger] at(self.layers@, j)
        &&& roots_wf(self@)
        &&& self@.finite()
        &&& self@.len() == self.layers@.len()
    }

    /// The empty index.
    pub fn new() -> (r: MerkleIndex)
        ensures
            r.wf(),
            r@ == Set::<LayerModel>::empty(),
    {
        let r = MerkleIndex { layers: Vec::new() };
        assert(r@ =~= Set::<LayerModel>::empty());
        r
    }

    /// A well-formed index keeps its roots in order.
    pub proof fn lemma_roots_wf(&self)
        requires
            self.wf(),
        ensures
            roots_wf(self@),
    {
    }

    /// How many places the index holds.
    pub fn len(&self) -> (r: usize)
        requires
            self.wf(),
        ensures
            r == self@.len(),
    {
        self.layers.len()
    }

    /// Whether the index holds this very place.
    pub fn contains(&self, layer: &MerkleLayer) -> (r: bool)
        ensures
            r == self@.contains(layer@),
    {
        let mut i: usize = 0;
        while i < self.layers.len()
            invariant
                i <= self.layers@.len(),
                forall|j: int| 0 <= j < i ==> at(self.layers@, j) != layer@,
            decreases self.layers@.len() - i,
        {
            if self.layers[i].same(layer) {
                assert(at(self.layers@, i as int) == layer@);
                return true;
            }
            i = i + 1;
        }
        false
    }

    /// Whether the index holds the root of the tree that starts at
    /// `root_hash`.
    pub fn root_exists(&self, root_hash: &OmniHash) -> (r: bool)
        ensures
            r == has_root(self@, root_hash@),
    {
        let mut i: usize = 0;
        while i < self.layers.len()
            invariant
                i <= self.layers@.len(),
                forall|j: int|
                    0 <= j < i ==> !(at(self.layers@, j).depth == 0 && at(self.layers@, j).root_hash
                        == root_hash@),
            decreases self.layers@.len() - i,
        {
            if self.layers[i].depth == 0 && self.layers[i].root_hash.same(root_hash) {
                assert(self@.contains(at(self.layers@, i as int)));
                return true;
            }
            i = i + 1;
        }
        proof {
            if has_root(self@, root_hash@) {
                let l = choose|l: LayerModel|
                    #[trigger] self@.contains(l) && l.depth == 0 && l.root_hash == root_hash@;
                let j = choose|j: int| 0 <= j < self.layers@.len() && at(self.layers@, j) == l;
                assert(false);
            }
        }
        false
    }

    /// Whether the index holds the block `block_hash` of the tree that starts
    /// at `root_hash`, at whatever place.
    pub fn block_exists(&self, root_hash: &OmniHash, block_hash: &OmniHash) -> (r: bool)
        ensures
            r == has_block(self@, root_hash@, block_hash@),
    {
        let mut i: usize = 0;
        while i < self.layers.len()
            invariant
                i <= self.layers@.len(),
                forall|j: int|
                    0 <= j < i ==> !(at(self.layers@, j).root_hash == root_hash@ && at(
                        self.layers@,
                        j,
                    ).block_hash == block_hash@),
            decreases self.layers@.len() - i,
        {
            if self.layers[i].root_hash.same(root_hash) && self.layers[i].block_hash.same(
                block_hash,
            ) {
                assert(self@.contains(at(self.layers@, i as int)));
                return true;
            }
            i = i + 1;
        }
        proof {
            if has_block(self@, root_hash@, block_hash@) {
                let l = choose|l: LayerModel|
                    #[trigger] self@.contains(l) && l.root_hash == root_hash@ && l.block_hash
                        == block_hash@;
                let j = choose|j: int| 0 <= j < self.layers@.len() && at(self.layers@, j) == l;
                assert(false);
            }
        }
        false
    }

    /// Puts a place into the index. A place that the index holds already is
    /// refused, and so is a place at depth 0 whose index is not 0 or whose
    /// tree has its root in the index already. A refused place changes
    /// nothing.
    pub fn insert(&mut self, layer: MerkleLayer) -> (r: Result<(), MerkleError>)
        requires
            old(self).wf(),
        ensures
            final(self).wf(),
            match spec_insert(old(self)@, layer@) {
                Ok(layers) => r is Ok && final(self)@ == layers,
                Err(error) => r == Err::<(), MerkleError>(error) && final(self)@ == old(self)@,
            },
    {
        if self.contains(&layer) {
            return Err(MerkleError::Duplicate);
        }
        if layer.depth == 0 {
            if layer.index != 0 {
                return Err(MerkleError::RootIndexNotZero);
            }
            if self.root_exists(&layer.root_hash) {
                return Err(MerkleError::RootTaken);
            }
        }
        let ghost before = self.layers@;
        let ghost added = layer@;
        self.layers.push(layer);
        proof {
            let after = self.layers@;
            let n = before.len() as int;
            assert forall|l: LayerModel| #[trigger]
                to_set(after).contains(l) == to_set(before).insert(added).contains(l) by {
                if to_set(after).contains(l) {
                    let i = choose|i: int| 0 <= i < after.len() && at(after, i) == l;
                    if i < n {
                        assert(at(before, i) == l);
                    }
                }
                if to_set(before).contains(l) {
                    let i = choose|i: int| 0 <= i < before.len() && at(before, i) == l;
                    assert(at(after, i) == l);
                }
                if l == added {
                    assert(at(after, n) == l);
                }
            }
            assert(to_set(after) =~= to_set(before).insert(added));
            assert forall|i: int, j: int|
                0 <= i < after.len() && 0 <= j < after.len() && i != j implies at(after, i) != at(
                after,
                j,
            ) by {
                if i < n {
                    assert(at(after, i) == at(before, i));
                    assert(to_set(before).contains(at(before, i)));
                }
                if j < n {
                    assert(at(after, j) == at(before, j));
                    assert(to_set(before).contains(at(before, j)));
                }
            }
            lemma_insert_keeps_roots_wf(to_set(before), added);
        }
        Ok(())
    }
}

/// Putting a place in keeps the roots in order.
pub proof fn lemma_insert_keeps_roots_wf(layers: Set<LayerModel>, layer: LayerModel)
    requires
        roots_wf(layers),
        spec_insert(layers, layer) is Ok,
    ensures
        roots_wf(spec_insert(layers, layer)->Ok_0),
{
    let after = layers.insert(layer);
    assert forall|a: LayerModel, b: LayerModel|
        #[trigger] after.contains(a) && #[trigger] after.contains(b) && a.depth == 0 && b.depth
            == 0 && a.root_hash == b.root_hash implies a == b by {
        if a != b {
            if a == layer {
                assert(layers.contains(b));
            } else if b == layer {
                assert(layers.contains(a));
            } else {
                assert(layers.contains(a) && layers.contains(b));
            }
        }
    }
}

/// Each place is held once: a place that went in is refused as a duplicate
/// when it comes again.
pub proof fn lemma_second_insert_is_duplicate(layers: Set<LayerModel>, layer: LayerModel)
    requires
        spec_insert(layers, layer) is Ok,
    ensures
        spec_insert(spec_insert(layers, layer)->Ok_0, layer) == Err::<
            Set<LayerModel>,
            MerkleError,
        >(MerkleError::Duplicate),
{
}

/// Once a tree has its root in the index, every other place at depth 0 of
/// that tree is refused.
pub proof fn lemma_one_root_per_tree(layers: Set<LayerModel>, root: LayerModel, other: LayerModel)
    requires
        roots_wf(layers),
        layers.contains(root),
        root.depth == 0,
        other.depth == 0,
        other.root_hash == root.root_hash,
    ensures
        spec_insert(layers, other) is Err,
        root.index == 0,
{
}

} // verus!
