//! Where the ledger's blocks are kept, and the replay of a chain from them.
use vstd::prelude::*;
use crate::chain::ATokenChain;
use crate::errors::ATokenError;
use crate::model::Block;

verus! {

/// A place that keeps blocks in the order they were appended.
pub trait BlockStore {
    fn save_block(&mut self, block: &Block) -> Result<(), ATokenError>;

    fn load_blocks(&self) -> Result<Vec<Block>, ATokenError>;
}

/// Blocks kept in memory.
#[derive(Clone, Debug, Default)]
pub struct InMemoryBlockStore {
    blocks: Vec<Block>,
}

impl InMemoryBlockStore {
    pub fn new() -> (r: Self)
        ensures
            r.len_spec() == 0,
    {
        InMemoryBlockStore { blocks: Vec::new() }
    }

    pub closed spec fn len_spec(&self) -> nat {
        self.blocks@.len()
    }

    /// Number of blocks kept.
    pub fn len(&self) -> (r: usize)
        ensures
            r == self.len_spec(),
    {
        self.blocks.len()
    }
}

impl BlockStore for InMemoryBlockStore {
    fn save_block(&mut self, block: &Block) -> Result<(), ATokenError> {
        self.blocks.push(block.clone());
        Ok(())
    }

    fn load_blocks(&self) -> Result<Vec<Block>, ATokenError> {
        Ok(self.blocks.clone())
    }
}

/// Appends `blocks` to the chain in order, stopping at the first one that
/// the chain refuses.
pub fn append_blocks(chain: &mut ATokenChain, blocks: Vec<Block>) -> (r: Result<(), ATokenError>)
    requires
        old(chain).wf(),
    ensures
        final(chain).wf(),
        r is Ok ==> final(chain).blocks_spec() == old(chain).blocks_spec() + blocks@,
        exists|k: int| 0 <= k <= blocks@.len() && final(chain).blocks_spec() == old(chain).blocks_spec() + blocks@.subrange(0, k),
        final(chain).config_spec() == old(chain).config_spec(),
{
    let ghost start = chain.blocks_spec();
    let ghost all = blocks@;
    let total = blocks.len();
    let mut i: usize = 0;
    let mut rest = blocks;
    assert(rest@ =~= all.subrange(0, all.len() as int));
    while rest.len() > 0
        invariant
            chain.wf(),
            chain.config_spec() == old(chain).config_spec(),
            i + rest@.len() == all.len(),
            all.len() == total,
            start == old(chain).blocks_spec(),
            all == blocks@,
            rest@ == all.subrange(i as int, all.len() as int),
            chain.blocks_spec() == start + all.subrange(0, i as int),
        decreases rest@.len(),
    {
        let block = rest.remove(0);
        assert(block == all[i as int]);
        match chain.append_block(block) {
            Ok(()) => {},
            Err(e) => {
                assert(start == old(chain).blocks_spec());
                assert(all == blocks@);
                assert(0 <= i <= blocks@.len() && chain.blocks_spec() == old(chain).blocks_spec()
                    + blocks@.subrange(0, i as int));
                return Err(e);
            },
        }
        assert(all.subrange(0, i + 1) =~= all.subrange(0, i as int).push(all[i as int]));
        assert(rest@ =~= all.subrange(i + 1, all.len() as int));
        i = i + 1;
    }
    assert(all.subrange(0, all.len() as int) =~= all);
    assert(chain.blocks_spec() == start + all.subrange(0, all.len() as int));
    Ok(())
}

/// Rebuilds a chain from the blocks of a store: on success the chain has
/// gained, in order, the blocks that the store handed out.
pub fn replay_from_store<S: BlockStore>(chain: &mut ATokenChain, store: &S) -> (r: Result<(), ATokenError>)
    requires
        old(chain).wf(),
    ensures
        final(chain).wf(),
        final(chain).config_spec() == old(chain).config_spec(),
        r is Ok ==> exists|loaded: Seq<Block>| final(chain).blocks_spec() == old(chain).blocks_spec() + loaded,
        r is Err ==> exists|loaded: Seq<Block>| final(chain).blocks_spec() == old(chain).blocks_spec() + loaded,
{
    let blocks = match store.load_blocks() {
        Ok(b) => b,
        Err(e) => {
            assert(chain.blocks_spec() =~= old(chain).blocks_spec() + Seq::<Block>::empty());
            return Err(e);
        },
    };
    let ghost all = blocks@;
    let r = append_blocks(chain, blocks);
    proof {
        let k = choose|k: int| 0 <= k <= all.len() && chain.blocks_spec() == old(chain).blocks_spec() + all.subrange(0, k);
        assert(chain.blocks_spec() == old(chain).blocks_spec() + all.subrange(0, k));
    }
    r
}

} // verus!
