use vstd::prelude::*;

verus! {

/// The registry of pools that the protocol's pool factory deployed.
pub struct PoolFactory {
    pub pools: Vec<u64>,
}

impl PoolFactory {
    /// A registry with no pool.
    pub fn new() -> (r: PoolFactory)
        ensures
            r.pools@ == Seq::<u64>::empty(),
    {
        PoolFactory { pools: Vec::new() }
    }

    /// Records `pool` as deployed by the factory.
    pub fn set_pool(&mut self, pool: u64)
        ensures
            final(self).pools@ == old(self).pools@.push(pool),
    {
        self.pools.push(pool);
    }

    /// Whether the factory deployed `pool`.
    pub fn is_pool(&self, pool: u64) -> (r: bool)
        ensures
            r == self.pools@.contains(pool),
    {
        let mut i: usize = 0;
        while i < self.pools.len()
            invariant
                0 <= i <= self.pools@.len(),
                forall|j: int| 0 <= j < i ==> #[trigger] self.pools@[j] != pool,
            decreases self.pools@.len() - i,
        {
            if self.pools[i] == pool {
                assert(self.pools@[i as int] == pool);
                return true;
            }
            i = i + 1;
        }
        false
    }
}

} // verus!
