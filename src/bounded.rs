use vstd::prelude::*;
use crate::balances::Q4W;

verus! {

/// A queue of withdrawal entries with room for at most one entry.
#[derive(Clone, Copy, Debug, PartialEq, Eq, Structural)]
pub enum VecOneQ4W {
    Empty,
    One(Q4W),
}

impl View for VecOneQ4W {
    type V = Seq<Q4W>;

    open spec fn view(&self) -> Seq<Q4W> {
        match self {
            VecOneQ4W::Empty => seq![],
            VecOneQ4W::One(v) => seq![*v],
        }
    }
}

impl VecOneQ4W {
    /// An empty queue.
    pub fn new() -> (r: Self)
        ensures
            r@ == Seq::<Q4W>::empty(),
    {
        VecOneQ4W::Empty
    }

    /// Number of entries held.
    pub fn len(&self) -> (r: u32)
        ensures
            r as int == self@.len(),
    {
        match self {
            VecOneQ4W::Empty => 0,
            VecOneQ4W::One(_) => 1,
        }
    }

    /// Appends an entry to an empty queue.
    pub fn push_back(&mut self, value: Q4W)
        requires
            old(self)@.len() == 0,
        ensures
            final(self)@ == old(self)@.push(value),
    {
        *self = VecOneQ4W::One(value);
    }

    /// Puts an entry in front; with room for one entry, the same as `push_back`.
    pub fn push_front(&mut self, value: Q4W)
        requires
            old(self)@.len() == 0,
        ensures
            final(self)@ == seq![value] + old(self)@,
    {
        self.push_back(value);
        assert(seq![value] + old(self)@ =~= old(self)@.push(value));
    }

    /// Removes and returns the last entry of a non-empty queue.
    pub fn pop_back_unchecked(&mut self) -> (r: Q4W)
        requires
            old(self)@.len() > 0,
        ensures
            r == old(self)@.last(),
            final(self)@ == old(self)@.drop_last(),
    {
        let r = match self {
            VecOneQ4W::Empty => Q4W { amount: 0, exp: 0 },
            VecOneQ4W::One(v) => *v,
        };
        *self = VecOneQ4W::Empty;
        assert(old(self)@.drop_last() =~= Seq::<Q4W>::empty());
        r
    }

    /// Removes and returns the first entry; with room for one entry, the same as `pop_back_unchecked`.
    pub fn pop_front_unchecked(&mut self) -> (r: Q4W)
        requires
            old(self)@.len() > 0,
        ensures
            r == old(self)@[0],
            final(self)@ == old(self)@.drop_first(),
    {
        let r = self.pop_back_unchecked();
        assert(old(self)@.drop_first() =~= old(self)@.drop_last());
        r
    }

    /// The entry at `index`, if there is one.
    pub fn get(&self, index: u32) -> (r: Option<Q4W>)
        ensures
            r == (if (index as int) < self@.len() {
                Some(self@[index as int])
            } else {
                None::<Q4W>
            }),
    {
        match self {
            VecOneQ4W::One(v) => if index == 0 {
                Some(*v)
            } else {
                None
            },
            VecOneQ4W::Empty => None,
        }
    }

    /// The newest entry, if any.
    pub fn last(&self) -> (r: Option<Q4W>)
        ensures
            r == (if self@.len() > 0 {
                Some(self@.last())
            } else {
                None::<Q4W>
            }),
    {
        match self {
            VecOneQ4W::Empty => None,
            VecOneQ4W::One(v) => Some(*v),
        }
    }

    /// Whether the queue holds no entry.
    pub fn is_empty(&self) -> (r: bool)
        ensures
            r == (self@.len() == 0),
    {
        match self {
            VecOneQ4W::Empty => true,
            VecOneQ4W::One(_) => false,
        }
    }

    /// The entry held, if any.
    pub fn inner_value(&self) -> (r: Option<Q4W>)
        ensures
            r == (if self@.len() > 0 {
                Some(self@[0])
            } else {
                None::<Q4W>
            }),
    {
        match self {
            VecOneQ4W::Empty => None,
            VecOneQ4W::One(v) => Some(*v),
        }
    }
}

/// An empty one-entry queue.
pub fn vec_one_empty() -> (r: VecOneQ4W)
    ensures
        r@ == Seq::<Q4W>::empty(),
{
    VecOneQ4W::Empty
}

/// The queue representation of the bounded model: room for at most one entry.
#[derive(Clone, Copy, Debug, PartialEq, Eq, Structural)]
pub enum VecQ4W {
    Empty,
    One(Q4W),
}

impl View for VecQ4W {
    type V = Seq<Q4W>;

    open spec fn view(&self) -> Seq<Q4W> {
        match self {
            VecQ4W::Empty => seq![],
            VecQ4W::One(v) => seq![*v],
        }
    }
}

impl VecQ4W {
    /// An empty queue.
    pub fn new() -> (r: Self)
        ensures
            r@ == Seq::<Q4W>::empty(),
    {
        VecQ4W::Empty
    }

    /// Number of entries held.
    pub fn len(&self) -> (r: u32)
        ensures
            r as int == self@.len(),
    {
        match self {
            VecQ4W::Empty => 0,
            VecQ4W::One(_) => 1,
        }
    }

    /// Appends an entry to an empty queue.
    pub fn push_back(&mut self, value: Q4W)
        requires
            old(self)@.len() == 0,
        ensures
            final(self)@ == old(self)@.push(value),
    {
        *self = VecQ4W::One(value);
    }

    /// Puts an entry in front; with room for one entry, the same as `push_back`.
    pub fn push_front(&mut self, value: Q4W)
        requires
            old(self)@.len() == 0,
        ensures
            final(self)@ == seq![value] + old(self)@,
    {
        self.push_back(value);
        assert(seq![value] + old(self)@ =~= old(self)@.push(value));
    }

    /// Removes and returns the last entry of a non-empty queue.
    pub fn pop_back_unchecked(&mut self) -> (r: Q4W)
        requires
            old(self)@.len() > 0,
        ensures
            r == old(self)@.last(),
            final(self)@ == old(self)@.drop_last(),
    {
        let r = match self {
            VecQ4W::Empty => Q4W { amount: 0, exp: 0 },
            VecQ4W::One(v) => *v,
        };
        *self = VecQ4W::Empty;
        assert(old(self)@.drop_last() =~= Seq::<Q4W>::empty());
        r
    }

    /// Removes and returns the first entry; with room for one entry, the same as `pop_back_unchecked`.
    pub fn pop_front_unchecked(&mut self) -> (r: Q4W)
        requires
            old(self)@.len() > 0,
        ensures
            r == old(self)@[0],
            final(self)@ == old(self)@.drop_first(),
    {
        let r = self.pop_back_unchecked();
        assert(old(self)@.drop_first() =~= old(self)@.drop_last());
        r
    }

    /// The entry at `index`, if there is one.
    pub fn get(&self, index: u32) -> (r: Option<Q4W>)
        ensures
            r == (if (index as int) < self@.len() {
                Some(self@[index as int])
            } else {
                None::<Q4W>
            }),
    {
        match self {
            VecQ4W::One(v) => if index == 0 {
                Some(*v)
            } else {
                None
            },
            VecQ4W::Empty => None,
        }
    }

    /// The newest entry, if any.
    pub fn last(&self) -> (r: Option<Q4W>)
        ensures
            r == (if self@.len() > 0 {
                Some(self@.last())
            } else {
                None::<Q4W>
            }),
    {
        match self {
            VecQ4W::Empty => None,
            VecQ4W::One(v) => Some(*v),
        }
    }

    /// Whether the queue holds no entry.
    pub fn is_empty(&self) -> (r: bool)
        ensures
            r == (self@.len() == 0),
    {
        match self {
            VecQ4W::Empty => true,
            VecQ4W::One(_) => false,
        }
    }

    /// The entry held, if any.
    pub fn inner_value(&self) -> (r: Option<Q4W>)
        ensures
            r == (if self@.len() > 0 {
                Some(self@[0])
            } else {
                None::<Q4W>
            }),
    {
        match self {
            VecQ4W::Empty => None,
            VecQ4W::One(v) => Some(*v),
        }
    }
}

/// An empty bounded queue.
pub fn vec_q4w_empty() -> (r: VecQ4W)
    ensures
        r@ == Seq::<Q4W>::empty(),
{
    VecQ4W::Empty
}

/// A queue of withdrawal entries with room for at most two entries.
#[derive(Clone, Copy, Debug, PartialEq, Eq, Structural)]
pub enum VecTwoQ4W {
    Empty,
    One(Q4W),
    Two(Q4W, Q4W),
}

impl View for VecTwoQ4W {
    type V = Seq<Q4W>;

    open spec fn view(&self) -> Seq<Q4W> {
        match self {
            VecTwoQ4W::Empty => seq![],
            VecTwoQ4W::One(v) => seq![*v],
            VecTwoQ4W::Two(v1, v2) => seq![*v1, *v2],
        }
    }
}

impl VecTwoQ4W {
    /// An empty queue.
    pub fn new() -> (r: Self)
        ensures
            r@ == Seq::<Q4W>::empty(),
    {
        VecTwoQ4W::Empty
    }

    /// Number of entries held.
    pub fn len(&self) -> (r: u32)
        ensures
            r as int == self@.len(),
    {
        match self {
            VecTwoQ4W::Empty => 0,
            VecTwoQ4W::One(_) => 1,
            VecTwoQ4W::Two(_, _) => 2,
        }
    }

    /// Appends an entry to a queue that is not full.
    pub fn push_back(&mut self, value: Q4W)
        requires
            old(self)@.len() < 2,
        ensures
            final(self)@ == old(self)@.push(value),
    {
        match *self {
            VecTwoQ4W::One(v1) => {
                *self = VecTwoQ4W::Two(v1, value);
            },
            _ => {
                *self = VecTwoQ4W::One(value);
            },
        }
        assert(final(self)@ =~= old(self)@.push(value));
    }

    /// Puts an entry in front of a queue that is not full.
    pub fn push_front(&mut self, value: Q4W)
        requires
            old(self)@.len() < 2,
        ensures
            final(self)@ == seq![value] + old(self)@,
    {
        match *self {
            VecTwoQ4W::One(v1) => {
                *self = VecTwoQ4W::Two(value, v1);
            },
            _ => {
                *self = VecTwoQ4W::One(value);
            },
        }
        assert(final(self)@ =~= seq![value] + old(self)@);
    }

    /// Removes and returns the last entry of a non-empty queue.
    pub fn pop_back_unchecked(&mut self) -> (r: Q4W)
        requires
            old(self)@.len() > 0,
        ensures
            r == old(self)@.last(),
            final(self)@ == old(self)@.drop_last(),
    {
        match *self {
            VecTwoQ4W::Two(v1, v2) => {
                *self = VecTwoQ4W::One(v1);
                assert(final(self)@ =~= old(self)@.drop_last());
                v2
            },
            VecTwoQ4W::One(v1) => {
                *self = VecTwoQ4W::Empty;
                assert(final(self)@ =~= old(self)@.drop_last());
                v1
            },
            VecTwoQ4W::Empty => Q4W { amount: 0, exp: 0 },
        }
    }

    /// Removes and returns the first entry of a non-empty queue.
    pub fn pop_front_unchecked(&mut self) -> (r: Q4W)
        requires
            old(self)@.len() > 0,
        ensures
            r == old(self)@[0],
            final(self)@ == old(self)@.drop_first(),
    {
        match *self {
            VecTwoQ4W::Two(v1, v2) => {
                *self = VecTwoQ4W::One(v2);
                assert(final(self)@ =~= old(self)@.drop_first());
                v1
            },
            VecTwoQ4W::One(v1) => {
                *self = VecTwoQ4W::Empty;
                assert(final(self)@ =~= old(self)@.drop_first());
                v1
            },
            VecTwoQ4W::Empty => Q4W { amount: 0, exp: 0 },
        }
    }

    /// The entry at `index`, if there is one.
    pub fn get(&self, index: u32) -> (r: Option<Q4W>)
        ensures
            r == (if (index as int) < self@.len() {
                Some(self@[index as int])
            } else {
                None::<Q4W>
            }),
    {
        match *self {
            VecTwoQ4W::One(v1) => if index == 0 {
                Some(v1)
            } else {
                None
            },
            VecTwoQ4W::Two(v1, v2) => if index == 0 {
                Some(v1)
            } else if index == 1 {
                Some(v2)
            } else {
                None
            },
            VecTwoQ4W::Empty => None,
        }
    }

    /// The newest entry, if any.
    pub fn last(&self) -> (r: Option<Q4W>)
        ensures
            r == (if self@.len() > 0 {
                Some(self@.last())
            } else {
                None::<Q4W>
            }),
    {
        match *self {
            VecTwoQ4W::Empty => None,
            VecTwoQ4W::One(v1) => Some(v1),
            VecTwoQ4W::Two(_, v2) => Some(v2),
        }
    }

    /// The oldest entry, if any.
    pub fn first(&self) -> (r: Option<Q4W>)
        ensures
            r == (if self@.len() > 0 {
                Some(self@[0])
            } else {
                None::<Q4W>
            }),
    {
        match *self {
            VecTwoQ4W::Empty => None,
            VecTwoQ4W::One(v1) => Some(v1),
            VecTwoQ4W::Two(v1, _) => Some(v1),
        }
    }

    /// Whether the queue holds no entry.
    pub fn is_empty(&self) -> (r: bool)
        ensures
            r == (self@.len() == 0),
    {
        match self {
            VecTwoQ4W::Empty => true,
            _ => false,
        }
    }

    /// Whether the queue holds two entries.
    pub fn is_full(&self) -> (r: bool)
        ensures
            r == (self@.len() == 2),
    {
        match self {
            VecTwoQ4W::Two(_, _) => true,
            _ => false,
        }
    }

    /// The entry at `index` (0 or 1), if there is one.
    pub fn inner_value(&self, index: u32) -> (r: Option<Q4W>)
        ensures
            r == (if (index as int) < self@.len() {
                Some(self@[index as int])
            } else {
                None::<Q4W>
            }),
    {
        self.get(index)
    }
}

/// An empty two-entry queue.
pub fn vec_two_empty() -> (r: VecTwoQ4W)
    ensures
        r@ == Seq::<Q4W>::empty(),
{
    VecTwoQ4W::Empty
}

} // verus!
