//! Small generic containers shared by the analysis stages.

use std::collections::VecDeque;
use vstd::prelude::*;

verus! {

/// A vector of `len` default values.
pub fn vec_default<T: Default>(len: usize) -> (v: Vec<T>)
    ensures
        v@.len() == len,
        forall|i: int| 0 <= i < len ==> call_ensures(T::default, (), #[trigger] v@[i]),
{
    let mut v: Vec<T> = Vec::new();
    let mut i: usize = 0;
    while i < len
        invariant
            i <= len,
            v@.len() == i,
            forall|j: int| 0 <= j < i ==> call_ensures(T::default, (), #[trigger] v@[j]),
        decreases len - i,
    {
        v.push(T::default());
        i += 1;
    }
    v
}

/// A vector of `len` clones of `elem`.
pub fn vec_clone<T: Clone>(elem: &T, len: usize) -> (v: Vec<T>)
    ensures
        v@.len() == len,
        forall|i: int| 0 <= i < len ==> cloned(*elem, #[trigger] v@[i]),
{
    let mut v: Vec<T> = Vec::new();
    let mut i: usize = 0;
    while i < len
        invariant
            i <= len,
            v@.len() == i,
            forall|j: int| 0 <= j < i ==> cloned(*elem, #[trigger] v@[j]),
        decreases len - i,
    {
        v.push(elem.clone());
        i += 1;
    }
    v
}

/// A fixed-length queue: every insertion evicts the oldest element.
pub struct RingBuffer<T: Default> {
    deq: VecDeque<T>,
}

impl<T: Default> View for RingBuffer<T> {
    type V = Seq<T>;

    closed spec fn view(&self) -> Seq<T> {
        self.deq@
    }
}

impl<T: Default> RingBuffer<T> {
    /// A ring of `len` default values.
    pub fn from_default(len: usize) -> (ring: Self)
        requires
            len > 0,
        ensures
            ring@.len() == len,
            forall|i: int| 0 <= i < len ==> call_ensures(T::default, (), #[trigger] ring@[i]),
    {
        let mut deq: VecDeque<T> = VecDeque::new();
        let mut i: usize = 0;
        while i < len
            invariant
                i <= len,
                deq@.len() == i,
                forall|j: int| 0 <= j < i ==> call_ensures(T::default, (), #[trigger] deq@[j]),
            decreases len - i,
        {
            deq.push_back(T::default());
            i += 1;
        }
        RingBuffer { deq }
    }

    /// Appends `elem` at the back and hands out the element it displaces
    /// at the front.
    pub fn replace(&mut self, elem: T) -> (out: T)
        requires
            old(self)@.len() > 0,
        ensures
            out == old(self)@[0],
            final(self)@ == old(self)@.subrange(1, old(self)@.len() as int).push(elem),
            final(self)@.len() == old(self)@.len(),
    {
        let out = self.deq.pop_front().unwrap();
        self.deq.push_back(elem);
        out
    }

    /// Number of elements held.
    pub fn len(&self) -> (n: usize)
        ensures
            n == self@.len(),
    {
        self.deq.len()
    }

    /// The element `i` places from the front (the oldest is at 0).
    pub fn get(&self, i: usize) -> (elem: &T)
        requires
            i < self@.len(),
        ensures
            *elem == self@[i as int],
    {
        &self.deq[i]
    }
}

/// A series of values for a plot: either the latest values themselves, of
/// which no more than a limit are kept, or a look at the values of
/// another series.
pub enum DataVec<'a, T> {
    Owned { vec: VecDeque<T>, limit: usize },
    Derived { vec: &'a VecDeque<T> },
}

impl<'a, T> View for DataVec<'a, T> {
    type V = Seq<T>;

    /// The values, oldest first.
    open spec fn view(&self) -> Seq<T> {
        match self {
            DataVec::Owned { vec, limit } => vec@,
            DataVec::Derived { vec } => vec@,
        }
    }
}

/// The series `values` after `val` has been added under a limit of
/// `limit`: a full series gives up its oldest value first.
pub open spec fn spec_data_pushed<T>(values: Seq<T>, limit: nat, val: T) -> Seq<T> {
    if values.len() == limit && values.len() > 0 {
        values.subrange(1, values.len() as int).push(val)
    } else {
        values.push(val)
    }
}

impl<'a, T> DataVec<'a, T> {
    /// Whether the series holds its own values.
    pub open spec fn is_owned(&self) -> bool {
        self is Owned
    }

    /// Number of values that the series keeps; a look at another series
    /// keeps none of its own.
    pub open spec fn spec_limit(&self) -> nat {
        match self {
            DataVec::Owned { vec, limit } => *limit as nat,
            DataVec::Derived { vec } => 0,
        }
    }

    /// An empty series that will keep the latest `size` values.
    pub fn new(size: usize) -> (data: Self)
        ensures
            data.is_owned(),
            data@ == Seq::<T>::empty(),
            data.spec_limit() == size,
    {
        DataVec::Owned { vec: VecDeque::with_capacity(size), limit: size }
    }

    /// Adds a value at the end; a series that is full gives up its oldest
    /// value. Only a series that holds its own values takes one.
    pub fn push(&mut self, val: T)
        requires
            old(self).is_owned(),
        ensures
            final(self).is_owned(),
            final(self).spec_limit() == old(self).spec_limit(),
            final(self)@ == spec_data_pushed(old(self)@, old(self).spec_limit(), val),
            0 < old(self).spec_limit() && old(self)@.len() <= old(self).spec_limit()
                ==> final(self)@.len() <= old(self).spec_limit(),
    {
        match self {
            DataVec::Owned { vec, limit } => {
                if vec.len() == *limit {
                    let _oldest = vec.pop_front();
                }
                vec.push_back(val);
            },
            DataVec::Derived { .. } => {},
        }
    }

    /// A look at the values of this series, which must hold its own.
    pub fn derive(&'a self) -> (view: DataVec<'a, T>)
        requires
            self.is_owned(),
        ensures
            !view.is_owned(),
            view@ == self@,
    {
        match self {
            DataVec::Owned { vec, limit } => DataVec::Derived { vec },
            DataVec::Derived { vec } => DataVec::Derived { vec: *vec },
        }
    }

    /// Number of values in the series.
    pub fn len(&self) -> (n: usize)
        ensures
            n == self@.len(),
    {
        match self {
            DataVec::Owned { vec, limit } => vec.len(),
            DataVec::Derived { vec } => vec.len(),
        }
    }

    /// The value `i` places from the oldest.
    pub fn get(&self, i: usize) -> (val: &T)
        requires
            i < self@.len(),
        ensures
            *val == self@[i as int],
    {
        match self {
            DataVec::Owned { vec, limit } => &vec[i],
            DataVec::Derived { vec } => &vec[i],
        }
    }
}

} // verus!
