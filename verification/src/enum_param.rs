use crate::entropy::{pick_index, random_word};
use crate::traits::{clone_is_exact, AsEnumParam, Reset};
use vstd::prelude::*;

verus! {

/// A leaf parameter: an ordered, non-empty list of values.
#[derive(Debug)]
pub struct EnumParam<T> {
    items: Vec<T>,
}

impl<T> View for EnumParam<T> {
    type V = Seq<T>;

    closed spec fn view(&self) -> Seq<T> {
        self.items@
    }
}

impl<T> EnumParam<T> {
    /// Wraps a non-empty list. A domain is never empty: callers that cannot
    /// rule the empty list out use `try_new`.
    pub fn new(items: Vec<T>) -> (p: Self)
        requires
            items@.len() >= 1,
        ensures
            p@ == items@,
    {
        Self { items: items }
    }

    /// A list held in memory is no longer than the machine can count.
    pub proof fn lemma_len_fits(&self)
        ensures
            self@.len() <= usize::MAX,
    {
        assert(self.items@.len() == self.items.len());
    }

    /// Wraps a list, turning down the empty one.
    pub fn try_new(items: Vec<T>) -> (p: Option<Self>)
        ensures
            p.is_some() <==> items@.len() >= 1,
            p.is_some() ==> p.unwrap()@ == items@,
    {
        if items.len() == 0 {
            None
        } else {
            Some(Self::new(items))
        }
    }
}

impl<T: Clone> EnumParam<T> {
    /// The value that an arbitrary word selects: the one at the word's
    /// remainder by the length of the list.
    pub fn pick(&self, word: u64) -> (v: T)
        requires
            self@.len() >= 1,
        ensures
            cloned(self@[word as int % self@.len() as int], v),
    {
        let idx: usize = pick_index(word, self.items.len());
        self.items[idx].clone()
    }
}

impl<T: Clone> Clone for EnumParam<T> {
    fn clone(&self) -> (p: Self)
        ensures
            p@.len() == self@.len(),
            forall|i: int| 0 <= i < self@.len() ==> cloned(#[trigger] self@[i], p@[i]),
    {
        Self { items: self.items.clone() }
    }
}

impl<T: Clone> AsEnumParam for EnumParam<T> {
    type Iter = EnumParamIter<T>;

    open spec fn wf(&self) -> bool {
        self@.len() >= 1
    }

    open spec fn domain(&self) -> Seq<T> {
        self@
    }

    proof fn lemma_domain_nonempty(&self) {
    }

    fn iter(&self) -> (it: EnumParamIter<T>)
        ensures
            forall|i: int| 0 <= i < self@.len() ==> cloned(#[trigger] self@[i], it.domain()[i]),
    {
        let items = self.items.clone();
        proof {
            if clone_is_exact::<T>() {
                assert(items@ =~= self.items@);
            }
        }
        EnumParamIter { items: items, i: 0, len: self.items.len() }
    }

    fn len(&self) -> (n: usize) {
        self.items.len()
    }

    fn rand(&self) -> (v: T)
        ensures
            exists|k: int| 0 <= k < self@.len() && cloned(#[trigger] self@[k], v),
    {
        let word: u64 = random_word();
        let v = self.pick(word);
        proof {
            let k = word as int % self@.len() as int;
            assert(cloned(self@[k], v));
        }
        v
    }
}

/// The sequence over a leaf parameter: a cursor into its own copy of the list.
#[derive(Clone, Debug)]
pub struct EnumParamIter<T> {
    items: Vec<T>,
    i: usize,
    len: usize,
}

impl<T: Clone> Reset for EnumParamIter<T> {
    type Item = T;

    closed spec fn wf(&self) -> bool {
        self.len == self.items.len() && self.i <= self.len
    }

    closed spec fn domain(&self) -> Seq<T> {
        self.items@
    }

    closed spec fn pos(&self) -> nat {
        self.i as nat
    }

    open spec fn faithful() -> bool {
        clone_is_exact::<T>()
    }

    proof fn lemma_pos_in_range(&self) {
    }

    fn next(&mut self) -> (r: Option<T>)
        ensures
            r.is_some() ==> cloned(old(self).domain()[old(self).pos() as int], r.unwrap()),
    {
        let cur_i: usize = self.i;
        if cur_i >= self.len {
            None
        } else {
            self.i = cur_i + 1;
            let v = self.items[cur_i].clone();
            assert(cloned(self.items@[cur_i as int], v));
            Some(v)
        }
    }

    fn reset(&mut self) {
        self.i = 0;
    }

    fn clone_item(item: &T) -> (r: T)
        ensures
            cloned(*item, r),
    {
        item.clone()
    }
}

} // verus!
