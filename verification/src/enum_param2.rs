use crate::product::{lemma_product_contains, lemma_rank2, product, rank2};
use crate::traits::{AsEnumParam, Reset};
use vstd::prelude::*;

verus! {

/// The composite of two parameters: the first is the outer loop, the second
/// the inner one.
#[derive(Copy, Debug)]
pub struct EnumParam2<E1, E2> {
    ep1: E1,
    ep2: E2,
}

impl<E1, E2> EnumParam2<E1, E2> {
    /// The more significant component.
    pub closed spec fn first(&self) -> E1 {
        self.ep1
    }

    /// The less significant component.
    pub closed spec fn second(&self) -> E2 {
        self.ep2
    }

    /// Composes two parameters; `ep1` becomes the outer loop.
    pub fn new(ep1: E1, ep2: E2) -> (p: Self)
        ensures
            p.first() == ep1,
            p.second() == ep2,
    {
        Self { ep1: ep1, ep2: ep2 }
    }
}

impl<E1: Clone, E2: Clone> Clone for EnumParam2<E1, E2> {
    fn clone(&self) -> (p: Self)
        ensures
            cloned(self.first(), p.first()),
            cloned(self.second(), p.second()),
    {
        Self { ep1: self.ep1.clone(), ep2: self.ep2.clone() }
    }
}

impl<E1: AsEnumParam, E2: AsEnumParam> AsEnumParam for EnumParam2<E1, E2> {
    type Iter = EnumParam2Iter<E1::Iter, E2::Iter>;

    open spec fn wf(&self) -> bool {
        self.first().wf() && self.second().wf()
    }

    open spec fn domain(&self) -> Seq<(<E1::Iter as Reset>::Item, <E2::Iter as Reset>::Item)> {
        product(self.first().domain(), self.second().domain())
    }

    proof fn lemma_domain_nonempty(&self) {
        self.ep1.lemma_domain_nonempty();
        self.ep2.lemma_domain_nonempty();
        lemma_rank2(0, 0, self.ep1.domain().len() as int, self.ep2.domain().len() as int);
    }

    fn iter(&self) -> (it: Self::Iter) {
        proof {
            self.ep1.lemma_domain_nonempty();
            self.ep2.lemma_domain_nonempty();
        }
        let mut i1 = self.ep1.iter();
        let mut i2 = self.ep2.iter();
        let v1 = i1.next().unwrap();
        let v2 = i2.next().unwrap();
        EnumParam2Iter { i1: i1, i2: i2, v1: v1, v2: v2, is_finished: false }
    }

    fn len(&self) -> (n: usize) {
        proof {
            self.ep1.lemma_domain_nonempty();
            self.ep2.lemma_domain_nonempty();
            let a = self.ep1.domain().len() as int;
            let b = self.ep2.domain().len() as int;
            assert(a <= a * b && b <= a * b) by (nonlinear_arith)
                requires
                    a >= 1,
                    b >= 1,
            ;
        }
        self.ep1.len() * self.ep2.len()
    }

    fn rand(&self) -> (v: (<E1::Iter as Reset>::Item, <E2::Iter as Reset>::Item))
        ensures
            <E1::Iter as Reset>::faithful() ==> self.first().domain().contains(v.0),
            <E2::Iter as Reset>::faithful() ==> self.second().domain().contains(v.1),
    {
        let v = (self.ep1.rand(), self.ep2.rand());
        proof {
            lemma_product_contains(self.ep1.domain(), self.ep2.domain(), v.0, v.1);
        }
        v
    }
}

/// The sequence over a composite of two: an odometer of two digits, with the
/// value under each digit kept at hand.
#[derive(Clone, Copy, Debug)]
pub struct EnumParam2Iter<I1: Reset, I2: Reset> {
    i1: I1,
    i2: I2,
    v1: I1::Item,
    v2: I2::Item,
    is_finished: bool,
}

impl<I1: Reset, I2: Reset> Reset for EnumParam2Iter<I1, I2> {
    type Item = (I1::Item, I2::Item);

    closed spec fn wf(&self) -> bool {
        &&& self.i1.wf()
        &&& self.i2.wf()
        &&& 1 <= self.i1.pos() <= self.i1.domain().len()
        &&& 1 <= self.i2.pos() <= self.i2.domain().len()
        &&& I1::faithful() ==> self.v1 == self.i1.domain()[self.i1.pos() - 1]
        &&& I2::faithful() ==> self.v2 == self.i2.domain()[self.i2.pos() - 1]
        &&& self.is_finished ==> self.i1.pos() == self.i1.domain().len() && self.i2.pos() == 1
    }

    closed spec fn domain(&self) -> Seq<(I1::Item, I2::Item)> {
        product(self.i1.domain(), self.i2.domain())
    }

    closed spec fn pos(&self) -> nat {
        if self.is_finished {
            self.i1.domain().len() * self.i2.domain().len()
        } else {
            rank2(self.i1.pos() - 1, self.i2.pos() - 1, self.i2.domain().len() as int) as nat
        }
    }

    open spec fn faithful() -> bool {
        I1::faithful() && I2::faithful()
    }

    proof fn lemma_pos_in_range(&self) {
        if !self.is_finished {
            lemma_rank2(
                self.i1.pos() - 1,
                self.i2.pos() - 1,
                self.i1.domain().len() as int,
                self.i2.domain().len() as int,
            );
        }
    }

    fn next(&mut self) -> (r: Option<(I1::Item, I2::Item)>) {
        if self.is_finished {
            return None;
        }
        proof {
            lemma_rank2(
                self.i1.pos() - 1,
                self.i2.pos() - 1,
                self.i1.domain().len() as int,
                self.i2.domain().len() as int,
            );
        }
        let out = (I1::clone_item(&self.v1), I2::clone_item(&self.v2));

        match self.i2.next() {
            Some(new_v2) => {
                self.v2 = new_v2;
            },
            None => {
                self.i2.reset();
                self.v2 = self.i2.next().unwrap();

                match self.i1.next() {
                    Some(new_v1) => {
                        self.v1 = new_v1;
                    },
                    None => {
                        self.is_finished = true;
                    },
                }
            },
        }
        proof {
            let m = self.i1.domain().len() as int;
            let n = self.i2.domain().len() as int;
            let p1 = old(self).i1.pos() as int;
            assert((p1 - 1) * n + n == p1 * n) by (nonlinear_arith);
            assert(m * n >= 0) by (nonlinear_arith)
                requires
                    m >= 0,
                    n >= 0,
            ;
        }
        Some(out)
    }

    fn reset(&mut self) {
        self.i1.reset();
        self.i2.reset();
        let v1 = self.i1.next().unwrap();
        let v2 = self.i2.next().unwrap();
        self.v1 = v1;
        self.v2 = v2;
        self.is_finished = false;
    }

    fn clone_item(item: &(I1::Item, I2::Item)) -> (r: (I1::Item, I2::Item)) {
        (I1::clone_item(&item.0), I2::clone_item(&item.1))
    }
}

} // verus!
