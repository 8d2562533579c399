use crate::product::{lemma_product3_contains, lemma_rank3, product3, rank3};
use crate::traits::{AsEnumParam, Reset};
use vstd::prelude::*;

verus! {

/// The composite of three parameters: the first is the outermost loop, the
/// third the innermost one.
#[derive(Copy, Debug)]
pub struct EnumParam3<E1, E2, E3> {
    ep1: E1,
    ep2: E2,
    ep3: E3,
}

impl<E1, E2, E3> EnumParam3<E1, E2, E3> {
    /// The most significant component.
    pub closed spec fn first(&self) -> E1 {
        self.ep1
    }

    /// The middle component.
    pub closed spec fn second(&self) -> E2 {
        self.ep2
    }

    /// The least significant component.
    pub closed spec fn third(&self) -> E3 {
        self.ep3
    }

    /// Composes three parameters; `ep1` becomes the outermost loop.
    pub fn new(ep1: E1, ep2: E2, ep3: E3) -> (p: Self)
        ensures
            p.first() == ep1,
            p.second() == ep2,
            p.third() == ep3,
    {
        Self { ep1: ep1, ep2: ep2, ep3: ep3 }
    }
}

impl<E1: Clone, E2: Clone, E3: Clone> Clone for EnumParam3<E1, E2, E3> {
    fn clone(&self) -> (p: Self)
        ensures
            cloned(self.first(), p.first()),
            cloned(self.second(), p.second()),
            cloned(self.third(), p.third()),
    {
        Self { ep1: self.ep1.clone(), ep2: self.ep2.clone(), ep3: self.ep3.clone() }
    }
}

impl<E1: AsEnumParam, E2: AsEnumParam, E3: AsEnumParam> AsEnumParam for EnumParam3<E1, E2, E3> {
    type Iter = EnumParam3Iter<E1::Iter, E2::Iter, E3::Iter>;

    open spec fn wf(&self) -> bool {
        self.first().wf() && self.second().wf() && self.third().wf()
    }

    open spec fn domain(&self) -> Seq<
        (<E1::Iter as Reset>::Item, <E2::Iter as Reset>::Item, <E3::Iter as Reset>::Item),
    > {
        product3(self.first().domain(), self.second().domain(), self.third().domain())
    }

    proof fn lemma_domain_nonempty(&self) {
        self.ep1.lemma_domain_nonempty();
        self.ep2.lemma_domain_nonempty();
        self.ep3.lemma_domain_nonempty();
        lemma_rank3(
            0,
            0,
            0,
            self.ep1.domain().len() as int,
            self.ep2.domain().len() as int,
            self.ep3.domain().len() as int,
        );
    }

    fn iter(&self) -> (it: Self::Iter) {
        proof {
            self.ep1.lemma_domain_nonempty();
            self.ep2.lemma_domain_nonempty();
            self.ep3.lemma_domain_nonempty();
        }
        let mut i1 = self.ep1.iter();
        let mut i2 = self.ep2.iter();
        let mut i3 = self.ep3.iter();
        let v1 = i1.next().unwrap();
        let v2 = i2.next().unwrap();
        let v3 = i3.next().unwrap();
        proof {
            let m = i2.domain().len() as int;
            let n = i3.domain().len() as int;
            assert((0 * m + 0) * n + 0 == 0) by (nonlinear_arith);
        }
        EnumParam3Iter { i1: i1, i2: i2, i3: i3, v1: v1, v2: v2, v3: v3, is_finished: false }
    }

    fn len(&self) -> (n: usize) {
        proof {
            self.ep1.lemma_domain_nonempty();
            self.ep2.lemma_domain_nonempty();
            self.ep3.lemma_domain_nonempty();
            let a = self.ep1.domain().len() as int;
            let b = self.ep2.domain().len() as int;
            let c = self.ep3.domain().len() as int;
            assert(a <= a * b && b <= a * b && a * b <= a * b * c && c <= a * b * c)
                by (nonlinear_arith)
                requires
                    a >= 1,
                    b >= 1,
                    c >= 1,
            ;
        }
        self.ep1.len() * self.ep2.len() * self.ep3.len()
    }

    fn rand(&self) -> (v: (
        <E1::Iter as Reset>::Item,
        <E2::Iter as Reset>::Item,
        <E3::Iter as Reset>::Item,
    ))
        ensures
            <E1::Iter as Reset>::faithful() ==> self.first().domain().contains(v.0),
            <E2::Iter as Reset>::faithful() ==> self.second().domain().contains(v.1),
            <E3::Iter as Reset>::faithful() ==> self.third().domain().contains(v.2),
    {
        let v = (self.ep1.rand(), self.ep2.rand(), self.ep3.rand());
        proof {
            lemma_product3_contains(
                self.ep1.domain(),
                self.ep2.domain(),
                self.ep3.domain(),
                v.0,
                v.1,
                v.2,
            );
        }
        v
    }
}

/// The sequence over a composite of three: an odometer of three digits, with
/// the value under each digit kept at hand.
#[derive(Clone, Copy, Debug)]
pub struct EnumParam3Iter<I1: Reset, I2: Reset, I3: Reset> {
    i1: I1,
    i2: I2,
    i3: I3,
    v1: I1::Item,
    v2: I2::Item,
    v3: I3::Item,
    is_finished: bool,
}

impl<I1: Reset, I2: Reset, I3: Reset> Reset for EnumParam3Iter<I1, I2, I3> {
    type Item = (I1::Item, I2::Item, I3::Item);

    closed spec fn wf(&self) -> bool {
        &&& self.i1.wf()
        &&& self.i2.wf()
        &&& self.i3.wf()
        &&& 1 <= self.i1.pos() <= self.i1.domain().len()
        &&& 1 <= self.i2.pos() <= self.i2.domain().len()
        &&& 1 <= self.i3.pos() <= self.i3.domain().len()
        &&& I1::faithful() ==> self.v1 == self.i1.domain()[self.i1.pos() - 1]
        &&& I2::faithful() ==> self.v2 == self.i2.domain()[self.i2.pos() - 1]
        &&& I3::faithful() ==> self.v3 == self.i3.domain()[self.i3.pos() - 1]
        &&& self.is_finished ==> self.i1.pos() == self.i1.domain().len() && self.i2.pos() == 1
            && self.i3.pos() == 1
    }

    closed spec fn domain(&self) -> Seq<(I1::Item, I2::Item, I3::Item)> {
        product3(self.i1.domain(), self.i2.domain(), self.i3.domain())
    }

    closed spec fn pos(&self) -> nat {
        if self.is_finished {
            self.i1.domain().len() * self.i2.domain().len() * self.i3.domain().len()
        } else {
            rank3(
                self.i1.pos() - 1,
                self.i2.pos() - 1,
                self.i3.pos() - 1,
                self.i2.domain().len() as int,
                self.i3.domain().len() as int,
            ) as nat
        }
    }

    open spec fn faithful() -> bool {
        I1::faithful() && I2::faithful() && I3::faithful()
    }

    proof fn lemma_pos_in_range(&self) {
        if !self.is_finished {
            lemma_rank3(
                self.i1.pos() - 1,
                self.i2.pos() - 1,
                self.i3.pos() - 1,
                self.i1.domain().len() as int,
                self.i2.domain().len() as int,
                self.i3.domain().len() as int,
            );
        }
    }

    fn next(&mut self) -> (r: Option<(I1::Item, I2::Item, I3::Item)>) {
        if self.is_finished {
            return None;
        }
        proof {
            lemma_rank3(
                self.i1.pos() - 1,
                self.i2.pos() - 1,
                self.i3.pos() - 1,
                self.i1.domain().len() as int,
                self.i2.domain().len() as int,
                self.i3.domain().len() as int,
            );
        }
        let out = (I1::clone_item(&self.v1), I2::clone_item(&self.v2), I3::clone_item(&self.v3));

        match self.i3.next() {
            Some(new_v3) => {
                self.v3 = new_v3;
            },
            None => {
                self.i3.reset();
                self.v3 = self.i3.next().unwrap();

                match self.i2.next() {
                    Some(new_v2) => {
                        self.v2 = new_v2;
                    },
                    None => {
                        self.i2.reset();
                        self.v2 = self.i2.next().unwrap();

                        match self.i1.next() {
                            Some(new_v1) => {
                                self.v1 = new_v1;
                            },
                            None => {
                                self.is_finished = true;
                            },
                        }
                    },
                }
            },
        }
        proof {
            let l = self.i1.domain().len() as int;
            let m = self.i2.domain().len() as int;
            let n = self.i3.domain().len() as int;
            let p1 = old(self).i1.pos() as int;
            let p2 = old(self).i2.pos() as int;
            assert(((p1 - 1) * m + (p2 - 1)) * n + n == ((p1 - 1) * m + p2) * n)
                by (nonlinear_arith);
            assert((p1 - 1) * m + m == p1 * m) by (nonlinear_arith);
            assert(l * m * n >= 0) by (nonlinear_arith)
                requires
                    l >= 0,
                    m >= 0,
                    n >= 0,
            ;
        }
        Some(out)
    }

    fn reset(&mut self) {
        self.i1.reset();
        self.i2.reset();
        self.i3.reset();
        self.v1 = self.i1.next().unwrap();
        self.v2 = self.i2.next().unwrap();
        self.v3 = self.i3.next().unwrap();
        self.is_finished = false;
        proof {
            let m = self.i2.domain().len() as int;
            let n = self.i3.domain().len() as int;
            assert((0 * m + 0) * n + 0 == 0) by (nonlinear_arith);
        }
    }

    fn clone_item(item: &(I1::Item, I2::Item, I3::Item)) -> (r: (I1::Item, I2::Item, I3::Item)) {
        (I1::clone_item(&item.0), I2::clone_item(&item.1), I3::clone_item(&item.2))
    }
}

} // verus!
