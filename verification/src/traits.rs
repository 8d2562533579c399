use vstd::prelude::*;

verus! {

/// Whether cloning a value of type `T` always gives back an equal value.
///
/// Nothing forces a `Clone` impl to copy faithfully, so what the sequences
/// promise about the values they hand out is stated under this condition.
pub open spec fn clone_is_exact<T: Clone>() -> bool {
    forall|a: T, b: T| #[trigger] cloned(a, b) ==> a == b
}

/// A single-cursor lazy sequence that can be rewound to its first element.
///
/// A sequence is modelled by the values it walks through (`domain`) and by
/// the number of them it has handed out since it was created or last rewound
/// (`pos`).
pub trait Reset: Sized {
    type Item;

    /// The structural invariant of the sequence.
    spec fn wf(&self) -> bool;

    /// Every value the sequence walks through, in order.
    spec fn domain(&self) -> Seq<Self::Item>;

    /// How many values have been handed out since creation or the last rewind.
    spec fn pos(&self) -> nat;

    /// Whether every copy this kind of sequence makes equals its source.
    spec fn faithful() -> bool;

    /// The cursor never runs past the end of the domain.
    proof fn lemma_pos_in_range(&self)
        requires
            self.wf(),
        ensures
            self.pos() <= self.domain().len(),
    ;

    /// Hands out the value at the cursor and moves on, or reports that none
    /// is left. Once exhausted, the sequence stays exhausted.
    fn next(&mut self) -> (r: Option<Self::Item>)
        requires
            old(self).wf(),
        ensures
            final(self).wf(),
            final(self).domain() == old(self).domain(),
            r.is_some() <==> old(self).pos() < old(self).domain().len(),
            final(self).pos() == if old(self).pos() < old(self).domain().len() {
                old(self).pos() + 1
            } else {
                old(self).pos()
            },
            r.is_some() && Self::faithful() ==> r == Some(
                old(self).domain()[old(self).pos() as int],
            ),
    ;

    /// Rewinds to the state the sequence had right after creation.
    fn reset(&mut self)
        requires
            old(self).wf(),
        ensures
            final(self).wf(),
            final(self).domain() == old(self).domain(),
            final(self).pos() == 0,
    ;

    /// Copies one value of the sequence's item type. A composite copies
    /// component by component, so that what holds of the leaves' clones
    /// holds of the whole value.
    fn clone_item(item: &Self::Item) -> (r: Self::Item)
        ensures
            Self::faithful() ==> r == *item,
    ;
}

/// A finite, ordered domain of values that can be walked and sampled.
pub trait AsEnumParam: Clone {
    type Iter: Reset;

    /// The structural invariant of the parameter; a domain is never empty.
    spec fn wf(&self) -> bool;

    /// The values of the parameter, in enumeration order.
    spec fn domain(&self) -> Seq<<Self::Iter as Reset>::Item>;

    /// A well-formed parameter has at least one value.
    proof fn lemma_domain_nonempty(&self)
        requires
            self.wf(),
        ensures
            self.domain().len() >= 1,
    ;

    /// A fresh sequence over the domain, standing before its first value.
    fn iter(&self) -> (it: Self::Iter)
        requires
            self.wf(),
        ensures
            it.wf(),
            it.pos() == 0,
            it.domain().len() == self.domain().len(),
            <Self::Iter as Reset>::faithful() ==> it.domain() == self.domain(),
    ;

    /// The number of values in the domain.
    fn len(&self) -> (n: usize)
        requires
            self.wf(),
            self.domain().len() <= usize::MAX,
        ensures
            n == self.domain().len(),
    ;

    /// One value drawn at random from the domain.
    fn rand(&self) -> (v: <Self::Iter as Reset>::Item)
        requires
            self.wf(),
        ensures
            <Self::Iter as Reset>::faithful() ==> self.domain().contains(v),
    ;
}

/// Pulls values until the sequence reports that none is left, and returns
/// them in the order they came.
pub fn exhaust<I: Reset>(it: &mut I) -> (out: Vec<I::Item>)
    requires
        old(it).wf(),
    ensures
        final(it).wf(),
        final(it).domain() == old(it).domain(),
        final(it).pos() == old(it).domain().len(),
        out@.len() == old(it).domain().len() - old(it).pos(),
        I::faithful() ==> out@ == old(it).domain().skip(old(it).pos() as int),
{
    let mut out: Vec<I::Item> = Vec::new();
    let ghost start = it.pos();
    let ghost dom = it.domain();
    proof {
        it.lemma_pos_in_range();
    }
    let mut done: bool = false;
    while !done
        invariant
            it.wf(),
            it.domain() == dom,
            start <= it.pos() <= dom.len(),
            done ==> it.pos() == dom.len(),
            out@.len() == it.pos() - start,
            I::faithful() ==> out@ == dom.subrange(start as int, it.pos() as int),
        decreases dom.len() - it.pos() + if done { 0int } else { 1int },
    {
        match it.next() {
            Some(v) => {
                out.push(v);
            },
            None => {
                done = true;
            },
        }
    }
    out
}

/// Rewinds the sequence, wherever it stands, and walks it to its end: the
/// pass after a rewind gives the whole domain again, as the first pass did.
pub fn replay<I: Reset>(it: &mut I) -> (out: Vec<I::Item>)
    requires
        old(it).wf(),
    ensures
        final(it).wf(),
        final(it).domain() == old(it).domain(),
        final(it).pos() == old(it).domain().len(),
        out@.len() == old(it).domain().len(),
        I::faithful() ==> out@ == old(it).domain(),
{
    it.reset();
    exhaust(it)
}

/// Walks a fresh sequence over `param` to its end and returns every value
/// of the domain, in enumeration order.
pub fn enumerate<P: AsEnumParam>(param: &P) -> (out: Vec<<P::Iter as Reset>::Item>)
    requires
        param.wf(),
    ensures
        out@.len() == param.domain().len(),
        <P::Iter as Reset>::faithful() ==> out@ == param.domain(),
{
    let mut it = param.iter();
    exhaust(&mut it)
}

} // verus!
