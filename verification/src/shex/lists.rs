//! The short lists a shader instruction holds, kept inline by `smallvec`.

use smallvec::SmallVec;
use vstd::prelude::*;

use crate::shex::ir::Operand;

verus! {

/// A short list of words.
#[verifier::external_body]
#[derive(Debug, PartialEq, Eq)]
pub struct SmallU32Vec {
    inner: SmallVec<[u32; 4]>,
}

/// The words in the list, in order.
pub uninterp spec fn word_items(v: SmallU32Vec) -> Seq<u32>;

/// The immediate values of an operand.
pub type Immediates = SmallU32Vec;

impl View for SmallU32Vec {
    type V = Seq<u32>;

    open spec fn view(&self) -> Seq<u32> {
        word_items(*self)
    }
}

impl SmallU32Vec {
    /// `SmallVec::new`: the list is empty.
    #[verifier::external_body]
    pub(crate) fn new() -> (r: SmallU32Vec)
        ensures
            word_items(r) == Seq::<u32>::empty(),
    {
        SmallU32Vec { inner: SmallVec::new() }
    }

    /// `SmallVec::push`: the word comes behind those already there.
    #[verifier::external_body]
    pub(crate) fn push(&mut self, value: u32)
        ensures
            word_items(*final(self)) == word_items(*old(self)).push(value),
    {
        self.inner.push(value)
    }

    /// `SmallVec::as_slice`: the words in order.
    #[verifier::external_body]
    pub(crate) fn as_slice(&self) -> (r: &[u32])
        ensures
            r@ == word_items(*self),
    {
        self.inner.as_slice()
    }

    /// The list of the given words.
    pub fn from_words(words: &[u32]) -> (r: SmallU32Vec)
        ensures
            r@ == words@,
    {
        let mut r = SmallU32Vec::new();
        let mut i: usize = 0;
        while i < words.len()
            invariant
                i <= words.len(),
                r@ == words@.take(i as int),
            decreases words.len() - i,
        {
            r.push(words[i]);
            i += 1;
            assert(r@ =~= words@.take(i as int));
        }
        assert(r@ =~= words@);
        r
    }
}

/// The operands of an instruction.
#[verifier::external_body]
#[derive(Debug, PartialEq, Eq)]
pub struct Operands {
    inner: SmallVec<[Operand; 4]>,
}

/// The operands in the list, in order.
pub uninterp spec fn operand_items(v: Operands) -> Seq<Operand>;

impl View for Operands {
    type V = Seq<Operand>;

    open spec fn view(&self) -> Seq<Operand> {
        operand_items(*self)
    }
}

impl Operands {
    /// `SmallVec::new`: the list is empty.
    #[verifier::external_body]
    pub(crate) fn new() -> (r: Operands)
        ensures
            operand_items(r) == Seq::<Operand>::empty(),
    {
        Operands { inner: SmallVec::new() }
    }

    /// `SmallVec::push`: the operand comes behind those already there.
    #[verifier::external_body]
    pub(crate) fn push(&mut self, value: Operand)
        ensures
            operand_items(*final(self)) == operand_items(*old(self)).push(value),
    {
        self.inner.push(value)
    }

    /// `SmallVec::as_slice`: the operands in order.
    #[verifier::external_body]
    pub(crate) fn as_slice(&self) -> (r: &[Operand])
        ensures
            r@ == operand_items(*self),
    {
        self.inner.as_slice()
    }

    /// The list of the given operands.
    pub fn from_vec(ops: Vec<Operand>) -> (r: Operands)
        ensures
            r@ == ops@,
    {
        let mut r = Operands::new();
        let ghost all = ops@;
        let mut rest = ops;
        let mut back: Vec<Operand> = Vec::new();
        while rest.len() > 0
            invariant
                rest@.len() + back@.len() == all.len(),
                rest@ == all.take(rest@.len() as int),
                forall|k: int| 0 <= k < back@.len() ==> back@[k] == all[all.len() - 1 - k],
            decreases rest@.len(),
        {
            let ghost n = rest@.len();
            let x = rest.pop();
            match x {
                Some(op) => {
                    back.push(op);
                },
                None => {},
            }
            assert(rest@ =~= all.take(n - 1));
        }
        while back.len() > 0
            invariant
                r@.len() + back@.len() == all.len(),
                r@ == all.take(r@.len() as int),
                forall|k: int| 0 <= k < back@.len() ==> back@[k] == all[all.len() - 1 - k],
            decreases back@.len(),
        {
            let ghost n = r@.len() as int;
            match back.pop() {
                Some(op) => {
                    r.push(op);
                },
                None => {},
            }
            assert(r@ =~= all.take(n + 1));
        }
        assert(r@ =~= all);
        r
    }
}

/// The names of the flags a shader declares.
#[verifier::external_body]
#[derive(Debug, PartialEq, Eq)]
pub struct FlagNames {
    inner: SmallVec<[&'static str; 4]>,
}

/// The names in the list, in order.
pub uninterp spec fn flag_items(v: FlagNames) -> Seq<&'static str>;

impl View for FlagNames {
    type V = Seq<Seq<char>>;

    open spec fn view(&self) -> Seq<Seq<char>> {
        Seq::new(flag_items(*self).len(), |i: int| flag_items(*self)[i]@)
    }
}

impl FlagNames {
    /// `SmallVec::new`: the list is empty.
    #[verifier::external_body]
    pub(crate) fn new() -> (r: FlagNames)
        ensures
            flag_items(r) == Seq::<&'static str>::empty(),
    {
        FlagNames { inner: SmallVec::new() }
    }

    /// `SmallVec::push`: the name comes behind those already there.
    #[verifier::external_body]
    pub(crate) fn push(&mut self, value: &'static str)
        ensures
            flag_items(*final(self)) == flag_items(*old(self)).push(value),
    {
        self.inner.push(value)
    }

    /// `SmallVec::as_slice`: the names in order.
    #[verifier::external_body]
    pub(crate) fn as_slice(&self) -> (r: &[&'static str])
        ensures
            r@ == flag_items(*self),
    {
        self.inner.as_slice()
    }

    /// The list of the given names.
    pub fn from_names(names: &[&'static str]) -> (r: FlagNames)
        ensures
            r@ == Seq::new(names@.len(), |i: int| names@[i]@),
    {
        let mut r = FlagNames::new();
        let mut i: usize = 0;
        while i < names.len()
            invariant
                i <= names.len(),
                flag_items(r) == names@.take(i as int),
            decreases names.len() - i,
        {
            r.push(names[i]);
            i += 1;
            assert(flag_items(r) =~= names@.take(i as int));
        }
        assert(r@ =~= Seq::new(names@.len(), |i: int| names@[i]@));
        r
    }
}

} // verus!
