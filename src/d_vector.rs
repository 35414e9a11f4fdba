use vstd::array::array_fill_for_copy_types;
use vstd::prelude::*;

verus! {

/// A vector of exactly `D` components, stored in index order.
#[derive(Debug, Clone, PartialEq)]
pub struct DVector<T, const D: usize> {
    components: [T; D],
}

/// Why a sequence could not be read as a `DVector`.
#[derive(Debug, Clone, Copy, PartialEq, Eq, Structural)]
pub enum DecodeError {
    /// The sequence ended before `expected` components were read.
    InvalidLength { expected: usize },
}

impl<T, const D: usize> View for DVector<T, D> {
    type V = Seq<T>;

    closed spec fn view(&self) -> Seq<T> {
        self.components@
    }
}

impl<T: Copy, const D: usize> DVector<T, D> {
    /// The components, in index order.
    pub fn components(&self) -> (r: &[T])
        ensures
            r@ == self@,
            r@.len() == D,
    {
        self.components.as_slice()
    }

    /// The wire form: the components as a bare sequence, in index order.
    pub fn encode(&self) -> (r: Vec<T>)
        ensures
            r@ == self@,
            r@.len() == D,
    {
        let mut out: Vec<T> = Vec::new();
        let mut i: usize = 0;
        while i < D
            invariant
                i <= D,
                self@.len() == D,
                out@ == self@.take(i as int),
            decreases D - i,
        {
            out.push(self.components[i]);
            i = i + 1;
            assert(out@ =~= self@.take(i as int));
        }
        assert(out@ =~= self@);
        out
    }
}

impl<T: Copy, const D: usize> From<[T; D]> for DVector<T, D> {
    fn from(components: [T; D]) -> (r: DVector<T, D>)
        ensures
            r@ == components@,
    {
        DVector { components }
    }
}

impl<T: Copy, const D: usize> vstd::std_specs::convert::FromSpecImpl<[T; D]> for DVector<T, D> {
    open spec fn obeys_from_spec() -> bool {
        true
    }

    closed spec fn from_spec(components: [T; D]) -> DVector<T, D> {
        DVector { components }
    }
}

impl<'a, T: Copy, const D: usize> From<&'a [T; D]> for DVector<T, D> {
    fn from(data: &'a [T; D]) -> (r: DVector<T, D>)
        ensures
            r@ == data@,
    {
        DVector { components: *data }
    }
}

impl<'a, T: Copy, const D: usize> vstd::std_specs::convert::FromSpecImpl<&'a [T; D]> for DVector<T, D> {
    open spec fn obeys_from_spec() -> bool {
        true
    }

    closed spec fn from_spec(data: &'a [T; D]) -> DVector<T, D> {
        DVector { components: *data }
    }
}

impl<T: Copy + Default, const D: usize> Default for DVector<T, D> {
    /// Every component is the default value of `T`.
    fn default() -> (r: DVector<T, D>)
        ensures
            exists|z: T|
                call_ensures(T::default, (), z) && forall|i: int|
                    0 <= i < D ==> #[trigger] r@[i] == z,
    {
        let z = T::default();
        DVector { components: array_fill_for_copy_types(z) }
    }
}

/// Reads a `DVector` one element at a time: each call of `next` hands over
/// the next element of the input, or `None` once the input has run out.
pub struct DVectorDecoder<T, const D: usize> {
    components: [T; D],
    filled: usize,
}

impl<T, const D: usize> DVectorDecoder<T, D> {
    /// No more than `D` elements have been received.
    pub closed spec fn wf(&self) -> bool {
        self.filled <= D
    }

    /// The elements received so far, in order.
    pub closed spec fn received(&self) -> Seq<T> {
        self.components@.take(self.filled as int)
    }
}

impl<T: Copy + Default, const D: usize> DVectorDecoder<T, D> {
    /// A decoder that has received nothing yet.
    pub fn new() -> (r: DVectorDecoder<T, D>)
        ensures
            r.wf(),
            r.received() == Seq::<T>::empty(),
    {
        let z = T::default();
        let r = DVectorDecoder { components: array_fill_for_copy_types(z), filled: 0 };
        assert(r.received() =~= Seq::<T>::empty());
        r
    }

    /// Whether all `D` components have been received.
    pub fn is_complete(&self) -> (r: bool)
        requires
            self.wf(),
        ensures
            r == (self.received().len() == D),
    {
        self.filled == D
    }

    /// Takes the next element of the input: a missing one ends the read with
    /// an error that names the expected length.
    pub fn next(&mut self, element: Option<T>) -> (r: Result<(), DecodeError>)
        requires
            old(self).wf(),
            old(self).received().len() < D,
        ensures
            final(self).wf(),
            match element {
                Some(x) => r is Ok && final(self).received() == old(self).received().push(x),
                None => r == Err::<(), DecodeError>(DecodeError::InvalidLength { expected: D })
                    && final(self).received() == old(self).received(),
            },
    {
        match element {
            Some(x) => {
                let ghost before = self.received();
                let i = self.filled;
                self.components[i] = x;
                self.filled = i + 1;
                assert(self.received() =~= before.push(x));
                Ok(())
            },
            None => Err(DecodeError::InvalidLength { expected: D }),
        }
    }

    /// The vector of the `D` received components.
    pub fn finish(self) -> (r: DVector<T, D>)
        requires
            self.wf(),
            self.received().len() == D,
        ensures
            r@ == self.received(),
    {
        let r = DVector { components: self.components };
        assert(r@ =~= self.received());
        r
    }
}

impl<T: Copy + Default, const D: usize> DVector<T, D> {
    /// Reads the wire form: takes exactly `D` elements, one at a time, and
    /// fails at the first one that is missing. Elements after the first `D`
    /// are never read.
    pub fn decode(seq: &[T]) -> (r: Result<DVector<T, D>, DecodeError>)
        ensures
            match r {
                Ok(v) => decoded(seq@, D as nat) == Some(v@),
                Err(e) => decoded(seq@, D as nat) is None && e == DecodeError::InvalidLength {
                    expected: D,
                },
            },
    {
        let mut decoder: DVectorDecoder<T, D> = DVectorDecoder::new();
        let mut i: usize = 0;
        while !decoder.is_complete()
            invariant
                decoder.wf(),
                i == decoder.received().len(),
                i <= seq@.len(),
                decoder.received() == seq@.take(i as int),
            decreases D - i,
        {
            let element = if i < seq.len() {
                Some(seq[i])
            } else {
                None
            };
            match decoder.next(element) {
                Ok(()) => {
                    assert(seq@.take(i + 1) =~= seq@.take(i as int).push(seq@[i as int]));
                    i = i + 1;
                },
                Err(e) => {
                    return Err(e);
                },
            }
        }
        Ok(decoder.finish())
    }
}

/// What reading a sequence yields: its first `d` elements, or nothing when it
/// holds fewer.
pub open spec fn decoded<T>(s: Seq<T>, d: nat) -> Option<Seq<T>> {
    if s.len() >= d {
        Some(s.take(d as int))
    } else {
        None
    }
}

/// Every vector holds exactly `D` components, and reading its wire form gives
/// back that very vector: the only vector that `decode` can return for it is
/// `v` itself.
pub proof fn lemma_round_trip<T, const D: usize>(v: DVector<T, D>)
    ensures
        v@.len() == D,
        decoded(v@, D as nat) == Some(v@),
        forall|w: DVector<T, D>| decoded(v@, D as nat) == Some(#[trigger] w@) ==> w == v,
{
    assert(v@.take(D as int) =~= v@);
    assert forall|w: DVector<T, D>| decoded(v@, D as nat) == Some(#[trigger] w@) implies w == v by {
        assert(w.components =~= v.components);
    }
}

} // verus!
