//! A wire-declared count followed by that many fixed-width entries.

use vstd::prelude::*;
use crate::buf::{buf_len, bytes_of, consumed_front};
use crate::error::{ParseError, Report};
use crate::value::{ArrayCount, Mp4Value};

verus! {

/// The `n` entries of type `T` that start at `s[at]`, one after another.
pub open spec fn array_entries<T: Mp4Value>(s: Seq<u8>, at: int, n: nat) -> Seq<T> {
    Seq::new(n, |i: int| T::decode_spec(s.skip(at + i * T::encoded_len())))
}

/// Decoding a bounded array from the front of `s`: a count of type `C`, then
/// that many entries of type `T`. Gives the entries and the number of bytes
/// that the count and entries occupy.
pub open spec fn bounded_array_spec<C: ArrayCount, T: Mp4Value>(s: Seq<u8>) -> Result<(Seq<T>, int), ParseError> {
    if s.len() < C::encoded_len() {
        Err(ParseError::TruncatedBox)
    } else {
        let n = C::decode_spec(s).as_nat();
        if s.len() < C::encoded_len() + n * T::encoded_len() {
            Err(ParseError::TruncatedBox)
        } else {
            Ok((
                array_entries::<T>(s, C::encoded_len() as int, n),
                (C::encoded_len() + n * T::encoded_len()) as int,
            ))
        }
    }
}

/// A collection of entries of type `T` whose count, of type `C`, is declared
/// on the wire.
#[derive(Clone, Debug)]
pub struct BoundedArray<C, T> {
    count: C,
    entries: Vec<T>,
}

impl<C, T> View for BoundedArray<C, T> {
    type V = Seq<T>;

    closed spec fn view(&self) -> Seq<T> {
        self.entries@
    }
}

impl<C: ArrayCount, T: Mp4Value> BoundedArray<C, T> {
    /// The stored count is the number of entries.
    pub closed spec fn wf(&self) -> bool {
        self.count.as_nat() == self.entries@.len()
    }

    /// An array holding `entries`.
    pub fn new(entries: Vec<T>) -> (r: Self)
        requires
            entries@.len() <= C::max_count(),
        ensures
            r@ == entries@,
            r.wf(),
    {
        BoundedArray { count: C::from_len(entries.len()), entries }
    }

    /// Reads a count, then that many entries, from the front of `buf`. Fails
    /// as a truncated box when the count or any entry is cut short; the
    /// check is made against the count before any entry is read.
    pub fn parse(buf: &mut bytes::BytesMut) -> (r: Result<Self, Report<ParseError>>)
        ensures
            match bounded_array_spec::<C, T>(bytes_of(*old(buf))) {
                Ok((v, used)) => r matches Ok(a) && a@ == v && a.wf()
                    && bytes_of(*final(buf)) == bytes_of(*old(buf)).skip(used),
                Err(k) => r matches Err(e) && e.terminal() == k,
            },
            consumed_front(bytes_of(*old(buf)), bytes_of(*final(buf))),
    {
        let ghost s = bytes_of(*buf);
        let ghost cl = C::encoded_len() as int;
        let ghost tl = T::encoded_len() as int;
        let count = match C::parse(buf) {
            Ok(c) => c,
            Err(e) => {
                assert(s.skip(0) =~= s);
                return Err(e.attach_printable("entry count"));
            },
        };
        let n = count.to_u64();
        let size = T::encoded_size() as u64;
        let len = buf_len(buf) as u64;
        if len / size < n {
            proof {
                assert(len < n * size) by (nonlinear_arith)
                    requires
                        len / size < n,
                        size > 0,
                ;
            }
            assert(bytes_of(*buf) =~= s.skip(s.len() - bytes_of(*buf).len()));
            return Err(Report::new(ParseError::TruncatedBox).attach_printable("entries"));
        }
        proof {
            assert(len >= n * size) by (nonlinear_arith)
                requires
                    len / size >= n,
                    size > 0,
            ;
        }
        let mut entries: Vec<T> = Vec::new();
        let mut i: u64 = 0;
        while i < n
            invariant
                n == C::decode_spec(s).as_nat(),
                size == tl,
                tl == T::encoded_len(),
                tl >= 1,
                cl == C::encoded_len(),
                s.len() >= cl + n * tl,
                i <= n,
                bytes_of(*buf) == s.skip(cl + i * tl),
                entries@ == array_entries::<T>(s, cl, i as nat),
            decreases n - i,
        {
            let ghost before = bytes_of(*buf);
            proof {
                assert((i + 1) * tl <= n * tl) by (nonlinear_arith)
                    requires
                        i + 1 <= n,
                        tl >= 1,
                ;
                assert((i + 1) * tl == i * tl + tl) by (nonlinear_arith);
                assert(i * tl >= 0) by (nonlinear_arith)
                    requires
                        i >= 0,
                        tl >= 1,
                ;
                assert(before.len() == s.len() - (cl + i * tl));
                assert(before.len() >= tl);
            }
            let v = match T::parse(buf) {
                Ok(v) => v,
                Err(e) => return Err(e),
            };
            proof {
                assert(bytes_of(*buf) =~= before.skip(tl));
                assert(before.skip(tl) =~= s.skip(cl + (i + 1) * tl));
            }
            entries.push(v);
            i = i + 1;
            assert(entries@ =~= array_entries::<T>(s, cl, i as nat));
        }
        assert(bytes_of(*buf) =~= s.skip(s.len() - bytes_of(*buf).len()));
        Ok(BoundedArray { count, entries })
    }

    /// The number of entries.
    pub fn entry_count(&self) -> (r: &C)
        requires
            self.wf(),
        ensures
            r.as_nat() == self@.len(),
    {
        &self.count
    }

    /// The entries, in wire order.
    pub fn entries(&self) -> (r: &Vec<T>)
        ensures
            r@ == self@,
    {
        &self.entries
    }
}

impl<C: ArrayCount, T: Mp4Value> Default for BoundedArray<C, T> {
    /// The empty array.
    fn default() -> (r: Self)
        ensures
            r@.len() == 0,
            r.wf(),
    {
        BoundedArray { count: C::from_len(0), entries: Vec::new() }
    }
}

} // verus!
