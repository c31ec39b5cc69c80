//! A response body that is either a plain list of rows or structured data with a
//! processor that turns it into rows for tabular output.
use vstd::prelude::*;

verus! {

/// Structured data and the processor that makes table rows of it.
pub struct FlexibleFormatComplex<T, F> {
    pub data: T,
    pub processor: F,
}

/// What a [`FlexibleFormat`] holds.
pub enum FlexibleFormatInner<T, V, F> {
    Complex(FlexibleFormatComplex<T, F>),
    Vec(Vec<V>),
}

/// A response body, with whether tabular output carries a header row.
pub struct FlexibleFormat<T, V, F> {
    inner: FlexibleFormatInner<T, V, F>,
    include_header: bool,
}

impl<T, V, F> FlexibleFormat<T, V, F> {
    pub closed spec fn content(&self) -> FlexibleFormatInner<T, V, F> {
        self.inner
    }

    pub closed spec fn header(&self) -> bool {
        self.include_header
    }

    fn from_inner(inner: FlexibleFormatInner<T, V, F>) -> (r: Self)
        ensures
            r.content() == inner,
            r.header(),
    {
        FlexibleFormat { inner, include_header: true }
    }

    /// A body of plain rows, with a header row.
    pub fn from_vec(v: Vec<V>) -> (r: Self)
        ensures
            r.content() == FlexibleFormatInner::<T, V, F>::Vec(v),
            r.header(),
    {
        Self::from_inner(FlexibleFormatInner::Vec(v))
    }

    /// A body of structured data, with a header row in tabular output.
    pub fn from_complex(data: T, processor: F) -> (r: Self)
        ensures
            r.content() == FlexibleFormatInner::<T, V, F>::Complex(
                FlexibleFormatComplex { data, processor },
            ),
            r.header(),
    {
        Self::from_inner(FlexibleFormatInner::Complex(FlexibleFormatComplex { data, processor }))
    }

    /// Sets whether tabular output carries a header row.
    pub fn include_header(&mut self, new_value: bool)
        ensures
            final(self).header() == new_value,
            final(self).content() == old(self).content(),
    {
        self.include_header = new_value;
    }

    /// The content and the header flag.
    pub fn into_parts(self) -> (r: (FlexibleFormatInner<T, V, F>, bool))
        ensures
            r.0 == self.content(),
            r.1 == self.header(),
    {
        (self.inner, self.include_header)
    }
}

} // verus!
