use vstd::prelude::*;
use vstd::std_specs::cmp::PartialEqSpec;

verus! {

/// A range of source text: `length` characters starting at `offset`.
///
/// The grammar admits ASCII text only, so for every span that the parser
/// produces the character offsets are also byte offsets.
#[derive(Debug, Default, Clone, Copy, PartialEq, Eq, Hash)]
pub struct Span {
    pub offset: usize,
    pub length: usize,
}

impl Span {
    pub open spec fn spec_end(&self) -> int {
        self.offset + self.length
    }

    /// The offset just past the last character of the span.
    pub fn end(&self) -> (r: usize)
        requires
            self.spec_end() <= usize::MAX,
        ensures
            r == self.spec_end(),
    {
        self.offset + self.length
    }
}

/// A value together with the source range it was read from.
///
/// Two spanned values compare equal when their values do: the span records
/// provenance only.
#[derive(Debug, Clone)]
pub struct Spanned<T> {
    pub span: Span,
    pub value: T,
}

impl<T> Spanned<T> {
    pub fn new(span: Span, value: T) -> (r: Self)
        ensures
            r.span == span,
            r.value == value,
    {
        Spanned { span, value }
    }

    /// Wraps a value built by hand, with an empty span at offset zero.
    pub fn new_unspanned(value: T) -> (r: Self)
        ensures
            r.span == (Span { offset: 0, length: 0 }),
            r.value == value,
    {
        Spanned { span: Span { offset: 0, length: 0 }, value }
    }

    /// Applies `f` to the value and keeps the span.
    pub fn map<U, F: FnOnce(T) -> U>(self, f: F) -> (r: Spanned<U>)
        requires
            f.requires((self.value,)),
        ensures
            r.span == self.span,
            f.ensures((self.value,), r.value),
    {
        let span = self.span;
        let value = f(self.value);
        Spanned { span, value }
    }

    /// Borrows the value and keeps the span.
    pub fn as_ref(&self) -> (r: Spanned<&T>)
        ensures
            r.span == self.span,
            *r.value == self.value,
    {
        Spanned { span: self.span, value: &self.value }
    }
}

impl<T> Spanned<Option<T>> {
    /// Moves the option outwards: `None` when the value is `None`.
    pub fn transpose(self) -> (r: Option<Spanned<T>>)
        ensures
            self.value is None ==> r is None,
            self.value is Some ==> (r matches Some(s) && s.span == self.span && s.value
                == self.value->Some_0),
    {
        match self.value {
            Some(value) => Some(Spanned { span: self.span, value }),
            None => None,
        }
    }
}

impl<T: PartialEq> PartialEq for Spanned<T> {
    fn eq(&self, other: &Self) -> (r: bool) {
        self.value == other.value
    }
}

impl<T: PartialEq> vstd::std_specs::cmp::PartialEqSpecImpl for Spanned<T> {
    open spec fn obeys_eq_spec() -> bool {
        T::obeys_eq_spec()
    }

    open spec fn eq_spec(&self, other: &Self) -> bool {
        self.value.eq_spec(&other.value)
    }
}

} // verus!
