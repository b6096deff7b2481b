//! Configuration fragments. A partial value may leave each setting
//! absent; fragments from several sources are merged, later sources
//! winning, and the result is completed with defaults.
use vstd::prelude::*;

verus! {

/// A value that may be incomplete: it can be merged with another
/// fragment, the other fragment's settings winning, and completed into
/// the full value with defaults for whatever is still absent.
pub trait Partial: Sized {
    type Complete;

    fn merge_with(self, other: Self) -> Self;

    fn into_complete(self) -> Self::Complete;
}

/// A complete value that can be turned back into a fragment holding all
/// of its settings.
pub trait Complete {
    type Partial;

    fn into_partial(self) -> Self::Partial;
}

impl<T: Default> Partial for Option<T> {
    type Complete = T;

    /// The other fragment wins when it holds a value.
    fn merge_with(self, other: Self) -> (r: Self)
        ensures
            r == (if other is Some {
                other
            } else {
                self
            }),
    {
        match other {
            Some(v) => Some(v),
            None => self,
        }
    }

    /// The held value, or the type's default when absent.
    fn into_complete(self) -> (r: Self::Complete)
        ensures
            self is Some ==> r == self->Some_0,
            self is None ==> call_ensures(T::default, (), r),
    {
        match self {
            Some(v) => v,
            None => T::default(),
        }
    }
}

impl<T> Partial for Vec<T> {
    type Complete = Vec<T>;

    /// List settings accumulate: the other fragment's entries follow this
    /// fragment's entries.
    fn merge_with(self, other: Self) -> (r: Self)
        ensures
            r@ == self@ + other@,
    {
        let mut s = self;
        let mut o = other;
        s.append(&mut o);
        s
    }

    /// A list is complete as it stands.
    fn into_complete(self) -> (r: Self::Complete)
        ensures
            r == self,
    {
        self
    }
}

impl<T> Complete for Vec<T> {
    type Partial = Vec<T>;

    fn into_partial(self) -> (r: Self::Partial)
        ensures
            r == self,
    {
        self
    }
}

impl Complete for bool {
    type Partial = Option<bool>;

    fn into_partial(self) -> (r: Self::Partial)
        ensures
            r == Some(self),
    {
        Some(self)
    }
}

impl Complete for String {
    type Partial = Option<String>;

    fn into_partial(self) -> (r: Self::Partial)
        ensures
            r == Some(self),
    {
        Some(self)
    }
}

} // verus!
