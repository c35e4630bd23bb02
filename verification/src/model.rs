//! The mathematical value that an executable value stands for.

use vstd::prelude::*;

verus! {

/// A type whose values stand for mathematical values. Unlike a view, the
/// model looks through `Option`, `Result` and `Vec` to what they hold.
pub trait Model {
    type M;

    spec fn model(&self) -> Self::M;
}

impl Model for String {
    type M = Seq<char>;

    open spec fn model(&self) -> Seq<char> {
        self@
    }
}

impl<T: Model> Model for &T {
    type M = T::M;

    open spec fn model(&self) -> T::M {
        (**self).model()
    }
}

impl Model for bool {
    type M = bool;

    open spec fn model(&self) -> bool {
        *self
    }
}

impl Model for () {
    type M = ();

    open spec fn model(&self) -> () {
        ()
    }
}

impl<T: Model> Model for Option<T> {
    type M = Option<T::M>;

    open spec fn model(&self) -> Option<T::M> {
        match self {
            Some(x) => Some(x.model()),
            None => None,
        }
    }
}

impl<T: Model, E: Model> Model for std::result::Result<T, E> {
    type M = std::result::Result<T::M, E::M>;

    open spec fn model(&self) -> std::result::Result<T::M, E::M> {
        match self {
            Ok(x) => Ok(x.model()),
            Err(e) => Err(e.model()),
        }
    }
}

impl<A: Model, B: Model> Model for (A, B) {
    type M = (A::M, B::M);

    open spec fn model(&self) -> (A::M, B::M) {
        (self.0.model(), self.1.model())
    }
}

impl<T: Model> Model for Vec<T> {
    type M = Seq<T::M>;

    open spec fn model(&self) -> Seq<T::M> {
        self@.map_values(|x: T| x.model())
    }
}

} // verus!
