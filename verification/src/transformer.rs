//! A transformer that applies its function lazily: a source that was set is
//! transformed when the result is first asked for, and the result is kept
//! for later requests.

use vstd::prelude::*;

verus! {

/// Something that takes sources of type `S` and yields transformed values of
/// type `V`.
pub trait Transformer<S, V> {
    /// Sets the source that the next request transforms.
    fn set_source(&mut self, source: S);

    /// The transformed value of the latest source, if there is any.
    fn get_transformed(&mut self) -> Option<V>;
}

/// What a [`LazyTransformer`] holds besides its function: the source that
/// waits to be transformed and the value that was transformed last.
pub ghost struct LazyView<S, V> {
    pub source: Option<S>,
    pub value: Option<V>,
}

/// A [`Transformer`] that calls its function only when a source is waiting
/// and a value is asked for.
#[verifier::reject_recursive_types(S)]
#[verifier::reject_recursive_types(V)]
pub struct LazyTransformer<S, V, F: Fn(S) -> V> {
    source: Option<S>,
    value: Option<V>,
    transform_fn: F,
}

impl<S, V, F: Fn(S) -> V> View for LazyTransformer<S, V, F> {
    type V = LazyView<S, V>;

    closed spec fn view(&self) -> LazyView<S, V> {
        LazyView { source: self.source, value: self.value }
    }
}

impl<S, V, F: Fn(S) -> V> LazyTransformer<S, V, F> {
    /// The function that transforms a source.
    pub closed spec fn transform_fn(&self) -> F {
        self.transform_fn
    }

    #[verifier::type_invariant]
    spec fn takes_every_source(&self) -> bool {
        forall|source: S| call_requires(self.transform_fn, (source,))
    }
}

impl<S: Clone, V: Clone, F: Fn(S) -> V> LazyTransformer<S, V, F> {
    /// A transformer around `transform_fn` with no source and no value yet.
    /// The function must take every source.
    pub fn new(transform_fn: F) -> (transformer: Self)
        requires
            forall|source: S| call_requires(transform_fn, (source,)),
        ensures
            transformer.transform_fn() == transform_fn,
            transformer@.source is None,
            transformer@.value is None,
    {
        LazyTransformer { source: None, value: None, transform_fn }
    }
}

impl<S: Clone, V: Clone, F: Fn(S) -> V> Transformer<S, V> for LazyTransformer<S, V, F> {
    /// Puts `source` in waiting, in place of one that waited before. The
    /// value transformed last is kept.
    fn set_source(&mut self, source: S)
        ensures
            final(self).transform_fn() == old(self).transform_fn(),
            final(self)@.source == Some(source),
            final(self)@.value == old(self)@.value,
    {
        proof {
            use_type_invariant(&*self);
        }
        self.source = Some(source);
    }

    /// With a source waiting, transforms a clone of it, keeps a clone of the
    /// result and returns the result; the source is used up. With no source
    /// waiting, returns a clone of the value that was kept, if any.
    fn get_transformed(&mut self) -> (result: Option<V>)
        ensures
            final(self).transform_fn() == old(self).transform_fn(),
            final(self)@.source is None,
            match old(self)@.source {
                Some(source) => exists|input: S|
                    {
                        &&& #[trigger] cloned(source, input)
                        &&& result matches Some(output)
                        &&& call_ensures(old(self).transform_fn(), (input,), output)
                        &&& final(self)@.value matches Some(kept)
                        &&& cloned(output, kept)
                    },
                None => {
                    &&& final(self)@.value == old(self)@.value
                    &&& match old(self)@.value {
                        Some(kept) => result matches Some(output) && cloned(kept, output),
                        None => result is None,
                    }
                },
            },
    {
        proof {
            use_type_invariant(&*self);
        }
        if let Some(source) = &self.source {
            let input = source.clone();
            let ghost taken = input;
            let value = (self.transform_fn)(input);
            self.value = Some(value.clone());
            self.source = None;
            assert(cloned(old(self)@.source->0, taken));
            return Some(value);
        }
        return self.value.clone();
    }
}

} // verus!
