use vstd::prelude::*;

verus! {

/// Manually caches the result of one function call.
///
/// Each `get` takes a function to run when nothing is cached; as long as the
/// function computes the same result, its implementation may differ from call
/// to call. `invalidate` forgets the cached value.
#[derive(Debug, Clone, PartialEq, Eq, PartialOrd, Ord)]
pub struct LazyCached<V> {
    v: Option<V>,
}

impl<V> View for LazyCached<V> {
    type V = Option<V>;

    closed spec fn view(&self) -> Option<V> {
        self.v
    }
}

impl<V> LazyCached<V> {
    /// A cache that already holds `v`.
    pub fn new_cached(v: V) -> (r: Self)
        ensures
            r@ == Some(v),
    {
        Self { v: Some(v) }
    }

    /// An empty cache.
    pub fn new_uncached() -> (r: Self)
        ensures
            r@ is None,
    {
        Self { v: None }
    }

    /// The cached value; when there is none, runs `f` once and caches its
    /// result first.
    pub fn get<F: FnOnce() -> V>(&mut self, f: F) -> (r: &V)
        requires
            old(self)@ is None ==> f.requires(()),
        ensures
            match old(self)@ {
                Some(v) => *r == v,
                None => f.ensures((), *r),
            },
            final(self)@ == Some(*r),
    {
        if self.v.is_none() {
            self.v = Some(f());
        }
        self.v.as_ref().unwrap()
    }

    /// Like `get`, but hands out the cached value for modification.
    pub fn get_mut<F: FnOnce() -> V>(&mut self, f: F) -> (r: &mut V)
        requires
            old(self)@ is None ==> f.requires(()),
        ensures
            match old(self)@ {
                Some(v) => *r == v,
                None => f.ensures((), *r),
            },
            final(self)@ == Some(*final(r)),
    {
        if self.v.is_none() {
            self.v = Some(f());
        }
        self.v.as_mut().unwrap()
    }

    /// Forgets the cached value, so that the next `get` runs its function.
    pub fn invalidate(&mut self) -> (r: &mut Self)
        ensures
            (*r)@ is None,
            *final(self) == *final(r),
    {
        self.v = None;
        self
    }
}

} // verus!
