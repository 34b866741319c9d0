//! Module globals: a value that PHP sets up when the module (or, in thread-safe
//! builds, a thread) starts, and tears down when it ends.
use vstd::prelude::*;

verus! {

/// A type used as PHP module globals. It starts as its `Default`; `ginit` runs
/// right after that and `gshutdown` right before it is dropped.
pub trait ModuleGlobal: Default + Sized {
    /// Setup beyond what `Default` can express.
    fn ginit(&mut self) {
    }

    /// Cleanup of outside resources.
    fn gshutdown(&mut self) {
    }
}

/// The storage of module globals: empty until [`Self::ginit_callback`] fills
/// it, and empty again after [`Self::gshutdown_callback`].
pub struct ModuleGlobals<T: ModuleGlobal> {
    inner: Option<T>,
}

impl<T: ModuleGlobal> ModuleGlobals<T> {
    /// Whether the globals are set up.
    pub closed spec fn is_initialized(&self) -> bool {
        self.inner is Some
    }

    /// The globals, while they are set up.
    pub closed spec fn value(&self) -> T
        recommends
            self.is_initialized(),
    {
        self.inner.unwrap()
    }

    /// Storage that holds no globals yet.
    pub fn new() -> (r: Self)
        ensures
            !r.is_initialized(),
    {
        ModuleGlobals { inner: None }
    }

    /// Whether the globals are set up.
    pub fn initialized(&self) -> (r: bool)
        ensures
            r == self.is_initialized(),
    {
        self.inner.is_some()
    }

    /// What PHP runs when the module (or a thread) starts: the globals become
    /// `T::default()`, then `ginit` runs on them.
    pub fn ginit_callback(&mut self)
        ensures
            final(self).is_initialized(),
    {
        let mut value = T::default();
        value.ginit();
        self.inner = Some(value);
    }

    /// What PHP runs before it frees the globals: `gshutdown` runs on them,
    /// then they are dropped. Storage that holds none is left as it is.
    pub fn gshutdown_callback(&mut self)
        ensures
            !final(self).is_initialized(),
    {
        match self.inner.take() {
            Some(mut value) => {
                value.gshutdown();
            },
            None => {},
        }
    }

    /// The current globals. They must have been set up.
    pub fn get(&self) -> (r: &T)
        requires
            self.is_initialized(),
        ensures
            *r == self.value(),
    {
        self.inner.as_ref().unwrap()
    }

    /// Mutable access to the current globals. They must have been set up, and
    /// they stay set up.
    pub fn get_mut(&mut self) -> (r: &mut T)
        requires
            old(self).is_initialized(),
        ensures
            *r == old(self).value(),
            final(self).is_initialized(),
            final(self).value() == *final(r),
    {
        self.inner.as_mut().unwrap()
    }
}

impl<T: ModuleGlobal> Default for ModuleGlobals<T> {
    /// Storage that holds no globals yet.
    fn default() -> (r: Self)
        ensures
            !r.is_initialized(),
    {
        Self::new()
    }
}

} // verus!
