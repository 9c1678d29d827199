use vstd::prelude::*;
use critical_section::CriticalSection;
use crate::critical::with_critical_section;

verus! {

/// Holds a value that is only ever reached from inside a critical section.
pub struct EnsureOnce<T> {
    inner: Option<T>,
}

impl<T> EnsureOnce<T> {
    /// Well-formed: a value is held. Only `with_mut_cs` takes it out, and it puts one back.
    pub closed spec fn wf(&self) -> bool {
        self.inner is Some
    }

    /// The value held.
    pub closed spec fn value(&self) -> T {
        self.inner->0
    }

    pub fn new(inner: T) -> (r: Self)
        ensures
            r.wf(),
            r.value() == inner,
    {
        Self { inner: Some(inner) }
    }

    pub fn with_cs<F, R>(&self, cs: &CriticalSection, f: F) -> (r: R)
        where
            F: FnOnce(&T) -> R,
        requires
            self.wf(),
            f.requires((&self.value(),)),
        ensures
            f.ensures((&self.value(),), r),
    {
        f(self.inner.as_ref().unwrap())
    }

    pub fn with_mut_cs<F, R>(&mut self, cs: &CriticalSection, f: F) -> (r: R)
        where
            F: FnOnce(T) -> (T, R),
        requires
            old(self).wf(),
            f.requires((old(self).value(),)),
        ensures
            final(self).wf(),
            f.ensures((old(self).value(),), (final(self).value(), r)),
    {
        let value = self.inner.take().unwrap();
        let (value, r) = f(value);
        self.inner = Some(value);
        r
    }

    pub fn with<F, R>(&self, f: F) -> (r: R)
        where
            F: FnOnce(&T) -> R,
        requires
            self.wf(),
            f.requires((&self.value(),)),
        ensures
            f.ensures((&self.value(),), r),
    {
        let body = |cs: CriticalSection| -> (out: R)
            requires
                self.wf(),
                f.requires((&self.value(),)),
            ensures
                f.ensures((&self.value(),), out),
        {
            self.with_cs(&cs, f)
        };
        with_critical_section(body)
    }

    pub fn with_mut<F, R>(&mut self, f: F) -> (r: R)
        where
            F: FnOnce(T) -> (T, R),
        requires
            old(self).wf(),
            f.requires((old(self).value(),)),
        ensures
            final(self).wf(),
            f.ensures((old(self).value(),), (final(self).value(), r)),
    {
        let value = self.inner.take().unwrap();
        let ghost before = value;
        let body = |cs: CriticalSection| -> (out: (T, R))
            requires
                f.requires((before,)),
            ensures
                f.ensures((before,), out),
        {
            f(value)
        };
        let (value, r) = with_critical_section(body);
        self.inner = Some(value);
        r
    }
}

} // verus!
