use vstd::prelude::*;

verus! {

/// The token of `critical_section` that shows that the current thread runs inside a
/// critical section. It is carried through the library and never inspected.
#[verifier::external_type_specification]
#[verifier::external_body]
pub struct ExCriticalSection<'cs>(critical_section::CriticalSection<'cs>);

/// Runs `f` inside a critical section, through `critical_section::with`.
///
/// Claimed of the outside function: it calls `f` exactly once, with a fresh token, and
/// hands back what `f` returned.
#[verifier::external_body]
pub(crate) fn with_critical_section<R, F>(f: F) -> (r: R)
    where
        F: for<'cs> FnOnce(critical_section::CriticalSection<'cs>) -> R,
    requires
        forall|cs: critical_section::CriticalSection| f.requires((cs,)),
    ensures
        exists|cs: critical_section::CriticalSection| f.ensures((cs,), r),
{
    critical_section::with(f)
}

} // verus!
