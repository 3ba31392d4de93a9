//! Resources that live outside of a run, each under a handle.
use vstd::prelude::*;
use vstd::string::*;

use crate::tables::HandleMap;
use crate::text;
use crate::value::{host_error, ErrorView, VmError, VmResult};

verus! {

/// The message on a handle that names no resource of a kind; `family` is the library that the
/// resources belong to.
pub open spec fn unknown_handle(family: Seq<char>, kind: Seq<char>, handle: i64) -> ErrorView {
    ErrorView::Host(
        "unknown "@ + family + " "@ + kind + " handle "@ + text::decimal(handle as int),
    )
}

/// The error on a handle that names no resource of a kind.
pub fn unknown_handle_error(family: &str, kind: &str, handle: i64) -> (r: VmError)
    ensures
        r@ == unknown_handle(family@, kind@, handle),
{
    let mut message: String = text::join3("unknown ", family, " ");
    message.append(kind);
    message.append(" handle ");
    message.append(text::decimal_text(handle as i128).as_str());
    host_error(message.as_str())
}

/// The error on resources of a kind that cannot be reached any more.
pub fn registry_error(family: &str, kind: &str) -> (r: VmError)
    ensures
        r@ == ErrorView::Host(family@ + " "@ + kind@ + " registry is poisoned"@),
{
    let mut message: String = text::join3(family, " ", kind);
    message.append(" registry is poisoned");
    host_error(message.as_str())
}

/// The next handle of a counter, which goes on behind it.
pub fn next_handle(counter: &mut i64) -> (r: i64)
    ensures
        r == *old(counter),
        *final(counter) == (if *old(counter) == i64::MAX {
            i64::MIN as int
        } else {
            *old(counter) + 1
        }),
{
    let handle: i64 = *counter;
    *counter = if handle == i64::MAX {
        i64::MIN
    } else {
        handle + 1
    };
    handle
}

/// What looking a resource up gives.
pub open spec fn found<V>(
    m: Map<i64, V>,
    family: Seq<char>,
    kind: Seq<char>,
    handle: i64,
) -> Result<V, ErrorView> {
    if m.contains_key(handle) {
        Ok(m[handle])
    } else {
        Err(unknown_handle(family, kind, handle))
    }
}

/// The resource of a handle.
pub fn get_in<'a, V>(map: &'a HandleMap<V>, family: &str, kind: &str, handle: i64) -> (r: VmResult<
    &'a V,
>)
    ensures
        match r {
            Ok(v) => found(map@, family@, kind@, handle) == Ok::<V, ErrorView>(*v),
            Err(e) => found(map@, family@, kind@, handle) == Err::<V, ErrorView>(e@),
        },
{
    match map.get(handle) {
        Some(v) => Ok(v),
        None => Err(unknown_handle_error(family, kind, handle)),
    }
}

/// The resource of a handle, to be changed in place.
pub fn get_mut_in<'a, V>(
    map: &'a mut HandleMap<V>,
    family: &str,
    kind: &str,
    handle: i64,
) -> (r: VmResult<&'a mut V>)
    ensures
        match r {
            Ok(v) => {
                &&& found(old(map)@, family@, kind@, handle) == Ok::<V, ErrorView>(*v)
                &&& final(map)@ == old(map)@.insert(handle, *final(v))
            },
            Err(e) => {
                &&& found(old(map)@, family@, kind@, handle) == Err::<V, ErrorView>(e@)
                &&& final(map)@ == old(map)@
            },
        },
{
    match map.get_mut(handle) {
        Some(v) => Ok(v),
        None => Err(unknown_handle_error(family, kind, handle)),
    }
}

/// Takes the resource of a handle out.
pub fn take_in<V>(map: &mut HandleMap<V>, family: &str, kind: &str, handle: i64) -> (r: VmResult<V>)
    ensures
        final(map)@ == old(map)@.remove(handle),
        match r {
            Ok(v) => found(old(map)@, family@, kind@, handle) == Ok::<V, ErrorView>(v),
            Err(e) => found(old(map)@, family@, kind@, handle) == Err::<V, ErrorView>(e@),
        },
{
    match map.remove(handle) {
        Some(v) => Ok(v),
        None => Err(unknown_handle_error(family, kind, handle)),
    }
}

/// A counter that is at its place gives a handle that was not given before, and moves on.
pub proof fn law_handles_are_fresh<V>(m: Map<i64, V>, counter: i64, v: V)
    requires
        counter < i64::MAX,
        forall|h: i64| #[trigger] m.contains_key(h) ==> h < counter,
    ensures
        !m.contains_key(counter),
        forall|h: i64| #[trigger]
            m.insert(counter, v).contains_key(h) ==> h < counter + 1,
{
}

/// A resource that was put under a handle is found under it, and is gone once it was taken out.
pub proof fn law_registry_gives_back<V>(
    m: Map<i64, V>,
    family: Seq<char>,
    kind: Seq<char>,
    handle: i64,
    v: V,
)
    ensures
        found(m.insert(handle, v), family, kind, handle) == Ok::<V, ErrorView>(v),
        found(m.insert(handle, v).remove(handle), family, kind, handle) == Err::<V, ErrorView>(
            unknown_handle(family, kind, handle),
        ),
{
}

} // verus!
