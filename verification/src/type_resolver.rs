//! The type-resolution capability the byte decoders consume: decode the
//! bytes at a cursor into a [`scale_value::Value`] for a given type id.
//!
//! There are two non-interchangeable resolvers — one looks type names up in
//! the layered historic registries, one indexes a self-describing type
//! table — and the decoding itself is done by the `scale_value` crate, so
//! everything in this module is a trusted declaration or a trusted wrapper
//! around that crate; the contracts state only what the wrapped calls are
//! relied on for.

use vstd::prelude::*;

verus! {

#[verifier::external_type_specification]
#[verifier::external_body]
pub struct ExTypeRegistrySet<'a>(scale_info_legacy::TypeRegistrySet<'a>);

#[verifier::external_type_specification]
#[verifier::external_body]
pub struct ExPortableRegistry(scale_info::PortableRegistry);

#[verifier::external_type_specification]
#[verifier::external_body]
#[verifier::reject_recursive_types(T)]
pub struct ExValue<T>(scale_value::Value<T>);

/// Whether `scale_info_legacy` accepts a string as a type path. The answer
/// depends on the characters alone.
pub uninterp spec fn parses_as_type_name(s: Seq<char>) -> bool;

/// The view of an optional pallet scope.
pub open spec fn opt_str_view(pallet: Option<&str>) -> Option<Seq<char>> {
    match pallet {
        Some(p) => Some(p@),
        None => None,
    }
}

/// What decoding at a named type does to the bytes from `pos` on, resolving
/// names against `types`: `Some(n)` when `scale_value`'s decoder succeeds
/// consuming exactly `n` bytes, `None` when the name does not parse or the
/// decoder fails. A function of the registry, buffer, position and type
/// alone.
pub uninterp spec fn legacy_decode_len(
    types: &scale_info_legacy::TypeRegistrySet<'_>,
    bytes: Seq<u8>,
    pos: int,
    ty: Seq<char>,
    pallet: Option<Seq<char>>,
) -> Option<int>;

/// What decoding at a type table entry does to the bytes from `pos` on:
/// `Some(n)` when `scale_value`'s decoder succeeds consuming exactly `n`
/// bytes, `None` when it fails. A function of the registry, buffer,
/// position and type id alone.
pub uninterp spec fn portable_decode_len(
    types: &scale_info::PortableRegistry,
    bytes: Seq<u8>,
    pos: int,
    ty: u32,
) -> Option<int>;

/// Relies on `scale_info_legacy::LookupName::parse` to decide whether a
/// type name parses as a type path.
#[verifier::external_body]
pub(crate) fn lookup_name_parses(ty: &str) -> (r: bool)
    ensures
        r == parses_as_type_name(ty@),
{
    scale_info_legacy::LookupName::parse(ty).is_ok()
}

/// Relies on `scale_value::scale::decode_as_type` (with
/// `scale_info_legacy::LookupName::parse` converting the type name): decodes
/// the bytes from `pos` on as the type named `ty`, scoped to `pallet` if
/// given, resolving names against `types`. Returns the decoded value and
/// how many bytes remain past it. The decoder is deterministic in its
/// arguments, so its consumption carries the name [`legacy_decode_len`]:
/// it succeeds exactly when that is `Some(n)`, leaving all but `n` of the
/// given bytes, and a name that does not parse never decodes.
#[verifier::external_body]
pub(crate) fn decode_value_legacy(
    bytes: &[u8],
    pos: usize,
    ty: &str,
    pallet: Option<&str>,
    types: &scale_info_legacy::TypeRegistrySet<'_>,
) -> (r: Result<(scale_value::Value<String>, usize), String>)
    requires
        pos <= bytes@.len(),
    ensures
        r matches Ok(p) ==> (legacy_decode_len(types, bytes@, pos as int, ty@, opt_str_view(pallet))
            is Some && p.1 == bytes@.len() - pos - legacy_decode_len(
            types,
            bytes@,
            pos as int,
            ty@,
            opt_str_view(pallet),
        ).unwrap() && p.1 <= bytes@.len() - pos),
        r is Err ==> legacy_decode_len(types, bytes@, pos as int, ty@, opt_str_view(pallet))
            is None,
        r is Ok ==> parses_as_type_name(ty@),
{
    let mut id = match scale_info_legacy::LookupName::parse(ty) {
        Ok(id) => id,
        Err(e) => {
            return Err(e.to_string());
        },
    };
    if let Some(p) = pallet {
        id = id.in_pallet(p);
    }
    let mut cursor = &bytes[pos..];
    match scale_value::scale::decode_as_type(&mut cursor, id, types) {
        Ok(v) => Ok((v.map_context(|c| c.to_string()), cursor.len())),
        Err(e) => Err(e.to_string()),
    }
}

/// Relies on `scale_value::scale::decode_as_type`: decodes the bytes from
/// `pos` on as type table entry `ty`, resolving against `types`. Returns
/// the decoded value and how many bytes remain past it. The decoder is
/// deterministic in its arguments, so its consumption carries the name
/// [`portable_decode_len`]: it succeeds exactly when that is `Some(n)`,
/// leaving all but `n` of the given bytes.
#[verifier::external_body]
pub(crate) fn decode_value_portable(
    bytes: &[u8],
    pos: usize,
    ty: u32,
    types: &scale_info::PortableRegistry,
) -> (r: Result<(scale_value::Value<String>, usize), String>)
    requires
        pos <= bytes@.len(),
    ensures
        r matches Ok(p) ==> (portable_decode_len(types, bytes@, pos as int, ty) is Some && p.1
            == bytes@.len() - pos - portable_decode_len(types, bytes@, pos as int, ty).unwrap()
            && p.1 <= bytes@.len() - pos),
        r is Err ==> portable_decode_len(types, bytes@, pos as int, ty) is None,
{
    let mut cursor = &bytes[pos..];
    match scale_value::scale::decode_as_type(&mut cursor, ty, types) {
        Ok(v) => Ok((v.map_context(|c| c.to_string()), cursor.len())),
        Err(e) => Err(e.to_string()),
    }
}

} // verus!
