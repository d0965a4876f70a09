//! Decoding an extrinsic's bytes against a metadata document: a compact
//! length prefix, one envelope byte, then — depending on the envelope —
//! address, signature and signed-extension values, and always the pallet
//! and call indices followed by the call's arguments.

use crate::errors::DecodeError;
use crate::extrinsic_type_info::{all_args_parse, all_fields_named, Arg, LookupId};
use crate::metadata::{ArgMeta, FieldMeta, LegacyMetadata, Metadata, PortableMetadata};
use crate::type_resolver::{
    decode_value_legacy, decode_value_portable, legacy_decode_len, portable_decode_len,
};
use vstd::prelude::*;

verus! {

/// The value of `n` little-endian bytes starting at `pos`.
pub open spec fn le_value(bytes: Seq<u8>, pos: int, n: int) -> int
    decreases n,
{
    if n <= 0 {
        0
    } else {
        bytes[pos] + 256 * le_value(bytes, pos + 1, n - 1)
    }
}

/// `256^n`: the least value that does not fit in `n` bytes.
pub open spec fn pow256(n: int) -> int
    decreases n,
{
    if n <= 0 {
        1
    } else {
        256 * pow256(n - 1)
    }
}

proof fn lemma_le_value_bound(bytes: Seq<u8>, pos: int, n: int)
    requires
        0 <= pos,
        pos + n <= bytes.len(),
    ensures
        0 <= le_value(bytes, pos, n) < pow256(n),
    decreases n,
{
    if n > 0 {
        lemma_le_value_bound(bytes, pos + 1, n - 1);
    }
}

proof fn lemma_le_value_same(bytes: Seq<u8>, bytes2: Seq<u8>, pos: int, n: int)
    requires
        0 <= pos,
        pos + n <= bytes.len(),
        bytes.len() <= bytes2.len(),
        forall|k: int| 0 <= k < bytes.len() ==> bytes[k] == bytes2[k],
    ensures
        le_value(bytes2, pos, n) == le_value(bytes, pos, n),
    decreases n,
{
    if n > 0 {
        lemma_le_value_same(bytes, bytes2, pos + 1, n - 1);
    }
}

/// The SCALE compact `u64` at `pos`: the decoded value and the position
/// just past it, or nothing if the prefix is malformed, truncated, or not
/// the canonical (minimal) encoding of its value.
pub open spec fn spec_compact_u64(bytes: Seq<u8>, pos: int) -> Option<(u64, int)> {
    if !(0 <= pos < bytes.len()) {
        None
    } else {
        let b = bytes[pos] as int;
        if b % 4 == 0 {
            Some(((b / 4) as u64, pos + 1))
        } else if b % 4 == 1 {
            if pos + 2 <= bytes.len() {
                let x = (b + 256 * bytes[pos + 1]) / 4;
                if 63 < x <= 0x3fff {
                    Some((x as u64, pos + 2))
                } else {
                    None
                }
            } else {
                None
            }
        } else if b % 4 == 2 {
            if pos + 4 <= bytes.len() {
                let x = le_value(bytes, pos, 4) / 4;
                if 0x3fff < x <= 0x3fff_ffff {
                    Some((x as u64, pos + 4))
                } else {
                    None
                }
            } else {
                None
            }
        } else {
            let n = b / 4 + 4;
            if n > 8 {
                None
            } else if pos + 1 + n <= bytes.len() {
                let x = le_value(bytes, pos + 1, n);
                let min = if n == 4 {
                    0x4000_0000
                } else {
                    pow256(n - 1)
                };
                if x >= min {
                    Some((x as u64, pos + 1 + n))
                } else {
                    None
                }
            } else {
                None
            }
        }
    }
}

/// Read `n` little-endian bytes starting at `pos`.
fn read_le(bytes: &[u8], pos: usize, n: usize) -> (r: u64)
    requires
        pos + n <= bytes@.len(),
        n <= 8,
    ensures
        r == le_value(bytes@, pos as int, n as int),
{
    proof {
        lemma_le_value_bound(bytes@, pos as int, n as int);
    }
    let len = bytes.len();
    let mut acc: u64 = 0;
    let mut i: usize = n;
    while i > 0
        invariant
            i <= n,
            n <= 8,
            pos + n <= bytes@.len(),
            bytes@.len() == len,
            acc == le_value(bytes@, pos + i as int, n - i as int),
        decreases i,
    {
        i -= 1;
        proof {
            lemma_le_value_bound(bytes@, pos + i as int + 1, n - i as int - 1);
            assert(pow256(n - i as int - 1) <= pow256(7)) by {
                lemma_pow256_mono(n - i as int - 1, 7);
            }
            assert(pow256(7) == 0x100_0000_0000_0000) by {
                reveal_with_fuel(pow256, 9);
            }
        }
        let b = bytes[pos + i];
        acc = (b as u64) + 256 * acc;
    }
    acc
}

proof fn lemma_pow256_pos(n: int)
    ensures
        pow256(n) >= 1,
    decreases
            (if n <= 0 {
                0int
            } else {
                n
            }),
{
    if n > 0 {
        lemma_pow256_pos(n - 1);
    }
}

proof fn lemma_pow256_mono(a: int, b: int)
    requires
        a <= b,
    ensures
        pow256(a) <= pow256(b),
    decreases b - a,
{
    lemma_pow256_pos(a);
    if a < b {
        lemma_pow256_mono(a, b - 1);
        lemma_pow256_pos(b - 1);
    }
}

/// Decode the SCALE compact `u64` at `pos`, exactly as [`spec_compact_u64`]
/// says.
pub fn decode_compact_u64(bytes: &[u8], pos: usize) -> (r: Option<(u64, usize)>)
    requires
        pos <= bytes@.len(),
    ensures
        match spec_compact_u64(bytes@, pos as int) {
            Some(vp) => r matches Some(x) && x.0 == vp.0 && x.1 == vp.1 && pos < x.1 <= bytes@.len(),
            None => r is None,
        },
{
    if pos >= bytes.len() {
        return None;
    }
    let rem = bytes.len() - pos;
    let b = bytes[pos];
    let mode = b % 4;
    if mode == 0 {
        Some(((b / 4) as u64, pos + 1))
    } else if mode == 1 {
        if rem >= 2 {
            let x = ((b as u64) + 256 * (bytes[pos + 1] as u64)) / 4;
            if 63 < x && x <= 0x3fff {
                Some((x, pos + 2))
            } else {
                None
            }
        } else {
            None
        }
    } else if mode == 2 {
        if rem >= 4 {
            let x = read_le(bytes, pos, 4) / 4;
            if 0x3fff < x && x <= 0x3fff_ffff {
                Some((x, pos + 4))
            } else {
                None
            }
        } else {
            None
        }
    } else {
        let n = (b / 4) as usize + 4;
        if n > 8 {
            None
        } else if rem >= 1 + n {
            let x = read_le(bytes, pos + 1, n);
            let min: u64 = if n == 4 {
                0x4000_0000
            } else {
                proof {
                    reveal_with_fuel(pow256, 9);
                    assert(pow256(4) == 0x1_0000_0000);
                    assert(pow256(5) == 0x100_0000_0000);
                    assert(pow256(6) == 0x1_0000_0000_0000);
                    assert(pow256(7) == 0x100_0000_0000_0000);
                }
                if n == 5 {
                    0x1_0000_0000
                } else if n == 6 {
                    0x100_0000_0000
                } else if n == 7 {
                    0x1_0000_0000_0000
                } else {
                    0x100_0000_0000_0000
                }
            };
            if x >= min {
                Some((x, pos + 1 + n))
            } else {
                None
            }
        } else {
            None
        }
    }
}

/// An extrinsic byte buffer is well framed when its compact length prefix
/// decodes and declares exactly the bytes that follow it.
pub open spec fn well_framed(bytes: Seq<u8>) -> bool {
    spec_compact_u64(bytes, 0) matches Some(lp) && bytes.len() == lp.1 + lp.0
}

/// Law (leftover bytes): appending any non-empty suffix to a well-framed
/// extrinsic leaves the length prefix decoding to the same declared length,
/// which the longer buffer no longer matches — so a decode of the extended
/// buffer fails with the length-mismatch error rather than succeeding.
pub proof fn lemma_suffix_breaks_framing(bytes: Seq<u8>, suffix: Seq<u8>)
    requires
        well_framed(bytes),
        suffix.len() > 0,
    ensures
        spec_compact_u64(bytes + suffix, 0) == spec_compact_u64(bytes, 0),
        !well_framed(bytes + suffix),
{
    let ext = bytes + suffix;
    assert(forall|k: int| 0 <= k < bytes.len() ==> ext[k] == bytes[k]);
    let b = bytes[0] as int;
    assert(ext[0] == bytes[0]);
    if b % 4 == 1 {
        assert(ext[1] == bytes[1]);
    } else if b % 4 == 2 {
        lemma_le_value_same(bytes, ext, 0, 4);
    } else if b % 4 == 3 {
        let n = b / 4 + 4;
        if n <= 8 && 1 + n <= bytes.len() {
            lemma_le_value_same(bytes, ext, 1, n);
        }
    }
}

/// The decoded call of an extrinsic: which pallet and call it names, and
/// one decoded value per declared argument.
#[derive(Debug)]
pub struct ExtrinsicCallData {
    pub pallet_name: String,
    pub call_name: String,
    pub args: Vec<(String, scale_value::Value<String>)>,
}

/// A decoded extrinsic. The three envelopes are mutually exclusive: a
/// legacy envelope is either signed or bare, and the extension-bearing
/// unsigned envelope carries extensions without an address/signature pair.
#[derive(Debug)]
pub enum Extrinsic {
    Unsigned { call_data: ExtrinsicCallData },
    Signed {
        address: Vec<u8>,
        signature: Vec<u8>,
        signed_exts: Vec<(String, scale_value::Value<String>)>,
        call_data: ExtrinsicCallData,
    },
    General {
        signed_exts: Vec<(String, scale_value::Value<String>)>,
        call_data: ExtrinsicCallData,
    },
}

/// The transaction-format version named by an envelope byte: its low 7 bits.
pub open spec fn envelope_version(b: u8) -> int {
    (b % 128) as int
}

/// The envelope byte's high bit: the signed flag.
pub open spec fn envelope_signed(b: u8) -> bool {
    b >= 128
}

/// The envelopes this library decodes: the legacy format (version 4),
/// signed or bare, and the extension-bearing unsigned format (version 5).
pub open spec fn envelope_supported(b: u8) -> bool {
    envelope_version(b) == 4 || (envelope_version(b) == 5 && !envelope_signed(b))
}

/// Which result variant an envelope byte selects.
pub open spec fn variant_matches_envelope(e: Extrinsic, b: u8) -> bool {
    match e {
        Extrinsic::Unsigned { .. } => envelope_version(b) == 4 && !envelope_signed(b),
        Extrinsic::Signed { .. } => envelope_version(b) == 4 && envelope_signed(b),
        Extrinsic::General { .. } => envelope_version(b) == 5 && !envelope_signed(b),
    }
}

/// What every decode result says about the length prefix and envelope,
/// whatever the typed values turn out to hold: a malformed prefix, a length
/// mismatch, an empty body, and an unsupported envelope are each reported
/// as themselves, and a success implies the buffer was well framed and the
/// variant matches the envelope byte.
pub open spec fn frame_clauses(bytes: Seq<u8>, r: Result<Extrinsic, DecodeError>) -> bool {
    &&& (spec_compact_u64(bytes, 0) is None ==> r == Err::<Extrinsic, DecodeError>(
        DecodeError::CannotDecodeLength,
    ))
    &&& (match spec_compact_u64(bytes, 0) {
        Some(lp) => {
            &&& (bytes.len() != lp.1 + lp.0 ==> (r matches Err(DecodeError::WrongLength {
                expected,
                have,
            }) && expected == lp.0 && have == bytes.len() - lp.1))
            &&& (bytes.len() == lp.1 + lp.0 && lp.0 == 0 ==> r == Err::<Extrinsic, DecodeError>(
                DecodeError::MissingEnvelope,
            ))
            &&& (bytes.len() == lp.1 + lp.0 && lp.0 > 0 ==> {
                let b = bytes[lp.1];
                &&& (!envelope_supported(b) ==> (r matches Err(DecodeError::UnsupportedVersion {
                    version,
                }) && version == envelope_version(b)))
                &&& (r matches Ok(e) ==> envelope_supported(b) && variant_matches_envelope(e, b))
            })
        },
        None => true,
    })
    &&& (r is Ok ==> well_framed(bytes))
}

/// The call data names exactly what the schema declares for the pallet and
/// call selected by the two index bytes.
pub open spec fn legacy_call_data_matches(
    m: &LegacyMetadata,
    pi: u8,
    ci: u8,
    cd: ExtrinsicCallData,
) -> bool {
    match m.spec_select_module(pi) {
        None => false,
        Some(mi) => {
            let md = m.modules@[mi];
            md.calls matches Some(calls) && (ci as int) < calls@.len() && {
                let call = calls@[ci as int];
                &&& cd.pallet_name@ == md.name@
                &&& cd.call_name@ == call.name@
                &&& cd.args@.len() == call.args@.len()
                &&& forall|j: int|
                    0 <= j < call.args@.len() ==> (#[trigger] cd.args@[j]).0@ == call.args@[j].name@
            }
        },
    }
}

/// The decoded extensions carry the schema's extension names, in order.
pub open spec fn legacy_exts_match(
    m: &LegacyMetadata,
    exts: Seq<(String, scale_value::Value<String>)>,
) -> bool {
    if !m.named_extensions {
        exts.len() == 1 && exts[0].0@ == "ExtrinsicSignedExtensions"@
    } else {
        exts.len() == m.signed_extensions@.len() && forall|j: int|
            0 <= j < exts.len() ==> (#[trigger] exts[j]).0@ == m.signed_extensions@[j]@
    }
}

/// The position just past the declared arguments, each decoded in order at
/// its type looked up within the pallet; nothing if one fails to decode.
pub open spec fn legacy_args_end(
    types: &scale_info_legacy::TypeRegistrySet<'_>,
    bytes: Seq<u8>,
    pos: int,
    args: Seq<ArgMeta>,
    pallet: Seq<char>,
) -> Option<int>
    decreases args.len(),
{
    if args.len() == 0 {
        Some(pos)
    } else {
        match legacy_decode_len(types, bytes, pos, args[0].ty@, Some(pallet)) {
            Some(n) => legacy_args_end(types, bytes, pos + n, args.drop_first(), pallet),
            None => None,
        }
    }
}

/// The position just past the declared fields, each decoded in order at
/// its type table entry; nothing if one fails to decode.
pub open spec fn portable_args_end(
    types: &scale_info::PortableRegistry,
    bytes: Seq<u8>,
    pos: int,
    fields: Seq<FieldMeta>,
) -> Option<int>
    decreases fields.len(),
{
    if fields.len() == 0 {
        Some(pos)
    } else {
        match portable_decode_len(types, bytes, pos, fields[0].ty) {
            Some(n) => portable_args_end(types, bytes, pos + n, fields.drop_first()),
            None => None,
        }
    }
}

/// What decoding the call data at `pos` returns: a schema error when the
/// two index bytes select nothing (or an argument name does not parse),
/// and otherwise the verdict of the named decode lengths — success exactly
/// when the declared arguments end at the buffer's end, the leftover-bytes
/// error naming the resolved call and the exact count when bytes remain,
/// and a value error when an argument fails to decode.
pub open spec fn legacy_call_data_outcome(
    m: &LegacyMetadata,
    types: &scale_info_legacy::TypeRegistrySet<'_>,
    bytes: Seq<u8>,
    pos: int,
    r: Result<ExtrinsicCallData, DecodeError>,
) -> bool {
    match m.spec_select_module(bytes[pos]) {
        None => r matches Err(DecodeError::Schema(_)),
        Some(mi) => {
            let md = m.modules@[mi];
            match md.calls {
                None => r matches Err(DecodeError::Schema(_)),
                Some(calls) => {
                    if bytes[pos + 1] as int >= calls@.len() {
                        r matches Err(DecodeError::Schema(_))
                    } else {
                        let call = calls@[bytes[pos + 1] as int];
                        if all_args_parse(call.args@) {
                            match legacy_args_end(types, bytes, pos + 2, call.args@, md.name@) {
                                Some(e) => {
                                    &&& (e == bytes.len() ==> r is Ok)
                                    &&& (e != bytes.len() ==> (r matches Err(
                                        DecodeError::LeftoverBytes {
                                            pallet_name,
                                            call_name,
                                            leftover,
                                            ..
                                        },
                                    ) && pallet_name@ == md.name@ && call_name@ == call.name@
                                        && leftover == bytes.len() - e))
                                },
                                None => r matches Err(DecodeError::CannotDecodeValue { .. }),
                            }
                        } else {
                            r matches Err(DecodeError::Schema(_))
                        }
                    }
                },
            }
        },
    }
}

/// The portable twin of [`legacy_call_data_outcome`].
pub open spec fn portable_call_data_outcome(
    m: &PortableMetadata,
    bytes: Seq<u8>,
    pos: int,
    r: Result<ExtrinsicCallData, DecodeError>,
) -> bool {
    match crate::extrinsic_type_info::find_pallet_by_index(m.pallets@, 0, bytes[pos]) {
        None => r matches Err(DecodeError::Schema(_)),
        Some(pix) => {
            let pallet = m.pallets@[pix];
            match pallet.calls {
                None => r matches Err(DecodeError::Schema(_)),
                Some(calls_id) => match m.spec_resolve(calls_id) {
                    None => r matches Err(DecodeError::Schema(_)),
                    Some(ti) => match m.types@[ti].def {
                        crate::metadata::TypeDefMeta::Variant { variants } => {
                            match crate::extrinsic_type_info::find_variant_by_index(
                                variants@,
                                0,
                                bytes[pos + 1],
                            ) {
                                None => r matches Err(DecodeError::Schema(_)),
                                Some(vi) => {
                                    let v = variants@[vi];
                                    if all_fields_named(v.fields@) {
                                        match portable_args_end(
                                            &m.registry,
                                            bytes,
                                            pos + 2,
                                            v.fields@,
                                        ) {
                                            Some(e) => {
                                                &&& (e == bytes.len() ==> r is Ok)
                                                &&& (e != bytes.len() ==> (r matches Err(
                                                    DecodeError::LeftoverBytes {
                                                        pallet_name,
                                                        call_name,
                                                        leftover,
                                                        ..
                                                    },
                                                ) && pallet_name@ == pallet.name@ && call_name@
                                                    == v.name@ && leftover == bytes.len() - e))
                                            },
                                            None => r matches Err(
                                                DecodeError::CannotDecodeValue { .. },
                                            ),
                                        }
                                    } else {
                                        r matches Err(DecodeError::Schema(_))
                                    }
                                },
                            }
                        },
                        _ => r matches Err(DecodeError::Schema(_)),
                    },
                },
            }
        },
    }
}

/// A well-framed bare legacy-format extrinsic whose resolved call's
/// arguments decode up to exactly the buffer's end.
pub open spec fn legacy_bare_call_decodes(
    m: &LegacyMetadata,
    types: &scale_info_legacy::TypeRegistrySet<'_>,
    bytes: Seq<u8>,
) -> bool {
    match spec_compact_u64(bytes, 0) {
        Some(lp) => {
            &&& bytes.len() == lp.1 + lp.0
            &&& lp.0 >= 3
            &&& bytes[lp.1] == 4
            &&& match m.spec_select_module(bytes[lp.1 + 1]) {
                Some(mi) => {
                    let md = m.modules@[mi];
                    md.calls matches Some(calls) && (bytes[lp.1 + 2] as int) < calls@.len() && {
                        let call = calls@[bytes[lp.1 + 2] as int];
                        all_args_parse(call.args@) && legacy_args_end(
                            types,
                            bytes,
                            lp.1 + 3,
                            call.args@,
                            md.name@,
                        ) == Some(bytes.len() as int)
                    }
                },
                None => false,
            }
        },
        None => false,
    }
}

/// The portable twin of [`legacy_bare_call_decodes`].
pub open spec fn portable_bare_call_decodes(m: &PortableMetadata, bytes: Seq<u8>) -> bool {
    match spec_compact_u64(bytes, 0) {
        Some(lp) => {
            &&& bytes.len() == lp.1 + lp.0
            &&& lp.0 >= 3
            &&& bytes[lp.1] == 4
            &&& match crate::extrinsic_type_info::find_pallet_by_index(
                m.pallets@,
                0,
                bytes[lp.1 + 1],
            ) {
                Some(pix) => {
                    let pallet = m.pallets@[pix];
                    pallet.calls matches Some(calls_id) && m.spec_resolve(calls_id)
                        matches Some(ti) && m.types@[ti].def
                        matches crate::metadata::TypeDefMeta::Variant { variants }
                        && crate::extrinsic_type_info::find_variant_by_index(
                        variants@,
                        0,
                        bytes[lp.1 + 2],
                    ) matches Some(vi) && {
                        let v = variants@[vi];
                        all_fields_named(v.fields@) && portable_args_end(
                            &m.registry,
                            bytes,
                            lp.1 + 3,
                            v.fields@,
                        ) == Some(bytes.len() as int)
                    }
                },
                None => false,
            }
        },
        None => false,
    }
}

/// What a successful legacy decode says beyond the frame: the call data
/// matches the schema of the two call-index bytes (which for a bare
/// extrinsic sit right after the envelope byte), and the extensions carry
/// the schema's names.
pub open spec fn legacy_content_clauses(
    m: &LegacyMetadata,
    bytes: Seq<u8>,
    r: Result<Extrinsic, DecodeError>,
) -> bool {
    r matches Ok(e) ==> legacy_ok_content(m, bytes, e)
}

/// The schema facts a successfully decoded legacy extrinsic carries.
pub open spec fn legacy_ok_content(m: &LegacyMetadata, bytes: Seq<u8>, e: Extrinsic) -> bool {
    match e {
            Extrinsic::Unsigned { call_data } => spec_compact_u64(bytes, 0) matches Some(lp)
                && bytes.len() >= lp.1 + 3 && legacy_call_data_matches(
                m,
                bytes[lp.1 + 1],
                bytes[lp.1 + 2],
                call_data,
            ),
            Extrinsic::Signed { address, signature, signed_exts, call_data } => legacy_exts_match(
                m,
                signed_exts@,
            ) && (exists|pi: u8, ci: u8| legacy_call_data_matches(m, pi, ci, call_data)) && (
            spec_compact_u64(bytes, 0) matches Some(lp) && exists|a_end: int, s_end: int|
                #![trigger bytes.subrange(lp.1 + 1, a_end), bytes.subrange(a_end, s_end)]
                {
                    &&& lp.1 + 1 <= a_end <= s_end <= bytes.len()
                    &&& address@ == bytes.subrange(lp.1 + 1, a_end)
                    &&& signature@ == bytes.subrange(a_end, s_end)
                }),
        Extrinsic::General { signed_exts, call_data } => legacy_exts_match(m, signed_exts@)
            && exists|pi: u8, ci: u8| legacy_call_data_matches(m, pi, ci, call_data),
    }
}

/// The call data names exactly what the portable schema declares.
pub open spec fn portable_call_data_matches(
    m: &PortableMetadata,
    pi: u8,
    ci: u8,
    cd: ExtrinsicCallData,
) -> bool {
    match crate::extrinsic_type_info::find_pallet_by_index(m.pallets@, 0, pi) {
        None => false,
        Some(pix) => {
            let pallet = m.pallets@[pix];
            pallet.calls matches Some(calls_id) && m.spec_resolve(calls_id) matches Some(ti)
                && m.types@[ti].def matches crate::metadata::TypeDefMeta::Variant { variants }
                && crate::extrinsic_type_info::find_variant_by_index(variants@, 0, ci)
                matches Some(vi) && {
                let v = variants@[vi];
                &&& cd.pallet_name@ == pallet.name@
                &&& cd.call_name@ == v.name@
                &&& cd.args@.len() == v.fields@.len()
                &&& forall|j: int|
                    0 <= j < v.fields@.len() ==> (#[trigger] cd.args@[j]).0@
                        == v.fields@[j].name.unwrap()@
            }
        },
    }
}

/// The decoded extensions carry the schema's extension names, in order.
pub open spec fn portable_exts_match(
    m: &PortableMetadata,
    exts: Seq<(String, scale_value::Value<String>)>,
) -> bool {
    exts.len() == m.extrinsic.signed_extensions@.len() && forall|j: int|
        0 <= j < exts.len() ==> (#[trigger] exts[j]).0@ == m.extrinsic.signed_extensions@[j].name@
}

/// What a successful portable decode says beyond the frame.
pub open spec fn portable_content_clauses(
    m: &PortableMetadata,
    bytes: Seq<u8>,
    r: Result<Extrinsic, DecodeError>,
) -> bool {
    r matches Ok(e) ==> portable_ok_content(m, bytes, e)
}

/// The schema facts a successfully decoded portable extrinsic carries.
pub open spec fn portable_ok_content(m: &PortableMetadata, bytes: Seq<u8>, e: Extrinsic) -> bool {
    match e {
            Extrinsic::Unsigned { call_data } => spec_compact_u64(bytes, 0) matches Some(lp)
                && bytes.len() >= lp.1 + 3 && portable_call_data_matches(
                m,
                bytes[lp.1 + 1],
                bytes[lp.1 + 2],
                call_data,
            ),
            Extrinsic::Signed { address, signature, signed_exts, call_data } => portable_exts_match(
                m,
                signed_exts@,
            ) && (exists|pi: u8, ci: u8| portable_call_data_matches(m, pi, ci, call_data)) && (
            spec_compact_u64(bytes, 0) matches Some(lp) && exists|a_end: int, s_end: int|
                #![trigger bytes.subrange(lp.1 + 1, a_end), bytes.subrange(a_end, s_end)]
                {
                    &&& lp.1 + 1 <= a_end <= s_end <= bytes.len()
                    &&& address@ == bytes.subrange(lp.1 + 1, a_end)
                    &&& signature@ == bytes.subrange(a_end, s_end)
                }),
        Extrinsic::General { signed_exts, call_data } => portable_exts_match(m, signed_exts@)
            && exists|pi: u8, ci: u8| portable_call_data_matches(m, pi, ci, call_data),
    }
}

/// Decode one extrinsic, consuming the whole buffer: length prefix,
/// envelope byte, address/signature/extensions as the envelope demands,
/// then the pallet and call index bytes and each declared argument.
/// Every success is well framed and matches the schema; each frame fault
/// is reported exactly as [`frame_clauses`] says.
pub fn decode_extrinsic(
    bytes: &[u8],
    metadata: &Metadata,
    historic_types: &scale_info_legacy::TypeRegistrySet<'_>,
) -> (r: Result<Extrinsic, DecodeError>)
    ensures
        frame_clauses(bytes@, r),
        metadata.spec_as_legacy() matches Some(m) ==> legacy_content_clauses(m, bytes@, r),
        metadata.spec_as_portable() matches Some(m) ==> portable_content_clauses(m, bytes@, r),
        metadata.spec_as_legacy() matches Some(m) ==> (legacy_bare_call_decodes(
            m,
            historic_types,
            bytes@,
        ) ==> r is Ok),
        metadata.spec_as_portable() matches Some(m) ==> (portable_bare_call_decodes(m, bytes@)
            ==> r is Ok),
{
    match metadata {
        Metadata::V8(m) => decode_extrinsic_legacy(bytes, m, historic_types),
        Metadata::V9(m) => decode_extrinsic_legacy(bytes, m, historic_types),
        Metadata::V10(m) => decode_extrinsic_legacy(bytes, m, historic_types),
        Metadata::V11(m) => decode_extrinsic_legacy(bytes, m, historic_types),
        Metadata::V12(m) => decode_extrinsic_legacy(bytes, m, historic_types),
        Metadata::V13(m) => decode_extrinsic_legacy(bytes, m, historic_types),
        Metadata::V14(m) => decode_extrinsic_portable(bytes, m),
        Metadata::V15(m) => decode_extrinsic_portable(bytes, m),
    }
}

/// The frame prelude shared by both families: length prefix, strict length
/// check, envelope byte.
fn decode_envelope(bytes: &[u8]) -> (r: Result<(u8, usize), DecodeError>)
    ensures
        match spec_compact_u64(bytes@, 0) {
            None => r == Err::<(u8, usize), DecodeError>(DecodeError::CannotDecodeLength),
            Some(lp) => {
                &&& (bytes@.len() != lp.1 + lp.0 ==> (r matches Err(DecodeError::WrongLength {
                    expected,
                    have,
                }) && expected == lp.0 && have == bytes@.len() - lp.1))
                &&& (bytes@.len() == lp.1 + lp.0 && lp.0 == 0 ==> r == Err::<
                    (u8, usize),
                    DecodeError,
                >(DecodeError::MissingEnvelope))
                &&& (bytes@.len() == lp.1 + lp.0 && lp.0 > 0 ==> {
                    let b = bytes@[lp.1];
                    &&& (!envelope_supported(b) ==> (r matches Err(
                        DecodeError::UnsupportedVersion { version },
                    ) && version == envelope_version(b)))
                    &&& (envelope_supported(b) ==> (r matches Ok(bp) && bp.0 == b && bp.1 == lp.1
                        + 1 && lp.1 + 1 <= bytes@.len()))
                })
            },
        },
        r is Ok ==> well_framed(bytes@),
{
    let (len, p) = match decode_compact_u64(bytes, 0) {
        Some(lp) => lp,
        None => {
            return Err(DecodeError::CannotDecodeLength);
        },
    };
    let remaining = bytes.len() - p;
    if remaining as u64 != len {
        return Err(DecodeError::WrongLength { expected: len, have: remaining });
    }
    if remaining == 0 {
        return Err(DecodeError::MissingEnvelope);
    }
    let b = bytes[p];
    let version = b % 128;
    let signed = b >= 128;
    if version == 4 || (version == 5 && !signed) {
        Ok((b, p + 1))
    } else {
        Err(DecodeError::UnsupportedVersion { version })
    }
}

#[verifier::rlimit(60)]
fn decode_extrinsic_legacy(
    bytes: &[u8],
    m: &LegacyMetadata,
    types: &scale_info_legacy::TypeRegistrySet<'_>,
) -> (r: Result<Extrinsic, DecodeError>)
    ensures
        frame_clauses(bytes@, r),
        legacy_content_clauses(m, bytes@, r),
        legacy_bare_call_decodes(m, types, bytes@) ==> r is Ok,
{
    let (b, pos) = match decode_envelope(bytes) {
        Ok(bp) => bp,
        Err(e) => {
            return Err(e);
        },
    };
    let version = b % 128;
    let signed = b >= 128;
    if version == 4 && signed {
        let sig_info = match m.signature_info() {
            Ok(si) => si,
            Err(e) => {
                return Err(DecodeError::Schema(e));
            },
        };
        let (address, p1) = match decode_raw_value_legacy(bytes, pos, &sig_info.address_id, types) {
            Ok(av) => av,
            Err(e) => {
                return Err(e);
            },
        };
        let (signature, p2) = match decode_raw_value_legacy(
            bytes,
            p1,
            &sig_info.signature_id,
            types,
        ) {
            Ok(sv) => sv,
            Err(e) => {
                return Err(e);
            },
        };
        let (signed_exts, p3) = match decode_extensions_legacy(
            bytes,
            p2,
            &sig_info.signed_extension_ids,
            types,
        ) {
            Ok(ev) => ev,
            Err(e) => {
                return Err(e);
            },
        };
        let call_data = match decode_call_data_legacy(bytes, p3, m, types) {
            Ok(cd) => cd,
            Err(e) => {
                return Err(e);
            },
        };
        let e = Extrinsic::Signed { address, signature, signed_exts, call_data };
        proof {
            assert(e->Signed_call_data == call_data);
            assert(e->Signed_signed_exts == signed_exts);
            assert(e->Signed_address == address);
            assert(e->Signed_signature == signature);
            assert(exists|pi: u8, ci: u8|
                legacy_call_data_matches(m, pi, ci, e->Signed_call_data)) by {
                assert(legacy_call_data_matches(
                    m,
                    bytes@[p3 as int],
                    bytes@[p3 as int + 1],
                    e->Signed_call_data,
                ));
            }
            let lp = spec_compact_u64(bytes@, 0).unwrap();
            assert(exists|a_end: int, s_end: int|
                #![trigger bytes@.subrange(lp.1 + 1, a_end), bytes@.subrange(a_end, s_end)]
                {
                    &&& lp.1 + 1 <= a_end <= s_end <= bytes@.len()
                    &&& e->Signed_address@ == bytes@.subrange(lp.1 + 1, a_end)
                    &&& e->Signed_signature@ == bytes@.subrange(a_end, s_end)
                }) by {
                assert(pos == lp.1 + 1);
                assert(e->Signed_address@ == bytes@.subrange(lp.1 + 1, p1 as int));
                assert(e->Signed_signature@ == bytes@.subrange(p1 as int, p2 as int));
                assert(lp.1 + 1 <= p1 as int <= p2 as int <= bytes@.len());
            }
            assert(legacy_ok_content(m, bytes@, e));
        }
        return Ok(e);
    } else if version == 4 {
        let call_data = match decode_call_data_legacy(bytes, pos, m, types) {
            Ok(cd) => cd,
            Err(e) => {
                return Err(e);
            },
        };
        return Ok(Extrinsic::Unsigned { call_data });
    } else {
        let sig_info = match m.signature_info() {
            Ok(si) => si,
            Err(e) => {
                return Err(DecodeError::Schema(e));
            },
        };
        let (signed_exts, p1) = match decode_extensions_legacy(
            bytes,
            pos,
            &sig_info.signed_extension_ids,
            types,
        ) {
            Ok(ev) => ev,
            Err(e) => {
                return Err(e);
            },
        };
        let call_data = match decode_call_data_legacy(bytes, p1, m, types) {
            Ok(cd) => cd,
            Err(e) => {
                return Err(e);
            },
        };
        let e = Extrinsic::General { signed_exts, call_data };
        proof {
            assert(e->General_call_data == call_data);
            assert(e->General_signed_exts == signed_exts);
            assert(exists|pi: u8, ci: u8|
                legacy_call_data_matches(m, pi, ci, e->General_call_data)) by {
                assert(legacy_call_data_matches(
                    m,
                    bytes@[p1 as int],
                    bytes@[p1 as int + 1],
                    e->General_call_data,
                ));
            }
            assert(legacy_ok_content(m, bytes@, e));
        }
        Ok(e)
    }
}

/// Decode one value at `id` and hand back the exact bytes it consumed.
fn decode_raw_value_legacy(
    bytes: &[u8],
    pos: usize,
    id: &LookupId,
    types: &scale_info_legacy::TypeRegistrySet<'_>,
) -> (r: Result<(Vec<u8>, usize), DecodeError>)
    requires
        pos <= bytes@.len(),
    ensures
        r matches Ok(vp) ==> pos <= vp.1 <= bytes@.len() && vp.0@ == bytes@.subrange(
            pos as int,
            vp.1 as int,
        ),
{
    let pallet = match &id.pallet {
        Some(p) => Some(p.as_str()),
        None => None,
    };
    match decode_value_legacy(bytes, pos, id.name.as_str(), pallet, types) {
        Ok((_value, remaining)) => {
            let end = bytes.len() - remaining;
            let consumed = vstd::slice::slice_to_vec(vstd::slice::slice_subrange(bytes, pos, end));
            Ok((consumed, end))
        },
        Err(message) => Err(
            DecodeError::CannotDecodeValue { context: id.name.clone(), message },
        ),
    }
}

/// Decode each declared extension in schema order, keeping its name.
fn decode_extensions_legacy(
    bytes: &[u8],
    pos: usize,
    exts: &Vec<Arg<LookupId>>,
    types: &scale_info_legacy::TypeRegistrySet<'_>,
) -> (r: Result<(Vec<(String, scale_value::Value<String>)>, usize), DecodeError>)
    requires
        pos <= bytes@.len(),
    ensures
        r matches Ok(vp) ==> {
            &&& pos <= vp.1 <= bytes@.len()
            &&& vp.0@.len() == exts@.len()
            &&& forall|j: int| 0 <= j < exts@.len() ==> (#[trigger] vp.0@[j]).0@ == exts@[j].name@
        },
{
    let mut out: Vec<(String, scale_value::Value<String>)> = Vec::new();
    let mut p = pos;
    let mut j: usize = 0;
    while j < exts.len()
        invariant
            j <= exts@.len(),
            pos <= p <= bytes@.len(),
            out@.len() == j,
            forall|k: int| 0 <= k < j ==> (#[trigger] out@[k]).0@ == exts@[k].name@,
        decreases exts@.len() - j,
    {
        let ext = &exts[j];
        let pallet = match &ext.id.pallet {
            Some(pn) => Some(pn.as_str()),
            None => None,
        };
        match decode_value_legacy(bytes, p, ext.id.name.as_str(), pallet, types) {
            Ok((value, remaining)) => {
                out.push((ext.name.clone(), value));
                p = bytes.len() - remaining;
            },
            Err(message) => {
                return Err(
                    DecodeError::CannotDecodeValue { context: ext.name.clone(), message },
                );
            },
        }
        j += 1;
    }
    Ok((out, p))
}

/// Read the pallet and call index bytes, resolve the call's schema, decode
/// each declared argument, and demand that nothing is left over.
#[verifier::rlimit(60)]
fn decode_call_data_legacy(
    bytes: &[u8],
    pos: usize,
    m: &LegacyMetadata,
    types: &scale_info_legacy::TypeRegistrySet<'_>,
) -> (r: Result<ExtrinsicCallData, DecodeError>)
    requires
        pos <= bytes@.len(),
    ensures
        r matches Ok(cd) ==> pos + 2 <= bytes@.len() && legacy_call_data_matches(
            m,
            bytes@[pos as int],
            bytes@[pos as int + 1],
            cd,
        ),
        pos + 2 > bytes@.len() ==> r matches Err(DecodeError::CannotDecodeValue { .. }),
        pos + 2 <= bytes@.len() ==> legacy_call_data_outcome(m, types, bytes@, pos as int, r),
{
    if bytes.len() - pos < 2 {
        return Err(
            DecodeError::CannotDecodeValue {
                context: ("call indices").to_owned(),
                message: ("not enough bytes for the pallet and call index").to_owned(),
            },
        );
    }
    let pallet_index = bytes[pos];
    let call_index = bytes[pos + 1];
    let info = match m.extrinsic_info(pallet_index, call_index) {
        Ok(info) => info,
        Err(e) => {
            return Err(DecodeError::Schema(e));
        },
    };
    let ghost mi = m.spec_select_module(pallet_index).unwrap();
    let ghost md = m.modules@[mi];
    let ghost call0 = md.calls.unwrap()@[call_index as int];
    proof {
        assert(call0.args@.skip(0) =~= call0.args@);
    }
    let mut args: Vec<(String, scale_value::Value<String>)> = Vec::new();
    let mut p = pos + 2;
    let mut j: usize = 0;
    while j < info.args.len()
        invariant
            pos + 2 <= bytes@.len(),
            pallet_index == bytes@[pos as int],
            call_index == bytes@[pos as int + 1],
            m.spec_select_module(pallet_index) == Some(mi),
            md == m.modules@[mi],
            md.calls matches Some(cs) && (call_index as int) < cs@.len() && call0 == cs@[call_index as int],
            all_args_parse(call0.args@),
            info.args@.len() == call0.args@.len(),
            forall|k: int|
                0 <= k < call0.args@.len() ==> {
                    &&& (#[trigger] info.args@[k]).name@ == call0.args@[k].name@
                    &&& info.args@[k].id.name@ == call0.args@[k].ty@
                    &&& info.args@[k].id.pallet matches Some(pn) && pn@ == md.name@
                },
            j <= info.args@.len(),
            pos + 2 <= p <= bytes@.len(),
            args@.len() == j,
            forall|k: int| 0 <= k < j ==> (#[trigger] args@[k]).0@ == info.args@[k].name@,
            legacy_args_end(types, bytes@, pos as int + 2, call0.args@, md.name@)
                == legacy_args_end(types, bytes@, p as int, call0.args@.skip(j as int), md.name@),
        decreases info.args@.len() - j,
    {
        let a = &info.args[j];
        let pallet = match &a.id.pallet {
            Some(pn) => Some(pn.as_str()),
            None => None,
        };
        proof {
            assert(call0.args@.skip(j as int)[0] == call0.args@[j as int]);
            assert(call0.args@.skip(j as int).drop_first() =~= call0.args@.skip(j as int + 1));
            assert(info.args@[j as int].id.pallet is Some);
            assert(crate::type_resolver::opt_str_view(pallet) == Some(md.name@));
        }
        match decode_value_legacy(bytes, p, a.id.name.as_str(), pallet, types) {
            Ok((value, remaining)) => {
                args.push((a.name.clone(), value));
                p = bytes.len() - remaining;
            },
            Err(message) => {
                proof {
                    assert(legacy_decode_len(
                        types,
                        bytes@,
                        p as int,
                        call0.args@[j as int].ty@,
                        Some(md.name@),
                    ) is None);
                    assert(legacy_args_end(
                        types,
                        bytes@,
                        p as int,
                        call0.args@.skip(j as int),
                        md.name@,
                    ) is None);
                }
                return Err(DecodeError::CannotDecodeValue { context: a.name.clone(), message });
            },
        }
        j += 1;
    }
    proof {
        assert(call0.args@.skip(call0.args@.len() as int) =~= Seq::<ArgMeta>::empty());
    }
    if p != bytes.len() {
        return Err(
            DecodeError::LeftoverBytes {
                pallet_name: info.pallet_name,
                call_name: info.call_name,
                args,
                leftover: bytes.len() - p,
            },
        );
    }
    Ok(ExtrinsicCallData { pallet_name: info.pallet_name, call_name: info.call_name, args })
}

#[verifier::rlimit(60)]
fn decode_extrinsic_portable(bytes: &[u8], m: &PortableMetadata) -> (r: Result<
    Extrinsic,
    DecodeError,
>)
    ensures
        frame_clauses(bytes@, r),
        portable_content_clauses(m, bytes@, r),
        portable_bare_call_decodes(m, bytes@) ==> r is Ok,
{
    let (b, pos) = match decode_envelope(bytes) {
        Ok(bp) => bp,
        Err(e) => {
            return Err(e);
        },
    };
    let version = b % 128;
    let signed = b >= 128;
    if version == 4 && signed {
        let sig_info = match m.signature_info() {
            Ok(si) => si,
            Err(e) => {
                return Err(DecodeError::Schema(e));
            },
        };
        let (address, p1) = match decode_raw_value_portable(bytes, pos, sig_info.address_id, m) {
            Ok(av) => av,
            Err(e) => {
                return Err(e);
            },
        };
        let (signature, p2) = match decode_raw_value_portable(bytes, p1, sig_info.signature_id, m) {
            Ok(sv) => sv,
            Err(e) => {
                return Err(e);
            },
        };
        let (signed_exts, p3) = match decode_extensions_portable(
            bytes,
            p2,
            &sig_info.signed_extension_ids,
            m,
        ) {
            Ok(ev) => ev,
            Err(e) => {
                return Err(e);
            },
        };
        let call_data = match decode_call_data_portable(bytes, p3, m) {
            Ok(cd) => cd,
            Err(e) => {
                return Err(e);
            },
        };
        let e = Extrinsic::Signed { address, signature, signed_exts, call_data };
        proof {
            assert(e->Signed_call_data == call_data);
            assert(e->Signed_signed_exts == signed_exts);
            assert(e->Signed_address == address);
            assert(e->Signed_signature == signature);
            assert(exists|pi: u8, ci: u8|
                portable_call_data_matches(m, pi, ci, e->Signed_call_data)) by {
                assert(portable_call_data_matches(
                    m,
                    bytes@[p3 as int],
                    bytes@[p3 as int + 1],
                    e->Signed_call_data,
                ));
            }
            let lp = spec_compact_u64(bytes@, 0).unwrap();
            assert(exists|a_end: int, s_end: int|
                #![trigger bytes@.subrange(lp.1 + 1, a_end), bytes@.subrange(a_end, s_end)]
                {
                    &&& lp.1 + 1 <= a_end <= s_end <= bytes@.len()
                    &&& e->Signed_address@ == bytes@.subrange(lp.1 + 1, a_end)
                    &&& e->Signed_signature@ == bytes@.subrange(a_end, s_end)
                }) by {
                assert(pos == lp.1 + 1);
                assert(e->Signed_address@ == bytes@.subrange(lp.1 + 1, p1 as int));
                assert(e->Signed_signature@ == bytes@.subrange(p1 as int, p2 as int));
                assert(lp.1 + 1 <= p1 as int <= p2 as int <= bytes@.len());
            }
            assert(portable_ok_content(m, bytes@, e));
        }
        return Ok(e);
    } else if version == 4 {
        let call_data = match decode_call_data_portable(bytes, pos, m) {
            Ok(cd) => cd,
            Err(e) => {
                return Err(e);
            },
        };
        return Ok(Extrinsic::Unsigned { call_data });
    } else {
        let sig_info = match m.signature_info() {
            Ok(si) => si,
            Err(e) => {
                return Err(DecodeError::Schema(e));
            },
        };
        let (signed_exts, p1) = match decode_extensions_portable(
            bytes,
            pos,
            &sig_info.signed_extension_ids,
            m,
        ) {
            Ok(ev) => ev,
            Err(e) => {
                return Err(e);
            },
        };
        let call_data = match decode_call_data_portable(bytes, p1, m) {
            Ok(cd) => cd,
            Err(e) => {
                return Err(e);
            },
        };
        let e = Extrinsic::General { signed_exts, call_data };
        proof {
            assert(e->General_call_data == call_data);
            assert(e->General_signed_exts == signed_exts);
            assert(exists|pi: u8, ci: u8|
                portable_call_data_matches(m, pi, ci, e->General_call_data)) by {
                assert(portable_call_data_matches(
                    m,
                    bytes@[p1 as int],
                    bytes@[p1 as int + 1],
                    e->General_call_data,
                ));
            }
            assert(portable_ok_content(m, bytes@, e));
        }
        Ok(e)
    }
}

/// Decode one value at type table entry `id` and hand back the exact bytes
/// it consumed.
fn decode_raw_value_portable(bytes: &[u8], pos: usize, id: u32, m: &PortableMetadata) -> (r: Result<
    (Vec<u8>, usize),
    DecodeError,
>)
    requires
        pos <= bytes@.len(),
    ensures
        r matches Ok(vp) ==> pos <= vp.1 <= bytes@.len() && vp.0@ == bytes@.subrange(
            pos as int,
            vp.1 as int,
        ),
{
    match decode_value_portable(bytes, pos, id, &m.registry) {
        Ok((_value, remaining)) => {
            let end = bytes.len() - remaining;
            let consumed = vstd::slice::slice_to_vec(vstd::slice::slice_subrange(bytes, pos, end));
            Ok((consumed, end))
        },
        Err(message) => Err(
            DecodeError::CannotDecodeValue { context: ("signature part").to_owned(), message },
        ),
    }
}

/// Decode each declared extension in schema order, keeping its name.
fn decode_extensions_portable(
    bytes: &[u8],
    pos: usize,
    exts: &Vec<Arg<u32>>,
    m: &PortableMetadata,
) -> (r: Result<(Vec<(String, scale_value::Value<String>)>, usize), DecodeError>)
    requires
        pos <= bytes@.len(),
    ensures
        r matches Ok(vp) ==> {
            &&& pos <= vp.1 <= bytes@.len()
            &&& vp.0@.len() == exts@.len()
            &&& forall|j: int| 0 <= j < exts@.len() ==> (#[trigger] vp.0@[j]).0@ == exts@[j].name@
        },
{
    let mut out: Vec<(String, scale_value::Value<String>)> = Vec::new();
    let mut p = pos;
    let mut j: usize = 0;
    while j < exts.len()
        invariant
            j <= exts@.len(),
            pos <= p <= bytes@.len(),
            out@.len() == j,
            forall|k: int| 0 <= k < j ==> (#[trigger] out@[k]).0@ == exts@[k].name@,
        decreases exts@.len() - j,
    {
        let ext = &exts[j];
        match decode_value_portable(bytes, p, ext.id, &m.registry) {
            Ok((value, remaining)) => {
                out.push((ext.name.clone(), value));
                p = bytes.len() - remaining;
            },
            Err(message) => {
                return Err(
                    DecodeError::CannotDecodeValue { context: ext.name.clone(), message },
                );
            },
        }
        j += 1;
    }
    Ok((out, p))
}

/// Read the pallet and call index bytes, resolve the call's schema, decode
/// each declared argument, and demand that nothing is left over.
#[verifier::rlimit(60)]
fn decode_call_data_portable(bytes: &[u8], pos: usize, m: &PortableMetadata) -> (r: Result<
    ExtrinsicCallData,
    DecodeError,
>)
    requires
        pos <= bytes@.len(),
    ensures
        r matches Ok(cd) ==> pos + 2 <= bytes@.len() && portable_call_data_matches(
            m,
            bytes@[pos as int],
            bytes@[pos as int + 1],
            cd,
        ),
        pos + 2 > bytes@.len() ==> r matches Err(DecodeError::CannotDecodeValue { .. }),
        pos + 2 <= bytes@.len() ==> portable_call_data_outcome(m, bytes@, pos as int, r),
{
    if bytes.len() - pos < 2 {
        return Err(
            DecodeError::CannotDecodeValue {
                context: ("call indices").to_owned(),
                message: ("not enough bytes for the pallet and call index").to_owned(),
            },
        );
    }
    let pallet_index = bytes[pos];
    let call_index = bytes[pos + 1];
    let info = match m.extrinsic_info(pallet_index, call_index) {
        Ok(info) => info,
        Err(e) => {
            return Err(DecodeError::Schema(e));
        },
    };
    let ghost pix = crate::extrinsic_type_info::find_pallet_by_index(
        m.pallets@,
        0,
        pallet_index,
    ).unwrap();
    let ghost pallet0 = m.pallets@[pix];
    let ghost ti = m.spec_resolve(pallet0.calls.unwrap()).unwrap();
    let ghost variants0 = m.types@[ti].def->Variant_variants;
    let ghost vi = crate::extrinsic_type_info::find_variant_by_index(
        variants0@,
        0,
        call_index,
    ).unwrap();
    let ghost v0 = variants0@[vi];
    proof {
        assert(v0.fields@.skip(0) =~= v0.fields@);
    }
    let mut args: Vec<(String, scale_value::Value<String>)> = Vec::new();
    let mut p = pos + 2;
    let mut j: usize = 0;
    while j < info.args.len()
        invariant
            pos + 2 <= bytes@.len(),
            pallet_index == bytes@[pos as int],
            call_index == bytes@[pos as int + 1],
            crate::extrinsic_type_info::find_pallet_by_index(m.pallets@, 0, pallet_index) == Some(
                pix,
            ),
            pallet0 == m.pallets@[pix],
            pallet0.calls matches Some(calls_id) && m.spec_resolve(calls_id) == Some(ti),
            m.types@[ti].def matches crate::metadata::TypeDefMeta::Variant { variants } && variants
                == variants0,
            crate::extrinsic_type_info::find_variant_by_index(variants0@, 0, call_index) == Some(
                vi,
            ),
            v0 == variants0@[vi],
            all_fields_named(v0.fields@),
            info.args@.len() == v0.fields@.len(),
            forall|k: int|
                0 <= k < v0.fields@.len() ==> {
                    &&& (#[trigger] info.args@[k]).name@ == v0.fields@[k].name.unwrap()@
                    &&& info.args@[k].id == v0.fields@[k].ty
                },
            j <= info.args@.len(),
            pos + 2 <= p <= bytes@.len(),
            args@.len() == j,
            forall|k: int| 0 <= k < j ==> (#[trigger] args@[k]).0@ == info.args@[k].name@,
            portable_args_end(&m.registry, bytes@, pos as int + 2, v0.fields@) == portable_args_end(
                &m.registry,
                bytes@,
                p as int,
                v0.fields@.skip(j as int),
            ),
        decreases info.args@.len() - j,
    {
        let a = &info.args[j];
        proof {
            assert(v0.fields@.skip(j as int)[0] == v0.fields@[j as int]);
            assert(v0.fields@.skip(j as int).drop_first() =~= v0.fields@.skip(j as int + 1));
        }
        match decode_value_portable(bytes, p, a.id, &m.registry) {
            Ok((value, remaining)) => {
                args.push((a.name.clone(), value));
                p = bytes.len() - remaining;
            },
            Err(message) => {
                proof {
                    assert(portable_decode_len(
                        &m.registry,
                        bytes@,
                        p as int,
                        v0.fields@[j as int].ty,
                    ) is None);
                    assert(portable_args_end(
                        &m.registry,
                        bytes@,
                        p as int,
                        v0.fields@.skip(j as int),
                    ) is None);
                }
                return Err(DecodeError::CannotDecodeValue { context: a.name.clone(), message });
            },
        }
        j += 1;
    }
    proof {
        assert(v0.fields@.skip(v0.fields@.len() as int) =~= Seq::<FieldMeta>::empty());
    }
    if p != bytes.len() {
        return Err(
            DecodeError::LeftoverBytes {
                pallet_name: info.pallet_name,
                call_name: info.call_name,
                args,
                leftover: bytes.len() - p,
            },
        );
    }
    Ok(ExtrinsicCallData { pallet_name: info.pallet_name, call_name: info.call_name, args })
}


} // verus!
