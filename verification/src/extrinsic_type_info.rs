//! Extracting, from either metadata family, the type ids needed to decode
//! an extrinsic: the call's argument schema for a `(pallet, call)` index
//! pair, and the address/signature/extension schema.

use crate::errors::SchemaError;
use crate::metadata::{
    ArgMeta, CallMeta, LegacyMetadata, ModuleMeta, PortableMetadata, TypeDefMeta, TypeParamMeta,
    VariantMeta,
};
use crate::type_resolver::{lookup_name_parses, parses_as_type_name};
use crate::utils::str_eq;
use vstd::prelude::*;

verus! {

/// A type named by a string, optionally scoped so that lookup may also use
/// types declared within the given pallet.
#[derive(Debug, Clone)]
pub struct LookupId {
    pub name: String,
    pub pallet: Option<String>,
}

/// One named value to decode: a call argument or a signed extension.
#[derive(Debug)]
pub struct Arg<TypeId> {
    pub name: String,
    pub id: TypeId,
}

/// The call-argument schema of one `(pallet, call)` pair.
#[derive(Debug)]
pub struct ExtrinsicInfo<TypeId> {
    pub pallet_name: String,
    pub call_name: String,
    pub args: Vec<Arg<TypeId>>,
}

/// The schema of a signed extrinsic's non-call parts.
#[derive(Debug)]
pub struct ExtrinsicSignatureInfo<TypeId> {
    pub address_id: TypeId,
    pub signature_id: TypeId,
    pub signed_extension_ids: Vec<Arg<TypeId>>,
}

/// This is implemented by both metadata families and is responsible for
/// extracting the type ids needed to decode extrinsics.
pub trait ExtrinsicTypeInfo {
    type TypeId;

    /// Get the information about a given extrinsic.
    fn get_extrinsic_info(&self, pallet_index: u8, call_index: u8) -> Result<
        ExtrinsicInfo<Self::TypeId>,
        SchemaError,
    >;

    /// Get the information needed to decode the extrinsic signature bytes.
    fn get_signature_info(&self) -> Result<ExtrinsicSignatureInfo<Self::TypeId>, SchemaError>;
}

/// The position, at or after `i`, of the `n`-th module that declares calls.
/// Layouts without explicit pallet indices select call pallets this way:
/// by position among the modules with calls, not among all modules.
pub open spec fn find_nth_call_module(modules: Seq<ModuleMeta>, i: int, n: int) -> Option<int>
    decreases modules.len() - i,
        when 0 <= i <= modules.len()
{
    if i >= modules.len() {
        None
    } else if modules[i].calls is Some {
        if n == 0 {
            Some(i)
        } else {
            find_nth_call_module(modules, i + 1, n - 1)
        }
    } else {
        find_nth_call_module(modules, i + 1, n)
    }
}

/// The position, at or after `i`, of the first module whose declared index
/// field is `n`. Layouts with explicit indices select call pallets this
/// way, ignoring declaration order.
pub open spec fn find_module_by_index(modules: Seq<ModuleMeta>, i: int, n: u8) -> Option<int>
    decreases modules.len() - i,
        when 0 <= i <= modules.len()
{
    if i >= modules.len() {
        None
    } else if modules[i].index == n {
        Some(i)
    } else {
        find_module_by_index(modules, i + 1, n)
    }
}

/// Every declared argument type name parses as a type path.
pub open spec fn all_args_parse(args: Seq<ArgMeta>) -> bool {
    forall|j: int| 0 <= j < args.len() ==> parses_as_type_name((#[trigger] args[j]).ty@)
}

/// Every declared signed-extension name parses as a type path.
pub open spec fn all_names_parse(names: Seq<String>) -> bool {
    forall|j: int| 0 <= j < names.len() ==> parses_as_type_name((#[trigger] names[j])@)
}

/// What a correct answer to a legacy call-schema lookup looks like: the
/// selected module's name, the selected call's name, and one argument per
/// declared argument, its type scoped to the module's pallet.
pub open spec fn legacy_info_matches(
    r: ExtrinsicInfo<LookupId>,
    m: ModuleMeta,
    call: CallMeta,
) -> bool {
    &&& r.pallet_name@ == m.name@
    &&& r.call_name@ == call.name@
    &&& r.args@.len() == call.args@.len()
    &&& forall|j: int|
        0 <= j < call.args@.len() ==> {
            &&& (#[trigger] r.args@[j]).name@ == call.args@[j].name@
            &&& r.args@[j].id.name@ == call.args@[j].ty@
            &&& r.args@[j].id.pallet matches Some(p) && p@ == m.name@
        }
}

/// Validate and scope a call's declared arguments: each type name must
/// parse, and each argument is looked up within the owning pallet.
fn legacy_args(call: &CallMeta, pallet_name: &String) -> (r: Result<Vec<Arg<LookupId>>, SchemaError>)
    ensures
        if all_args_parse(call.args@) {
            r matches Ok(args) && args@.len() == call.args@.len() && forall|j: int|
                0 <= j < call.args@.len() ==> {
                    &&& (#[trigger] args@[j]).name@ == call.args@[j].name@
                    &&& args@[j].id.name@ == call.args@[j].ty@
                    &&& args@[j].id.pallet matches Some(p) && p@ == pallet_name@
                }
        } else {
            r matches Err(SchemaError::InvalidTypeName { name }) && exists|j: int|
                0 <= j < call.args@.len() && name@ == (#[trigger] call.args@[j]).ty@
                    && !parses_as_type_name(call.args@[j].ty@)
        },
{
    let mut args: Vec<Arg<LookupId>> = Vec::new();
    let mut j: usize = 0;
    while j < call.args.len()
        invariant
            j <= call.args@.len(),
            args@.len() == j,
            forall|k: int| 0 <= k < j ==> parses_as_type_name((#[trigger] call.args@[k]).ty@),
            forall|k: int|
                0 <= k < j ==> {
                    &&& (#[trigger] args@[k]).name@ == call.args@[k].name@
                    &&& args@[k].id.name@ == call.args@[k].ty@
                    &&& args@[k].id.pallet matches Some(p) && p@ == pallet_name@
                },
        decreases call.args@.len() - j,
    {
        let a = &call.args[j];
        if !lookup_name_parses(a.ty.as_str()) {
            return Err(SchemaError::InvalidTypeName { name: a.ty.clone() });
        }
        args.push(
            Arg {
                name: a.name.clone(),
                id: LookupId { name: a.ty.clone(), pallet: Some(pallet_name.clone()) },
            },
        );
        j += 1;
    }
    Ok(args)
}

/// Validate the named signed extensions: each name must parse, and each
/// becomes an argument whose type is looked up by that same name.
fn named_extension_args(names: &Vec<String>) -> (r: Result<Vec<Arg<LookupId>>, SchemaError>)
    ensures
        if all_names_parse(names@) {
            r matches Ok(v) && v@.len() == names@.len() && forall|j: int|
                0 <= j < names@.len() ==> {
                    &&& (#[trigger] v@[j]).name@ == names@[j]@
                    &&& v@[j].id.name@ == names@[j]@
                    &&& v@[j].id.pallet is None
                }
        } else {
            r matches Err(SchemaError::InvalidTypeName { name }) && exists|j: int|
                0 <= j < names@.len() && name@ == (#[trigger] names@[j])@ && !parses_as_type_name(
                    names@[j]@,
                )
        },
{
    let mut v: Vec<Arg<LookupId>> = Vec::new();
    let mut j: usize = 0;
    while j < names.len()
        invariant
            j <= names@.len(),
            v@.len() == j,
            forall|k: int| 0 <= k < j ==> parses_as_type_name((#[trigger] names@[k])@),
            forall|k: int|
                0 <= k < j ==> {
                    &&& (#[trigger] v@[k]).name@ == names@[k]@
                    &&& v@[k].id.name@ == names@[k]@
                    &&& v@[k].id.pallet is None
                },
        decreases names@.len() - j,
    {
        let name = &names[j];
        if !lookup_name_parses(name.as_str()) {
            return Err(SchemaError::InvalidTypeName { name: name.clone() });
        }
        v.push(Arg { name: name.clone(), id: LookupId { name: name.clone(), pallet: None } });
        j += 1;
    }
    Ok(v)
}

/// Turn a call variant's fields into arguments; every field must be named.
fn variant_args(v: &VariantMeta, pallet_name: &String) -> (r: Result<Vec<Arg<u32>>, SchemaError>)
    ensures
        if all_fields_named(v.fields@) {
            r matches Ok(args) && args@.len() == v.fields@.len() && forall|j: int|
                0 <= j < v.fields@.len() ==> {
                    &&& (#[trigger] args@[j]).id == v.fields@[j].ty
                    &&& args@[j].name@ == v.fields@[j].name.unwrap()@
                }
        } else {
            r matches Err(SchemaError::UnnamedCallArgument { pallet, call }) && pallet@
                == pallet_name@ && call@ == v.name@
        },
{
    let mut args: Vec<Arg<u32>> = Vec::new();
    let mut j: usize = 0;
    while j < v.fields.len()
        invariant
            j <= v.fields@.len(),
            args@.len() == j,
            forall|k: int| 0 <= k < j ==> (#[trigger] v.fields@[k]).name is Some,
            forall|k: int|
                0 <= k < j ==> {
                    &&& (#[trigger] args@[k]).id == v.fields@[k].ty
                    &&& args@[k].name@ == v.fields@[k].name.unwrap()@
                },
        decreases v.fields@.len() - j,
    {
        let f = &v.fields[j];
        let name = match &f.name {
            Some(n) => n.clone(),
            None => {
                return Err(
                    SchemaError::UnnamedCallArgument {
                        pallet: pallet_name.clone(),
                        call: v.name.clone(),
                    },
                );
            },
        };
        args.push(Arg { name, id: f.ty });
        j += 1;
    }
    Ok(args)
}

/// Copy the declared signed extensions into arguments.
fn portable_extension_args(exts: &Vec<crate::metadata::SignedExtMeta>) -> (r: Vec<Arg<u32>>)
    ensures
        r@.len() == exts@.len(),
        forall|j: int|
            0 <= j < exts@.len() ==> {
                &&& (#[trigger] r@[j]).name@ == exts@[j].name@
                &&& r@[j].id == exts@[j].ty
            },
{
    let mut v: Vec<Arg<u32>> = Vec::new();
    let mut j: usize = 0;
    while j < exts.len()
        invariant
            j <= exts@.len(),
            v@.len() == j,
            forall|k: int|
                0 <= k < j ==> {
                    &&& (#[trigger] v@[k]).name@ == exts@[k].name@
                    &&& v@[k].id == exts@[k].ty
                },
        decreases exts@.len() - j,
    {
        let e = &exts[j];
        v.push(Arg { name: e.name.clone(), id: e.ty });
        j += 1;
    }
    v
}

impl LegacyMetadata {
    /// Select the module a call-pallet index names under this document's
    /// indexing rule.
    pub open spec fn spec_select_module(&self, pallet_index: u8) -> Option<int> {
        if self.explicit_indices {
            find_module_by_index(self.modules@, 0, pallet_index)
        } else {
            find_nth_call_module(self.modules@, 0, pallet_index as int)
        }
    }

    fn select_module(&self, pallet_index: u8) -> (r: Option<usize>)
        ensures
            match self.spec_select_module(pallet_index) {
                Some(i) => 0 <= i < self.modules@.len() && (r matches Some(u) && u == i),
                None => r is None,
            },
    {
        if self.explicit_indices {
            let mut i: usize = 0;
            while i < self.modules.len()
                invariant
                    self.explicit_indices,
                    i <= self.modules@.len(),
                    find_module_by_index(self.modules@, 0, pallet_index) == find_module_by_index(
                        self.modules@,
                        i as int,
                        pallet_index,
                    ),
                decreases self.modules@.len() - i,
            {
                if self.modules[i].index == pallet_index {
                    return Some(i);
                }
                i += 1;
            }
            None
        } else {
            let mut i: usize = 0;
            let mut remaining: u8 = pallet_index;
            while i < self.modules.len()
                invariant
                    !self.explicit_indices,
                    i <= self.modules@.len(),
                    remaining <= pallet_index,
                    find_nth_call_module(self.modules@, 0, pallet_index as int)
                        == find_nth_call_module(self.modules@, i as int, remaining as int),
                decreases self.modules@.len() - i,
            {
                if self.modules[i].calls.is_some() {
                    if remaining == 0 {
                        return Some(i);
                    }
                    remaining -= 1;
                }
                i += 1;
            }
            None
        }
    }

    /// The call-argument schema for a `(pallet, call)` index pair. Fails
    /// when no module answers to the pallet index, the module declares no
    /// calls, the call index is out of range, or an argument's type name
    /// does not parse.
    pub fn extrinsic_info(&self, pallet_index: u8, call_index: u8) -> (r: Result<
        ExtrinsicInfo<LookupId>,
        SchemaError,
    >)
        ensures
            match self.spec_select_module(pallet_index) {
                None => r == Err::<ExtrinsicInfo<LookupId>, SchemaError>(
                    SchemaError::PalletIndexNotFound { index: pallet_index },
                ),
                Some(mi) => {
                    let m = self.modules@[mi];
                    match m.calls {
                        None => r matches Err(SchemaError::NoCallsInPallet { pallet }) && pallet@
                            == m.name@,
                        Some(calls) => {
                            if call_index as int >= calls@.len() {
                                r matches Err(SchemaError::CallNotFound { pallet, index })
                                    && pallet@ == m.name@ && index == call_index
                            } else {
                                let call = calls@[call_index as int];
                                if all_args_parse(call.args@) {
                                    r matches Ok(info) && legacy_info_matches(info, m, call)
                                } else {
                                    r matches Err(SchemaError::InvalidTypeName { name })
                                        && exists|j: int|
                                        0 <= j < call.args@.len() && name@ == (#[trigger] call.args@[j]).ty@
                                            && !parses_as_type_name(call.args@[j].ty@)
                                }
                            }
                        },
                    }
                },
            },
    {
        let mi = match self.select_module(pallet_index) {
            Some(mi) => mi,
            None => {
                return Err(SchemaError::PalletIndexNotFound { index: pallet_index });
            },
        };
        let m = &self.modules[mi];
        let calls = match &m.calls {
            Some(calls) => calls,
            None => {
                return Err(SchemaError::NoCallsInPallet { pallet: m.name.clone() });
            },
        };
        if call_index as usize >= calls.len() {
            return Err(SchemaError::CallNotFound { pallet: m.name.clone(), index: call_index });
        }
        let call = &calls[call_index as usize];
        let args = match legacy_args(call, &m.name) {
            Ok(args) => args,
            Err(e) => {
                return Err(e);
            },
        };
        Ok(ExtrinsicInfo { pallet_name: m.name.clone(), call_name: call.name.clone(), args })
    }

    /// The signature schema. Documents that do not name their signed
    /// extensions use one hand-authored `hardcoded::ExtrinsicSignedExtensions`
    /// type; later ones list each extension's type name, which must parse.
    pub fn signature_info(&self) -> (r: Result<ExtrinsicSignatureInfo<LookupId>, SchemaError>)
        ensures
            ({
                let hardcoded_ids = {
                    &&& r matches Ok(s) ==> s.address_id.name@ == "hardcoded::ExtrinsicAddress"@
                        && s.address_id.pallet is None && s.signature_id.name@
                        == "hardcoded::ExtrinsicSignature"@ && s.signature_id.pallet is None
                };
                if !self.named_extensions {
                    &&& hardcoded_ids
                    &&& r matches Ok(s) && s.signed_extension_ids@.len() == 1
                        && s.signed_extension_ids@[0].name@ == "ExtrinsicSignedExtensions"@
                        && s.signed_extension_ids@[0].id.name@
                        == "hardcoded::ExtrinsicSignedExtensions"@
                        && s.signed_extension_ids@[0].id.pallet is None
                } else if all_names_parse(self.signed_extensions@) {
                    &&& hardcoded_ids
                    &&& r matches Ok(s) && s.signed_extension_ids@.len()
                        == self.signed_extensions@.len() && forall|j: int|
                        0 <= j < self.signed_extensions@.len() ==> {
                            &&& (#[trigger] s.signed_extension_ids@[j]).name@
                                == self.signed_extensions@[j]@
                            &&& s.signed_extension_ids@[j].id.name@ == self.signed_extensions@[j]@
                            &&& s.signed_extension_ids@[j].id.pallet is None
                        }
                } else {
                    r matches Err(SchemaError::InvalidTypeName { name }) && exists|j: int|
                        0 <= j < self.signed_extensions@.len() && name@ == (
                        #[trigger] self.signed_extensions@[j])@ && !parses_as_type_name(
                            self.signed_extensions@[j]@,
                        )
                }
            }),
    {
        let signed_extension_ids: Vec<Arg<LookupId>> = if !self.named_extensions {
            let mut v: Vec<Arg<LookupId>> = Vec::new();
            v.push(
                Arg {
                    name: ("ExtrinsicSignedExtensions").to_owned(),
                    id: LookupId {
                        name: ("hardcoded::ExtrinsicSignedExtensions").to_owned(),
                        pallet: None,
                    },
                },
            );
            v
        } else {
            match named_extension_args(&self.signed_extensions) {
                Ok(v) => v,
                Err(e) => {
                    return Err(e);
                },
            }
        };
        Ok(
            ExtrinsicSignatureInfo {
                address_id: LookupId { name: ("hardcoded::ExtrinsicAddress").to_owned(), pallet: None },
                signature_id: LookupId {
                    name: ("hardcoded::ExtrinsicSignature").to_owned(),
                    pallet: None,
                },
                signed_extension_ids,
            },
        )
    }
}

impl ExtrinsicTypeInfo for LegacyMetadata {
    type TypeId = LookupId;

    fn get_extrinsic_info(&self, pallet_index: u8, call_index: u8) -> Result<
        ExtrinsicInfo<LookupId>,
        SchemaError,
    > {
        self.extrinsic_info(pallet_index, call_index)
    }

    fn get_signature_info(&self) -> Result<ExtrinsicSignatureInfo<LookupId>, SchemaError> {
        self.signature_info()
    }
}

/// The position, at or after `i`, of the first portable pallet whose index
/// field is `n`.
pub open spec fn find_pallet_by_index(
    pallets: Seq<crate::metadata::PortablePalletMeta>,
    i: int,
    n: u8,
) -> Option<int>
    decreases pallets.len() - i,
        when 0 <= i <= pallets.len()
{
    if i >= pallets.len() {
        None
    } else if pallets[i].index == n {
        Some(i)
    } else {
        find_pallet_by_index(pallets, i + 1, n)
    }
}

/// The position, at or after `i`, of the first variant whose tag is `n`.
pub open spec fn find_variant_by_index(variants: Seq<VariantMeta>, i: int, n: u8) -> Option<int>
    decreases variants.len() - i,
        when 0 <= i <= variants.len()
{
    if i >= variants.len() {
        None
    } else if variants[i].index == n {
        Some(i)
    } else {
        find_variant_by_index(variants, i + 1, n)
    }
}

/// Every field of the call variant carries a name.
pub open spec fn all_fields_named(fields: Seq<crate::metadata::FieldMeta>) -> bool {
    forall|j: int| 0 <= j < fields.len() ==> (#[trigger] fields[j]).name is Some
}

/// The position, at or after `i`, of the first type parameter with the
/// given name.
pub open spec fn find_param(params: Seq<TypeParamMeta>, i: int, name: Seq<char>) -> Option<int>
    decreases params.len() - i,
        when 0 <= i <= params.len()
{
    if i >= params.len() {
        None
    } else if params[i].name@ == name {
        Some(i)
    } else {
        find_param(params, i + 1, name)
    }
}

impl PortableMetadata {
    /// The call-argument schema for a `(pallet, call)` index pair. The
    /// pallet is selected by its declared index; its calls type must be a
    /// tagged union in the type table; the call is the variant whose tag is
    /// the call index, and its named fields are the arguments in
    /// declaration order.
    pub fn extrinsic_info(&self, pallet_index: u8, call_index: u8) -> (r: Result<
        ExtrinsicInfo<u32>,
        SchemaError,
    >)
        ensures
            match find_pallet_by_index(self.pallets@, 0, pallet_index) {
                None => r == Err::<ExtrinsicInfo<u32>, SchemaError>(
                    SchemaError::PalletIndexNotFound { index: pallet_index },
                ),
                Some(pi) => {
                    let pallet = self.pallets@[pi];
                    match pallet.calls {
                        None => r matches Err(SchemaError::NoCallsInPallet { pallet: p }) && p@
                            == pallet.name@,
                        Some(calls_id) => match self.spec_resolve(calls_id) {
                            None => r matches Err(SchemaError::TypeNotFound { id }) && id
                                == calls_id,
                            Some(ti) => match self.types@[ti].def {
                                TypeDefMeta::Variant { variants } => match find_variant_by_index(
                                    variants@,
                                    0,
                                    call_index,
                                ) {
                                    None => r matches Err(SchemaError::CallNotFound {
                                        pallet: p,
                                        index,
                                    }) && p@ == pallet.name@ && index == call_index,
                                    Some(vi) => {
                                        let v = variants@[vi];
                                        if all_fields_named(v.fields@) {
                                            r matches Ok(info) && info.pallet_name@ == pallet.name@
                                                && info.call_name@ == v.name@ && info.args@.len()
                                                == v.fields@.len() && forall|j: int|
                                                0 <= j < v.fields@.len() ==> {
                                                    &&& (#[trigger] info.args@[j]).id
                                                        == v.fields@[j].ty
                                                    &&& info.args@[j].name@
                                                        == v.fields@[j].name.unwrap()@
                                                }
                                        } else {
                                            r matches Err(SchemaError::UnnamedCallArgument {
                                                pallet: p,
                                                call,
                                            }) && p@ == pallet.name@ && call@ == v.name@
                                        }
                                    },
                                },
                                _ => r matches Err(SchemaError::CallsTypeNotVariant { pallet: p })
                                    && p@ == pallet.name@,
                            },
                        },
                    }
                },
            },
    {
        let pi = match self.find_pallet(pallet_index) {
            Some(pi) => pi,
            None => {
                return Err(SchemaError::PalletIndexNotFound { index: pallet_index });
            },
        };
        let pallet = &self.pallets[pi];
        let calls_id = match &pallet.calls {
            Some(id) => *id,
            None => {
                return Err(SchemaError::NoCallsInPallet { pallet: pallet.name.clone() });
            },
        };
        let calls_ty = match self.resolve(calls_id) {
            Some(t) => t,
            None => {
                return Err(SchemaError::TypeNotFound { id: calls_id });
            },
        };
        let variants = match &calls_ty.def {
            TypeDefMeta::Variant { variants } => variants,
            _ => {
                return Err(SchemaError::CallsTypeNotVariant { pallet: pallet.name.clone() });
            },
        };
        let found = Self::find_variant(variants, call_index);
        let v = match found {
            Some(i) => &variants[i],
            None => {
                return Err(
                    SchemaError::CallNotFound { pallet: pallet.name.clone(), index: call_index },
                );
            },
        };
        let args = match variant_args(v, &pallet.name) {
            Ok(args) => args,
            Err(e) => {
                return Err(e);
            },
        };
        Ok(ExtrinsicInfo { pallet_name: pallet.name.clone(), call_name: v.name.clone(), args })
    }

    fn find_variant(variants: &Vec<VariantMeta>, n: u8) -> (r: Option<usize>)
        ensures
            match find_variant_by_index(variants@, 0, n) {
                Some(i) => 0 <= i < variants@.len() && (r matches Some(u) && u == i),
                None => r is None,
            },
    {
        let mut i: usize = 0;
        while i < variants.len()
            invariant
                i <= variants@.len(),
                find_variant_by_index(variants@, 0, n) == find_variant_by_index(
                    variants@,
                    i as int,
                    n,
                ),
            decreases variants@.len() - i,
        {
            if variants[i].index == n {
                return Some(i);
            }
            i += 1;
        }
        None
    }

    /// The name of the first type parameter that is not bound to a type.
    fn first_unbound_param(params: &Vec<TypeParamMeta>) -> (r: Option<String>)
        ensures
            match r {
                Some(_) => exists|j: int|
                    0 <= j < params@.len() && (#[trigger] params@[j]).ty is None,
                None => forall|j: int|
                    0 <= j < params@.len() ==> (#[trigger] params@[j]).ty is Some,
            },
    {
        let mut j: usize = 0;
        while j < params.len()
            invariant
                j <= params@.len(),
                forall|k: int| 0 <= k < j ==> (#[trigger] params@[k]).ty is Some,
            decreases params@.len() - j,
        {
            if params[j].ty.is_none() {
                return Some(params[j].name.clone());
            }
            j += 1;
        }
        None
    }

    fn find_pallet(&self, n: u8) -> (r: Option<usize>)
        ensures
            match find_pallet_by_index(self.pallets@, 0, n) {
                Some(i) => 0 <= i < self.pallets@.len() && (r matches Some(u) && u == i),
                None => r is None,
            },
    {
        let mut i: usize = 0;
        while i < self.pallets.len()
            invariant
                i <= self.pallets@.len(),
                find_pallet_by_index(self.pallets@, 0, n) == find_pallet_by_index(
                    self.pallets@,
                    i as int,
                    n,
                ),
            decreases self.pallets@.len() - i,
        {
            if self.pallets[i].index == n {
                return Some(i);
            }
            i += 1;
        }
        None
    }

    /// The signature schema. Where the document gives the address and
    /// signature types directly they are used; otherwise they are read off
    /// the `Address` and `Signature` parameters of the extrinsic type,
    /// every parameter of which must be bound.
    pub fn signature_info(&self) -> (r: Result<ExtrinsicSignatureInfo<u32>, SchemaError>)
        ensures
            ({
                let exts_match = {
                    r matches Ok(s) ==> s.signed_extension_ids@.len()
                        == self.extrinsic.signed_extensions@.len() && forall|j: int|
                        0 <= j < self.extrinsic.signed_extensions@.len() ==> {
                            &&& (#[trigger] s.signed_extension_ids@[j]).name@
                                == self.extrinsic.signed_extensions@[j].name@
                            &&& s.signed_extension_ids@[j].id
                                == self.extrinsic.signed_extensions@[j].ty
                        }
                };
                match (self.extrinsic.address_ty, self.extrinsic.signature_ty) {
                    (Some(a), Some(s_ty)) => exts_match && (r matches Ok(s) && s.address_id == a
                        && s.signature_id == s_ty),
                    _ => match self.spec_resolve(self.extrinsic.ty) {
                        None => r matches Err(SchemaError::TypeNotFound { id }) && id
                            == self.extrinsic.ty,
                        Some(ti) => {
                            let params = self.types@[ti].params;
                            if exists|j: int|
                                0 <= j < params@.len() && (#[trigger] params@[j]).ty is None {
                                r matches Err(SchemaError::MissingTypeParam { .. })
                            } else {
                                match (
                                    find_param(params@, 0, "Address"@),
                                    find_param(params@, 0, "Signature"@),
                                ) {
                                    (Some(ai), Some(si)) => exts_match && (r matches Ok(s)
                                        && s.address_id == params@[ai].ty.unwrap()
                                        && s.signature_id == params@[si].ty.unwrap()),
                                    _ => r matches Err(SchemaError::MissingTypeParam { .. }),
                                }
                            }
                        },
                    },
                }
            }),
    {
        let (address_id, signature_id) = match (&self.extrinsic.address_ty, &self.extrinsic.signature_ty) {
            (Some(a), Some(s)) => (*a, *s),
            _ => {
                let ext_ty = match self.resolve(self.extrinsic.ty) {
                    Some(t) => t,
                    None => {
                        return Err(SchemaError::TypeNotFound { id: self.extrinsic.ty });
                    },
                };
                match Self::first_unbound_param(&ext_ty.params) {
                    Some(name) => {
                        return Err(SchemaError::MissingTypeParam { name });
                    },
                    None => {},
                }
                let address = match Self::param_named(&ext_ty.params, "Address") {
                    Some(i) => match ext_ty.params[i].ty {
                        Some(t) => t,
                        None => {
                            return Err(
                                SchemaError::MissingTypeParam { name: ("Address").to_owned() },
                            );
                        },
                    },
                    None => {
                        return Err(SchemaError::MissingTypeParam { name: ("Address").to_owned() });
                    },
                };
                let signature = match Self::param_named(&ext_ty.params, "Signature") {
                    Some(i) => match ext_ty.params[i].ty {
                        Some(t) => t,
                        None => {
                            return Err(
                                SchemaError::MissingTypeParam { name: ("Signature").to_owned() },
                            );
                        },
                    },
                    None => {
                        return Err(
                            SchemaError::MissingTypeParam { name: ("Signature").to_owned() },
                        );
                    },
                };
                (address, signature)
            },
        };
        let signed_extension_ids = portable_extension_args(&self.extrinsic.signed_extensions);
        Ok(ExtrinsicSignatureInfo { address_id, signature_id, signed_extension_ids })
    }

    fn param_named(params: &Vec<TypeParamMeta>, name: &str) -> (r: Option<usize>)
        ensures
            match find_param(params@, 0, name@) {
                Some(i) => 0 <= i < params@.len() && (r matches Some(u) && u == i),
                None => r is None,
            },
    {
        let mut i: usize = 0;
        while i < params.len()
            invariant
                i <= params@.len(),
                find_param(params@, 0, name@) == find_param(params@, i as int, name@),
            decreases params@.len() - i,
        {
            if str_eq(params[i].name.as_str(), name) {
                return Some(i);
            }
            i += 1;
        }
        None
    }
}

impl ExtrinsicTypeInfo for PortableMetadata {
    type TypeId = u32;

    fn get_extrinsic_info(&self, pallet_index: u8, call_index: u8) -> Result<
        ExtrinsicInfo<u32>,
        SchemaError,
    > {
        self.extrinsic_info(pallet_index, call_index)
    }

    fn get_signature_info(&self) -> Result<ExtrinsicSignatureInfo<u32>, SchemaError> {
        self.signature_info()
    }
}

} // verus!
