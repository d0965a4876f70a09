//! Synthesising call and event types from a legacy metadata document, so
//! that wrapper calls (a batch of inner calls, say) can resolve their
//! nested call argument types without hand-authored definitions.
//!
//! For every module with calls, one tagged-union type is built per the
//! module's calls (fields are the declared arguments, each looked up within
//! the module), one matching type per the module's events, and one
//! top-level union each for calls and events, keyed by module. The result
//! is handed to the binary around the library, which registers it at
//! lowest priority under the names carried here.

use crate::errors::SchemaError;
use crate::extrinsic_type_info::{all_args_parse, all_names_parse, LookupId};
use crate::metadata::{CallMeta, EventMeta, LegacyMetadata, Metadata, ModuleMeta};
use crate::type_resolver::{lookup_name_parses, parses_as_type_name};
use vstd::prelude::*;

verus! {

use vstd::string::StringExecFns;

/// One named field of a synthesised variant.
#[derive(Debug)]
pub struct SyntheticField {
    pub name: String,
    pub value: LookupId,
}

/// The payload of a synthesised variant: named fields for calls, unnamed
/// ones for events and for the module unions.
#[derive(Debug)]
pub enum SyntheticVariantFields {
    StructOf(Vec<SyntheticField>),
    TupleOf(Vec<LookupId>),
}

/// One variant of a synthesised tagged-union type.
#[derive(Debug)]
pub struct SyntheticVariant {
    pub index: u8,
    pub name: String,
    pub fields: SyntheticVariantFields,
}

/// One synthesised type: a tagged union registered under `name`.
#[derive(Debug)]
pub struct SyntheticType {
    pub name: String,
    pub variants: Vec<SyntheticVariant>,
}

/// Everything synthesised from one metadata document.
#[derive(Debug)]
pub struct SyntheticRegistry {
    /// One type per module with calls, named `builtin::module::call::{module}`.
    pub call_enums: Vec<SyntheticType>,
    /// One type per module with calls that also declares events, named
    /// `builtin::module::event::{module}`.
    pub event_enums: Vec<SyntheticType>,
    /// The variants of the top-level `builtin::Call` union.
    pub call_type: Vec<SyntheticVariant>,
    /// The variants of the top-level `builtin::Event` union.
    pub event_type: Vec<SyntheticVariant>,
}

/// Every argument of every call parses as a type path.
pub open spec fn all_call_args_parse(calls: Seq<CallMeta>) -> bool {
    forall|c: int| 0 <= c < calls.len() ==> all_args_parse((#[trigger] calls[c]).args@)
}

/// Every argument of every event parses as a type path.
pub open spec fn all_event_args_parse(events: Seq<EventMeta>) -> bool {
    forall|c: int| 0 <= c < events.len() ==> all_names_parse((#[trigger] events[c]).args@)
}

/// Every type name the synthesis would look up for this module parses:
/// all call arguments and, for call-bearing modules, all event arguments.
pub open spec fn module_synth_names_parse(md: ModuleMeta) -> bool {
    match md.calls {
        None => true,
        Some(calls) => all_call_args_parse(calls@) && match md.events {
            None => true,
            Some(events) => all_event_args_parse(events@),
        },
    }
}

/// Every type name the synthesis would look up parses.
pub open spec fn all_synth_names_parse(modules: Seq<ModuleMeta>) -> bool {
    forall|i: int| 0 <= i < modules.len() ==> module_synth_names_parse(#[trigger] modules[i])
}

/// The positions of the modules that declare calls.
pub open spec fn call_module_positions(modules: Seq<ModuleMeta>) -> Seq<int>
    decreases modules.len(),
{
    if modules.len() == 0 {
        Seq::empty()
    } else {
        let rest = call_module_positions(modules.drop_last());
        if modules.last().calls is Some {
            rest.push(modules.len() - 1)
        } else {
            rest
        }
    }
}

/// The positions of the modules that declare calls and also events.
pub open spec fn event_module_positions(modules: Seq<ModuleMeta>) -> Seq<int>
    decreases modules.len(),
{
    if modules.len() == 0 {
        Seq::empty()
    } else {
        let rest = event_module_positions(modules.drop_last());
        if modules.last().calls is Some && modules.last().events is Some {
            rest.push(modules.len() - 1)
        } else {
            rest
        }
    }
}

/// The union-variant tag a module's entry carries: its declared index field
/// where the layout has explicit indices, else its position among the
/// modules with calls (truncated to a byte, as the historic layouts do).
pub open spec fn assigned_module_index(m: &LegacyMetadata, p: int) -> u8 {
    if m.explicit_indices {
        m.modules@[p].index
    } else {
        call_module_positions(m.modules@.take(p)).len() as u8
    }
}

/// The synthesised call variants mirror the declared calls one for one.
pub open spec fn call_variants_match(
    variants: Seq<SyntheticVariant>,
    calls: Seq<CallMeta>,
    pallet: Seq<char>,
) -> bool {
    &&& variants.len() == calls.len()
    &&& forall|c: int|
        0 <= c < calls.len() ==> {
            &&& (#[trigger] variants[c]).index == c as u8
            &&& variants[c].name@ == calls[c].name@
            &&& variants[c].fields matches SyntheticVariantFields::StructOf(fs) && fs@.len()
                == calls[c].args@.len() && (forall|a: int|
                0 <= a < calls[c].args@.len() ==> {
                    &&& (#[trigger] fs@[a]).name@ == calls[c].args@[a].name@
                    &&& fs@[a].value.name@ == calls[c].args@[a].ty@
                    &&& fs@[a].value.pallet matches Some(pn) && pn@ == pallet
                })
        }
}

/// The synthesised event variants mirror the declared events one for one.
pub open spec fn event_variants_match(
    variants: Seq<SyntheticVariant>,
    events: Seq<EventMeta>,
    pallet: Seq<char>,
) -> bool {
    &&& variants.len() == events.len()
    &&& forall|c: int|
        0 <= c < events.len() ==> {
            &&& (#[trigger] variants[c]).index == c as u8
            &&& variants[c].name@ == events[c].name@
            &&& variants[c].fields matches SyntheticVariantFields::TupleOf(ids) && ids@.len()
                == events[c].args@.len() && (forall|a: int|
                0 <= a < events[c].args@.len() ==> {
                    &&& (#[trigger] ids@[a]).name@ == events[c].args@[a]@
                    &&& ids@[a].pallet matches Some(pn) && pn@ == pallet
                })
        }
}

/// The synthesised per-module call type for module `md`.
pub open spec fn call_enum_matches(t: SyntheticType, md: ModuleMeta) -> bool {
    &&& t.name@ == "builtin::module::call::"@ + md.name@
    &&& md.calls matches Some(calls) && call_variants_match(t.variants@, calls@, md.name@)
}

/// The synthesised per-module event type for module `md`.
pub open spec fn event_enum_matches(t: SyntheticType, md: ModuleMeta) -> bool {
    &&& t.name@ == "builtin::module::event::"@ + md.name@
    &&& md.events matches Some(events) && event_variants_match(t.variants@, events@, md.name@)
}

/// A module's entry in a top-level union: the module's name under its
/// assigned tag, holding one unnamed reference to the per-module type.
pub open spec fn union_entry_matches(
    v: SyntheticVariant,
    md: ModuleMeta,
    assigned: u8,
    prefix: Seq<char>,
) -> bool {
    &&& v.index == assigned
    &&& v.name@ == md.name@
    &&& v.fields matches SyntheticVariantFields::TupleOf(ids) && ids@.len() == 1
        && ids@[0].name@ == prefix + md.name@ && ids@[0].pallet is None
}

/// Everything a correct synthesis holds for a legacy document.
pub open spec fn synthesis_matches(reg: SyntheticRegistry, m: &LegacyMetadata) -> bool {
    let pos = call_module_positions(m.modules@);
    let epos = event_module_positions(m.modules@);
    &&& reg.call_enums@.len() == pos.len()
    &&& forall|k: int|
        0 <= k < pos.len() ==> call_enum_matches(
            #[trigger] reg.call_enums@[k],
            m.modules@[pos[k]],
        )
    &&& reg.call_type@.len() == pos.len()
    &&& forall|k: int|
        0 <= k < pos.len() ==> union_entry_matches(
            #[trigger] reg.call_type@[k],
            m.modules@[pos[k]],
            assigned_module_index(m, pos[k]),
            "builtin::module::call::"@,
        )
    &&& reg.event_enums@.len() == epos.len()
    &&& forall|k: int|
        0 <= k < epos.len() ==> event_enum_matches(
            #[trigger] reg.event_enums@[k],
            m.modules@[epos[k]],
        )
    &&& reg.event_type@.len() == epos.len()
    &&& forall|k: int|
        0 <= k < epos.len() ==> union_entry_matches(
            #[trigger] reg.event_type@[k],
            m.modules@[epos[k]],
            assigned_module_index(m, epos[k]),
            "builtin::module::event::"@,
        )
}

/// Derive the synthetic call and event types from the metadata. Only the
/// legacy family has anything to synthesise; a portable document resolves
/// nested calls through its own type table, so it contributes nothing.
/// Fails exactly as the per-module builders do: on an argument type name
/// that does not parse.
pub fn extend_with_metadata_info(metadata: &Metadata) -> (r: Result<SyntheticRegistry, SchemaError>)
    ensures
        metadata.spec_as_legacy() matches Some(m) ==> (r matches Ok(reg) ==> synthesis_matches(
            reg,
            m,
        )),
        metadata.spec_as_legacy() matches Some(m) ==> (r is Ok <==> all_synth_names_parse(
            m.modules@,
        )),
        metadata.spec_as_legacy() matches Some(m) ==> (!all_synth_names_parse(m.modules@)
            ==> r matches Err(SchemaError::InvalidTypeName { .. })),
        metadata.spec_as_portable() is Some ==> (r matches Ok(reg) && reg.call_enums@.len() == 0
            && reg.event_enums@.len() == 0 && reg.call_type@.len() == 0 && reg.event_type@.len()
            == 0),
{
    match metadata {
        Metadata::V8(m) => synthesize_legacy(m),
        Metadata::V9(m) => synthesize_legacy(m),
        Metadata::V10(m) => synthesize_legacy(m),
        Metadata::V11(m) => synthesize_legacy(m),
        Metadata::V12(m) => synthesize_legacy(m),
        Metadata::V13(m) => synthesize_legacy(m),
        _ => Ok(
            SyntheticRegistry {
                call_enums: Vec::new(),
                event_enums: Vec::new(),
                call_type: Vec::new(),
                event_type: Vec::new(),
            },
        ),
    }
}

fn synthesize_legacy(m: &LegacyMetadata) -> (r: Result<SyntheticRegistry, SchemaError>)
    ensures
        r matches Ok(reg) ==> synthesis_matches(reg, m),
        r is Ok <==> all_synth_names_parse(m.modules@),
        !all_synth_names_parse(m.modules@) ==> r matches Err(SchemaError::InvalidTypeName { .. }),
{
    let mut call_enums: Vec<SyntheticType> = Vec::new();
    let mut event_enums: Vec<SyntheticType> = Vec::new();
    let mut call_type: Vec<SyntheticVariant> = Vec::new();
    let mut event_type: Vec<SyntheticVariant> = Vec::new();
    let mut i: usize = 0;
    while i < m.modules.len()
        invariant
            i <= m.modules@.len(),
            call_enums@.len() == call_module_positions(m.modules@.take(i as int)).len(),
            call_type@.len() == call_enums@.len(),
            event_enums@.len() == event_module_positions(m.modules@.take(i as int)).len(),
            event_type@.len() == event_enums@.len(),
            forall|k: int| 0 <= k < i ==> module_synth_names_parse(#[trigger] m.modules@[k]),
            forall|k: int|
                0 <= k < call_enums@.len() ==> call_enum_matches(
                    #[trigger] call_enums@[k],
                    m.modules@[call_module_positions(m.modules@.take(i as int))[k]],
                ),
            forall|k: int|
                0 <= k < call_enums@.len() ==> union_entry_matches(
                    #[trigger] call_type@[k],
                    m.modules@[call_module_positions(m.modules@.take(i as int))[k]],
                    assigned_module_index(
                        m,
                        call_module_positions(m.modules@.take(i as int))[k],
                    ),
                    "builtin::module::call::"@,
                ),
            forall|k: int|
                0 <= k < event_enums@.len() ==> event_enum_matches(
                    #[trigger] event_enums@[k],
                    m.modules@[event_module_positions(m.modules@.take(i as int))[k]],
                ),
            forall|k: int|
                0 <= k < event_enums@.len() ==> union_entry_matches(
                    #[trigger] event_type@[k],
                    m.modules@[event_module_positions(m.modules@.take(i as int))[k]],
                    assigned_module_index(
                        m,
                        event_module_positions(m.modules@.take(i as int))[k],
                    ),
                    "builtin::module::event::"@,
                ),
        decreases m.modules@.len() - i,
    {
        let md = &m.modules[i];
        proof {
            assert(m.modules@.take(i as int + 1).drop_last() =~= m.modules@.take(i as int));
            assert(m.modules@.take(i as int + 1).last() == m.modules@[i as int]);
        }
        match &md.calls {
            None => {},
            Some(calls) => {
                let assigned: u8 = if m.explicit_indices {
                    md.index
                } else {
                    #[verifier::truncate]
                    (call_enums.len() as u8)
                };
                proof {
                    assert(assigned == assigned_module_index(m, i as int));
                }
                let call_enum_name = ("builtin::module::call::").to_owned().concat(
                    md.name.as_str(),
                );
                let variants = match synth_call_variants(calls, &md.name) {
                    Ok(vs) => vs,
                    Err(e) => {
                        proof {
                            assert(!module_synth_names_parse(m.modules@[i as int]));
                        }
                        return Err(e);
                    },
                };
                call_enums.push(SyntheticType { name: call_enum_name, variants });
                let mut ref_ids: Vec<LookupId> = Vec::new();
                ref_ids.push(
                    LookupId {
                        name: ("builtin::module::call::").to_owned().concat(md.name.as_str()),
                        pallet: None,
                    },
                );
                call_type.push(
                    SyntheticVariant {
                        index: assigned,
                        name: md.name.clone(),
                        fields: SyntheticVariantFields::TupleOf(ref_ids),
                    },
                );
                match &md.events {
                    None => {},
                    Some(events) => {
                        let event_enum_name = ("builtin::module::event::").to_owned().concat(
                            md.name.as_str(),
                        );
                        let variants = match synth_event_variants(events, &md.name) {
                            Ok(vs) => vs,
                            Err(e) => {
                                proof {
                                    assert(!module_synth_names_parse(m.modules@[i as int]));
                                }
                                return Err(e);
                            },
                        };
                        event_enums.push(SyntheticType { name: event_enum_name, variants });
                        let mut eref_ids: Vec<LookupId> = Vec::new();
                        eref_ids.push(
                            LookupId {
                                name: ("builtin::module::event::").to_owned().concat(
                                    md.name.as_str(),
                                ),
                                pallet: None,
                            },
                        );
                        event_type.push(
                            SyntheticVariant {
                                index: assigned,
                                name: md.name.clone(),
                                fields: SyntheticVariantFields::TupleOf(eref_ids),
                            },
                        );
                    },
                }
            },
        }
        i += 1;
    }
    proof {
        assert(m.modules@.take(m.modules@.len() as int) =~= m.modules@);
    }
    Ok(SyntheticRegistry { call_enums, event_enums, call_type, event_type })
}

/// One variant per call, tagged by declaration position, its fields the
/// declared arguments looked up within the module. Every argument type
/// name must parse.
fn synth_call_variants(calls: &Vec<CallMeta>, pallet_name: &String) -> (r: Result<
    Vec<SyntheticVariant>,
    SchemaError,
>)
    ensures
        if all_call_args_parse(calls@) {
            r matches Ok(vs) && call_variants_match(vs@, calls@, pallet_name@)
        } else {
            r matches Err(SchemaError::InvalidTypeName { .. })
        },
{
    let mut vs: Vec<SyntheticVariant> = Vec::new();
    let mut c: usize = 0;
    while c < calls.len()
        invariant
            c <= calls@.len(),
            vs@.len() == c,
            forall|k: int| 0 <= k < c ==> all_args_parse((#[trigger] calls@[k]).args@),
            call_variants_match(vs@, calls@.take(c as int), pallet_name@),
        decreases calls@.len() - c,
    {
        let call = &calls[c];
        let mut fields: Vec<SyntheticField> = Vec::new();
        let mut a: usize = 0;
        while a < call.args.len()
            invariant
                0 <= c < calls@.len(),
                *call == calls@[c as int],
                a <= call.args@.len(),
                fields@.len() == a,
                forall|x: int| 0 <= x < a ==> parses_as_type_name((#[trigger] call.args@[x]).ty@),
                forall|x: int|
                    0 <= x < a ==> {
                        &&& (#[trigger] fields@[x]).name@ == call.args@[x].name@
                        &&& fields@[x].value.name@ == call.args@[x].ty@
                        &&& fields@[x].value.pallet matches Some(pn) && pn@ == pallet_name@
                    },
            decreases call.args@.len() - a,
        {
            let arg = &call.args[a];
            if !lookup_name_parses(arg.ty.as_str()) {
                proof {
                    assert(!all_args_parse(calls@[c as int].args@));
                }
                return Err(SchemaError::InvalidTypeName { name: arg.ty.clone() });
            }
            fields.push(
                SyntheticField {
                    name: arg.name.clone(),
                    value: LookupId { name: arg.ty.clone(), pallet: Some(pallet_name.clone()) },
                },
            );
            a += 1;
        }
        let index: u8 = #[verifier::truncate] (c as u8);
        vs.push(
            SyntheticVariant {
                index,
                name: call.name.clone(),
                fields: SyntheticVariantFields::StructOf(fields),
            },
        );
        proof {
            assert(calls@.take(c as int + 1).drop_last() =~= calls@.take(c as int));
        }
        c += 1;
    }
    proof {
        assert(calls@.take(calls@.len() as int) =~= calls@);
    }
    Ok(vs)
}


/// One variant per event, tagged by declaration position, its unnamed
/// fields the declared argument types looked up within the module.
fn synth_event_variants(events: &Vec<EventMeta>, pallet_name: &String) -> (r: Result<
    Vec<SyntheticVariant>,
    SchemaError,
>)
    ensures
        if all_event_args_parse(events@) {
            r matches Ok(vs) && event_variants_match(vs@, events@, pallet_name@)
        } else {
            r matches Err(SchemaError::InvalidTypeName { .. })
        },
{
    let mut vs: Vec<SyntheticVariant> = Vec::new();
    let mut c: usize = 0;
    while c < events.len()
        invariant
            c <= events@.len(),
            vs@.len() == c,
            forall|k: int| 0 <= k < c ==> all_names_parse((#[trigger] events@[k]).args@),
            event_variants_match(vs@, events@.take(c as int), pallet_name@),
        decreases events@.len() - c,
    {
        let event = &events[c];
        let mut ids: Vec<LookupId> = Vec::new();
        let mut a: usize = 0;
        while a < event.args.len()
            invariant
                0 <= c < events@.len(),
                *event == events@[c as int],
                a <= event.args@.len(),
                ids@.len() == a,
                forall|x: int| 0 <= x < a ==> parses_as_type_name((#[trigger] event.args@[x])@),
                forall|x: int|
                    0 <= x < a ==> {
                        &&& (#[trigger] ids@[x]).name@ == event.args@[x]@
                        &&& ids@[x].pallet matches Some(pn) && pn@ == pallet_name@
                    },
            decreases event.args@.len() - a,
        {
            let arg = &event.args[a];
            if !lookup_name_parses(arg.as_str()) {
                proof {
                    assert(!all_names_parse(events@[c as int].args@));
                }
                return Err(SchemaError::InvalidTypeName { name: arg.clone() });
            }
            ids.push(LookupId { name: arg.clone(), pallet: Some(pallet_name.clone()) });
            a += 1;
        }
        let index: u8 = #[verifier::truncate] (c as u8);
        vs.push(
            SyntheticVariant {
                index,
                name: event.name.clone(),
                fields: SyntheticVariantFields::TupleOf(ids),
            },
        );
        proof {
            assert(events@.take(c as int + 1).drop_last() =~= events@.take(c as int));
        }
        c += 1;
    }
    proof {
        assert(events@.take(events@.len() as int) =~= events@);
    }
    Ok(vs)
}

} // verus!
