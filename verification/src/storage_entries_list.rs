//! Enumerating the storage entries a metadata document declares, as
//! `(pallet, entry)` name pairs in declaration order.

use crate::metadata::{LegacyMetadata, Metadata, ModuleMeta, PortableMetadata, PortablePalletMeta};
use vstd::prelude::*;

verus! {

/// One storage entry: the pallet that declares it and its own name.
#[derive(Debug, Clone)]
pub struct StorageEntry {
    pub pallet: String,
    pub entry: String,
}

impl StorageEntry {
    /// Take ownership of this [`StorageEntry`].
    pub fn into_owned(self) -> (r: StorageEntry)
        ensures
            r == self,
    {
        self
    }
}

/// This is implemented by both metadata families.
pub trait StorageEntriesList {
    /// List all of the storage entries available in some metadata.
    fn storage_entries_list(&self) -> Vec<StorageEntry>;
}

/// The name pairs of a produced entry list.
pub open spec fn entry_views(entries: Seq<StorageEntry>) -> Seq<(Seq<char>, Seq<char>)> {
    entries.map_values(|e: StorageEntry| (e.pallet@, e.entry@))
}

proof fn lemma_entry_views_push(s0: Seq<StorageEntry>, item: StorageEntry)
    ensures
        entry_views(s0.push(item)) =~= entry_views(s0).push((item.pallet@, item.entry@)),
{
}

/// The name pairs one legacy module contributes: one per storage entry.
pub open spec fn module_entry_views(m: ModuleMeta) -> Seq<(Seq<char>, Seq<char>)> {
    match m.storage {
        None => Seq::empty(),
        Some(entries) => Seq::new(entries@.len(), |i: int| (m.name@, entries@[i].name@)),
    }
}

/// The name pairs a legacy document lists, module by module in order.
pub open spec fn legacy_entry_views(modules: Seq<ModuleMeta>) -> Seq<(Seq<char>, Seq<char>)>
    decreases modules.len(),
{
    if modules.len() == 0 {
        Seq::empty()
    } else {
        legacy_entry_views(modules.drop_last()) + module_entry_views(modules.last())
    }
}

/// The name pairs one portable pallet contributes.
pub open spec fn pallet_entry_views(p: PortablePalletMeta) -> Seq<(Seq<char>, Seq<char>)> {
    match p.storage {
        None => Seq::empty(),
        Some(entries) => Seq::new(entries@.len(), |i: int| (p.name@, entries@[i].name@)),
    }
}

/// The name pairs a portable document lists, pallet by pallet in order.
pub open spec fn portable_entry_views(pallets: Seq<PortablePalletMeta>) -> Seq<
    (Seq<char>, Seq<char>),
>
    decreases pallets.len(),
{
    if pallets.len() == 0 {
        Seq::empty()
    } else {
        portable_entry_views(pallets.drop_last()) + pallet_entry_views(pallets.last())
    }
}

impl LegacyMetadata {
    /// Every declared storage entry, in declaration order.
    pub fn storage_entries(&self) -> (r: Vec<StorageEntry>)
        ensures
            entry_views(r@) == legacy_entry_views(self.modules@),
    {
        let mut out: Vec<StorageEntry> = Vec::new();
        let mut i: usize = 0;
        while i < self.modules.len()
            invariant
                i <= self.modules@.len(),
                entry_views(out@) == legacy_entry_views(self.modules@.take(i as int)),
            decreases self.modules@.len() - i,
        {
            let m = &self.modules[i];
            proof {
                assert(self.modules@.take(i as int + 1).drop_last() =~= self.modules@.take(
                    i as int,
                ));
                assert(self.modules@.take(i as int + 1).last() == self.modules@[i as int]);
            }
            match &m.storage {
                None => {
                    proof {
                        assert(entry_views(out@) =~= legacy_entry_views(
                            self.modules@.take(i as int + 1),
                        ));
                    }
                },
                Some(entries) => {
                    let mut j: usize = 0;
                    while j < entries.len()
                        invariant
                            j <= entries@.len(),
                            *m == self.modules@[i as int],
                            m.storage matches Some(es) && es == entries,
                            entry_views(out@) == legacy_entry_views(self.modules@.take(i as int))
                                + Seq::new(j as nat, |k: int| (m.name@, entries@[k].name@)),
                        decreases entries@.len() - j,
                    {
                        let e = &entries[j];
                        let ghost out0 = out@;
                        let item = StorageEntry { pallet: m.name.clone(), entry: e.name.clone() };
                        proof {
                            lemma_entry_views_push(out0, item);
                        }
                        out.push(item);
                        proof {
                            let prefix = legacy_entry_views(self.modules@.take(i as int));
                            let f1 = Seq::new(j as nat, |k: int| (m.name@, entries@[k].name@));
                            let f2 = Seq::new((j + 1) as nat, |k: int| (m.name@, entries@[k].name@));
                            assert(entry_views(out@) == entry_views(out0).push(
                                (item.pallet@, item.entry@),
                            ));
                            assert((prefix + f1).push((m.name@, entries@[j as int].name@)) =~= prefix
                                + f2);
                        }
                        j += 1;
                    }
                    proof {
                        assert(Seq::new(entries@.len(), |k: int| (m.name@, entries@[k].name@))
                            =~= module_entry_views(self.modules@[i as int]));
                        assert(entry_views(out@) =~= legacy_entry_views(
                            self.modules@.take(i as int + 1),
                        ));
                    }
                },
            }
            i += 1;
        }
        proof {
            assert(self.modules@.take(self.modules@.len() as int) =~= self.modules@);
        }
        out
    }
}

impl StorageEntriesList for LegacyMetadata {
    fn storage_entries_list(&self) -> Vec<StorageEntry> {
        self.storage_entries()
    }
}

impl PortableMetadata {
    /// Every declared storage entry, in declaration order.
    pub fn storage_entries(&self) -> (r: Vec<StorageEntry>)
        ensures
            entry_views(r@) == portable_entry_views(self.pallets@),
    {
        let mut out: Vec<StorageEntry> = Vec::new();
        let mut i: usize = 0;
        while i < self.pallets.len()
            invariant
                i <= self.pallets@.len(),
                entry_views(out@) == portable_entry_views(self.pallets@.take(i as int)),
            decreases self.pallets@.len() - i,
        {
            let p = &self.pallets[i];
            proof {
                assert(self.pallets@.take(i as int + 1).drop_last() =~= self.pallets@.take(
                    i as int,
                ));
                assert(self.pallets@.take(i as int + 1).last() == self.pallets@[i as int]);
            }
            match &p.storage {
                None => {
                    proof {
                        assert(entry_views(out@) =~= portable_entry_views(
                            self.pallets@.take(i as int + 1),
                        ));
                    }
                },
                Some(entries) => {
                    let mut j: usize = 0;
                    while j < entries.len()
                        invariant
                            j <= entries@.len(),
                            *p == self.pallets@[i as int],
                            p.storage matches Some(es) && es == entries,
                            entry_views(out@) == portable_entry_views(self.pallets@.take(i as int))
                                + Seq::new(j as nat, |k: int| (p.name@, entries@[k].name@)),
                        decreases entries@.len() - j,
                    {
                        let e = &entries[j];
                        let ghost out0 = out@;
                        let item = StorageEntry { pallet: p.name.clone(), entry: e.name.clone() };
                        proof {
                            lemma_entry_views_push(out0, item);
                        }
                        out.push(item);
                        proof {
                            let prefix = portable_entry_views(self.pallets@.take(i as int));
                            let f1 = Seq::new(j as nat, |k: int| (p.name@, entries@[k].name@));
                            let f2 = Seq::new((j + 1) as nat, |k: int| (p.name@, entries@[k].name@));
                            assert(entry_views(out@) == entry_views(out0).push(
                                (item.pallet@, item.entry@),
                            ));
                            assert((prefix + f1).push((p.name@, entries@[j as int].name@)) =~= prefix
                                + f2);
                        }
                        j += 1;
                    }
                    proof {
                        assert(Seq::new(entries@.len(), |k: int| (p.name@, entries@[k].name@))
                            =~= pallet_entry_views(self.pallets@[i as int]));
                        assert(entry_views(out@) =~= portable_entry_views(
                            self.pallets@.take(i as int + 1),
                        ));
                    }
                },
            }
            i += 1;
        }
        proof {
            assert(self.pallets@.take(self.pallets@.len() as int) =~= self.pallets@);
        }
        out
    }
}

impl StorageEntriesList for PortableMetadata {
    fn storage_entries_list(&self) -> Vec<StorageEntry> {
        self.storage_entries()
    }
}

/// Fetch the list of available storage entries from some metadata.
pub fn get_storage_entries(metadata: &Metadata) -> (r: Vec<StorageEntry>)
    ensures
        metadata.spec_as_legacy() matches Some(m) ==> entry_views(r@) == legacy_entry_views(
            m.modules@,
        ),
        metadata.spec_as_portable() matches Some(m) ==> entry_views(r@) == portable_entry_views(
            m.pallets@,
        ),
{
    match metadata {
        Metadata::V8(m) => m.storage_entries(),
        Metadata::V9(m) => m.storage_entries(),
        Metadata::V10(m) => m.storage_entries(),
        Metadata::V11(m) => m.storage_entries(),
        Metadata::V12(m) => m.storage_entries(),
        Metadata::V13(m) => m.storage_entries(),
        Metadata::V14(m) => m.storage_entries(),
        Metadata::V15(m) => m.storage_entries(),
    }
}

} // verus!
