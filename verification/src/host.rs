use vstd::prelude::*;

use crate::entry_point::EntryPoints;
use crate::registry::KeyRef;
use crate::registry::NamedKeys;

verus! {

/// One immutable snapshot of a program: its callable operations and its
/// named-key registry. Once published it is never mutated in place.
pub struct ProgramVersion {
    pub entry_points: EntryPoints,
    pub named_keys: NamedKeys,
}

/// A published program package: an ordered collection of versions, addressed
/// by the hash under which the host published it.
pub struct Package {
    pub versions: Vec<ProgramVersion>,
}

/// The host ledger state one transaction sees: storage cells addressed by
/// value, published packages addressed by hash, and the calling account's
/// own key-value namespace.
pub struct Host {
    pub cells: Vec<u32>,
    pub packages: Vec<Package>,
    pub namespace: NamedKeys,
}

impl Host {
    /// The reference points at a live cell or a published package.
    pub open spec fn key_ref_valid(self, k: KeyRef) -> bool {
        match k {
            KeyRef::Cell { addr } => addr < self.cells@.len(),
            KeyRef::Package { hash } => hash < self.packages@.len(),
        }
    }

    /// The registry has unique names and every reference it holds is live.
    pub open spec fn registry_valid(self, r: NamedKeys) -> bool {
        &&& r.wf()
        &&& forall|k: Seq<char>| #[trigger] r@.contains_key(k) ==> self.key_ref_valid(r@[k])
    }

    /// Every package has at least one version, and every registry in scope
    /// (the caller's namespace and each version's named keys) is valid.
    pub open spec fn wf(self) -> bool {
        &&& self.registry_valid(self.namespace)
        &&& forall|p: int|
            0 <= p < self.packages@.len() ==> (#[trigger] self.packages@[p]).versions@.len() >= 1
        &&& forall|p: int, v: int|
            0 <= p < self.packages@.len() && 0 <= v < self.packages@[p].versions@.len() ==> {
                &&& (#[trigger] self.packages@[p].versions@[v]).entry_points.wf()
                &&& self.registry_valid(self.packages@[p].versions@[v].named_keys)
            }
    }

    /// A ledger with no cells, no packages and an empty namespace.
    pub fn new() -> (r: Host)
        ensures
            r.wf(),
            r.cells@.len() == 0,
            r.packages@.len() == 0,
            r.namespace@ == Map::<Seq<char>, KeyRef>::empty(),
    {
        Host { cells: Vec::new(), packages: Vec::new(), namespace: NamedKeys::new() }
    }

    /// Host primitive: allocates a fresh cell holding `init` and returns its
    /// address. No existing cell, package or named key is touched.
    pub fn create_cell(&mut self, init: u32) -> (addr: usize)
        ensures
            addr == old(self).cells@.len(),
            final(self).cells@ == old(self).cells@.push(init),
            final(self).packages == old(self).packages,
            final(self).namespace == old(self).namespace,
            old(self).wf() ==> final(self).wf(),
    {
        let addr = self.cells.len();
        self.cells.push(init);
        proof {
            if old(self).wf() {
                lemma_registry_valid_monotone(*old(self), *self, self.namespace);
                assert forall|p: int, v: int|
                    0 <= p < self.packages@.len() && 0 <= v
                        < self.packages@[p].versions@.len() implies {
                    &&& (#[trigger] self.packages@[p].versions@[v]).entry_points.wf()
                    &&& self.registry_valid(self.packages@[p].versions@[v].named_keys)
                } by {
                    assert(old(self).registry_valid(
                        old(self).packages@[p].versions@[v].named_keys,
                    ));
                    lemma_registry_valid_monotone(
                        *old(self),
                        *self,
                        self.packages@[p].versions@[v].named_keys,
                    );
                }
            }
        }
        addr
    }

    /// Host primitive: atomically adds `delta` to the cell at `addr`,
    /// wrapping on overflow. Exactly that one cell changes.
    pub fn add(&mut self, addr: usize, delta: u32)
        requires
            addr < old(self).cells@.len(),
        ensures
            final(self).cells@ == old(self).cells@.update(
                addr as int,
                vstd::wrapping::u32_specs::wrapping_add(old(self).cells@[addr as int], delta),
            ),
            final(self).packages == old(self).packages,
            final(self).namespace == old(self).namespace,
            old(self).wf() ==> final(self).wf(),
    {
        let v = self.cells[addr];
        self.cells[addr] = v.wrapping_add(delta);
        proof {
            if old(self).wf() {
                lemma_registry_valid_monotone(*old(self), *self, self.namespace);
                assert forall|p: int, v2: int|
                    0 <= p < self.packages@.len() && 0 <= v2
                        < self.packages@[p].versions@.len() implies {
                    &&& (#[trigger] self.packages@[p].versions@[v2]).entry_points.wf()
                    &&& self.registry_valid(self.packages@[p].versions@[v2].named_keys)
                } by {
                    assert(old(self).registry_valid(
                        old(self).packages@[p].versions@[v2].named_keys,
                    ));
                    lemma_registry_valid_monotone(
                        *old(self),
                        *self,
                        self.packages@[p].versions@[v2].named_keys,
                    );
                }
            }
        }
    }

    /// Host primitive: the cell's current value, without mutating it. Used
    /// by a verifying harness to query final state.
    pub fn read(&self, addr: usize) -> (v: u32)
        requires
            addr < self.cells@.len(),
        ensures
            v == self.cells@[addr as int],
    {
        self.cells[addr]
    }

    /// Host primitive: publishes a new package whose single version owns the
    /// given registries, and returns (package hash, version number). A fresh
    /// access reference is allocated for the package; when `package_name` or
    /// `access_name` is given, the hash or the access reference is also
    /// registered under the caller's namespace.
    pub fn new_contract(
        &mut self,
        entry_points: EntryPoints,
        named_keys: Option<NamedKeys>,
        package_name: Option<String>,
        access_name: Option<String>,
    ) -> (r: (usize, usize))
        requires
            old(self).wf(),
            entry_points.wf(),
            named_keys matches Some(nk) ==> old(self).registry_valid(nk),
        ensures
            r.0 == old(self).packages@.len(),
            r.1 == 1,
            final(self).wf(),
            final(self).cells@ == old(self).cells@.push(0u32),
            final(self).packages@.len() == old(self).packages@.len() + 1,
            forall|p: int|
                0 <= p < old(self).packages@.len() ==> final(self).packages@[p] == old(
                    self,
                ).packages@[p],
            final(self).packages@[r.0 as int].versions@.len() == 1,
            final(self).packages@[r.0 as int].versions@[0].entry_points == entry_points,
            final(self).packages@[r.0 as int].versions@[0].named_keys@ == (match named_keys {
                Some(nk) => nk@,
                None => Map::<Seq<char>, KeyRef>::empty(),
            }),
            final(self).namespace@ == namespace_after_publish(
                *old(self),
                package_name,
                access_name,
            ),
            final(self).namespace.wf(),
    {
        let ghost gkeys = named_keys;
        let hash = self.packages.len();
        let keys = match named_keys {
            Some(keys) => keys,
            None => NamedKeys::new(),
        };
        let version = ProgramVersion { entry_points, named_keys: keys };
        let mut versions: Vec<ProgramVersion> = Vec::new();
        versions.push(version);
        self.packages.push(Package { versions });
        let access_addr = self.cells.len();
        self.cells.push(0);
        proof {
            lemma_registry_valid_monotone(*old(self), *self, self.namespace);
            assert forall|p: int, v: int|
                0 <= p < self.packages@.len() && 0 <= v
                    < self.packages@[p].versions@.len() implies {
                &&& (#[trigger] self.packages@[p].versions@[v]).entry_points.wf()
                &&& self.registry_valid(self.packages@[p].versions@[v].named_keys)
            } by {
                if p < old(self).packages@.len() {
                    assert(old(self).registry_valid(
                        old(self).packages@[p].versions@[v].named_keys,
                    ));
                    lemma_registry_valid_monotone(
                        *old(self),
                        *self,
                        self.packages@[p].versions@[v].named_keys,
                    );
                } else {
                    match gkeys {
                        Some(nk) => {
                            lemma_registry_valid_monotone(*old(self), *self, nk);
                        },
                        None => {},
                    }
                }
            }
        }
        if let Some(n) = package_name {
            let ghost gn = n;
            self.namespace.insert(n, KeyRef::Package { hash });
            proof {
                assert forall|k: Seq<char>| #[trigger] self.namespace@.contains_key(
                    k,
                ) implies self.key_ref_valid(self.namespace@[k]) by {
                    if k != gn@ {
                        assert(self.namespace@[k] == old(self).namespace@[k]);
                    }
                }
            }
        }
        if let Some(n) = access_name {
            let ghost gn2 = n;
            let ghost pre_ns = self.namespace@;
            self.namespace.insert(n, KeyRef::Cell { addr: access_addr });
            proof {
                assert forall|k: Seq<char>| #[trigger] self.namespace@.contains_key(
                    k,
                ) implies self.key_ref_valid(self.namespace@[k]) by {
                    if k != gn2@ {
                        assert(self.namespace@[k] == pre_ns[k]);
                    }
                }
            }
        }
        (hash, 1)
    }

    /// Host primitive: registers `key` under `name` in the caller's own
    /// namespace, replacing any reference the name held.
    pub fn put_key(&mut self, name: String, key: KeyRef)
        requires
            old(self).namespace.wf(),
        ensures
            final(self).namespace@ == old(self).namespace@.insert(name@, key),
            final(self).namespace.wf(),
            final(self).cells == old(self).cells,
            final(self).packages == old(self).packages,
            (old(self).wf() && old(self).key_ref_valid(key)) ==> final(self).wf(),
    {
        let ghost gname = name;
        let ghost gkey = key;
        self.namespace.insert(name, key);
        proof {
            if old(self).wf() && old(self).key_ref_valid(gkey) {
                assert forall|k: Seq<char>| #[trigger] self.namespace@.contains_key(
                    k,
                ) implies self.key_ref_valid(self.namespace@[k]) by {
                    if k != gname@ {
                        assert(old(self).namespace@.contains_key(k));
                        assert(old(self).key_ref_valid(old(self).namespace@[k]));
                    }
                }
                assert forall|p: int, v: int|
                    0 <= p < self.packages@.len() && 0 <= v
                        < self.packages@[p].versions@.len() implies {
                    &&& (#[trigger] self.packages@[p].versions@[v]).entry_points.wf()
                    &&& self.registry_valid(self.packages@[p].versions@[v].named_keys)
                } by {
                    assert(old(self).registry_valid(
                        old(self).packages@[p].versions@[v].named_keys,
                    ));
                    lemma_registry_valid_monotone(
                        *old(self),
                        *self,
                        self.packages@[p].versions@[v].named_keys,
                    );
                }
            }
        }
    }
}

/// What publication does to the caller's namespace: the new package's hash
/// under `package_name` (if named) and a fresh access reference under
/// `access_name` (if named).
pub open spec fn namespace_after_publish(
    pre: Host,
    package_name: Option<String>,
    access_name: Option<String>,
) -> Map<Seq<char>, KeyRef> {
    let ns1 = match package_name {
        Some(n) => pre.namespace@.insert(n@, KeyRef::Package { hash: pre.packages@.len() as usize }),
        None => pre.namespace@,
    };
    match access_name {
        Some(n) => ns1.insert(n@, KeyRef::Cell { addr: pre.cells@.len() as usize }),
        None => ns1,
    }
}

/// A registry whose references are live stays live when the ledger only
/// grows: no cell or package is ever deallocated.
proof fn lemma_registry_valid_monotone(h1: Host, h2: Host, r: NamedKeys)
    requires
        h1.registry_valid(r),
        h1.cells@.len() <= h2.cells@.len(),
        h1.packages@.len() <= h2.packages@.len(),
    ensures
        h2.registry_valid(r),
{
    assert forall|k: Seq<char>| #[trigger] r@.contains_key(k) implies h2.key_ref_valid(r@[k]) by {
        assert(h1.key_ref_valid(r@[k]));
    }
}

} // verus!
