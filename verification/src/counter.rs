use vstd::prelude::*;

use crate::entry_point::EntryPoint;
use crate::entry_point::EntryPointAccess;
use crate::entry_point::EntryPointContext;
use crate::entry_point::EntryPoints;
use crate::entry_point::ValueType;
use crate::error::Error;
use crate::host::Host;
use crate::registry::KeyRef;
use crate::registry::NamedKeys;

verus! {

/// The hash under which an installation run against `pre` publishes its
/// package.
pub open spec fn installed_hash(pre: Host) -> int {
    pre.packages@.len() as int
}

/// The named keys the increment operation runs with: those of the package's
/// current (latest) version.
pub open spec fn current_keys(h: Host, p: int) -> Map<Seq<char>, KeyRef> {
    h.packages@[p].versions@.last().named_keys@
}

/// The package's "count_key" entry resolves to a live storage cell.
pub open spec fn counter_installed(h: Host, p: int) -> bool {
    &&& 0 <= p < h.packages@.len()
    &&& h.packages@[p].versions@.len() >= 1
    &&& current_keys(h, p).contains_key("count_key"@)
    &&& current_keys(h, p)["count_key"@] is Cell
    &&& current_keys(h, p)["count_key"@]->addr < h.cells@.len()
}

/// The address of the package's counter cell.
pub open spec fn count_addr(h: Host, p: int) -> int {
    current_keys(h, p)["count_key"@]->addr as int
}

/// The current value of the package's counter cell.
pub open spec fn counter_value(h: Host, p: int) -> u32 {
    h.cells@[count_addr(h, p)]
}

/// What one installation transaction does to the host: a fresh cell holding
/// 0 and a fresh access reference are allocated; one new single-version
/// package is published whose registry maps "count_key" to the fresh cell
/// and whose entry point table holds exactly the public, zero-argument,
/// unit-returning "increment_count" operation; and the caller's namespace
/// gains the package under "counter_package", its access reference under
/// "counter_access_uref", and its hash under "counter_contract_hash".
/// Nothing that existed before is touched.
pub open spec fn install_step(pre: Host, post: Host) -> bool {
    let h = installed_hash(pre);
    &&& post.cells@ == pre.cells@.push(0u32).push(0u32)
    &&& post.packages@.len() == pre.packages@.len() + 1
    &&& (forall|p: int| 0 <= p < pre.packages@.len() ==> post.packages@[p] == pre.packages@[p])
    &&& post.packages@[h].versions@.len() == 1
    &&& post.packages@[h].versions@[0].named_keys@ == Map::<Seq<char>, KeyRef>::empty().insert(
        "count_key"@,
        KeyRef::Cell { addr: pre.cells@.len() as usize },
    )
    &&& {
        let eps = post.packages@[h].versions@[0].entry_points;
        &&& eps.entries@.len() == 1
        &&& eps.entries@[0].name@ == "increment_count"@
        &&& eps.entries@[0].params@.len() == 0
        &&& eps.entries@[0].ret == ValueType::Unit
        &&& eps.entries@[0].access == EntryPointAccess::Public
        &&& eps.entries@[0].context == EntryPointContext::Contract
    }
    &&& post.namespace@ == pre.namespace@.insert(
        "counter_package"@,
        KeyRef::Package { hash: pre.packages@.len() as usize },
    ).insert(
        "counter_access_uref"@,
        KeyRef::Cell { addr: (pre.cells@.len() + 1) as usize },
    ).insert(
        "counter_contract_hash"@,
        KeyRef::Package { hash: pre.packages@.len() as usize },
    )
}

/// Installer entry point: requests a fresh cell initialized to 0, builds the
/// two registries, publishes them as a new package, and stores the package's
/// hash under the caller's namespace key "counter_contract_hash". Each call
/// produces an independent new package whose counter starts at 0.
pub fn call(host: &mut Host)
    requires
        old(host).wf(),
    ensures
        final(host).wf(),
        install_step(*old(host), *final(host)),
        final(host).namespace@.contains_key("counter_contract_hash"@),
        final(host).namespace@["counter_contract_hash"@] == (KeyRef::Package {
            hash: installed_hash(*old(host)) as usize,
        }),
        final(host).key_ref_valid(final(host).namespace@["counter_contract_hash"@]),
        counter_installed(*final(host), installed_hash(*old(host))),
        counter_value(*final(host), installed_hash(*old(host))) == 0,
{
    let count = host.create_cell(0);
    let mut named_keys = NamedKeys::new();
    named_keys.insert(String::from_str("count_key"), KeyRef::Cell { addr: count });
    proof {
        assert forall|k: Seq<char>| #[trigger] named_keys@.contains_key(
            k,
        ) implies host.key_ref_valid(named_keys@[k]) by {
            assert(k == "count_key"@);
        }
    }
    let mut entry_points = EntryPoints::new();
    entry_points.add_entry_point(
        EntryPoint::new(
            String::from_str("increment_count"),
            Vec::new(),
            ValueType::Unit,
            EntryPointAccess::Public,
            EntryPointContext::Contract,
        ),
    );
    let (contract_hash, _contract_version) = host.new_contract(
        entry_points,
        Some(named_keys),
        Some(String::from_str("counter_package")),
        Some(String::from_str("counter_access_uref")),
    );
    host.put_key(String::from_str("counter_contract_hash"), KeyRef::Package { hash: contract_hash });
    proof {
        assert(install_step(*old(host), *host)) by {
            assert(host.cells@ =~= old(host).cells@.push(0u32).push(0u32));
            assert(host.packages@[installed_hash(*old(host))].versions@[0].named_keys@
                =~= Map::<Seq<char>, KeyRef>::empty().insert(
                "count_key"@,
                KeyRef::Cell { addr: old(host).cells@.len() as usize },
            ));
            assert(host.namespace@ =~= old(host).namespace@.insert(
                "counter_package"@,
                KeyRef::Package { hash: old(host).packages@.len() as usize },
            ).insert(
                "counter_access_uref"@,
                KeyRef::Cell { addr: (old(host).cells@.len() + 1) as usize },
            ).insert(
                "counter_contract_hash"@,
                KeyRef::Package { hash: old(host).packages@.len() as usize },
            ));
        }
    }
}

/// What one successful increment transaction does to the host: exactly the
/// package's counter cell changes, by an atomic wrapping add of 1.
pub open spec fn increment_step(pre: Host, post: Host, p: int) -> bool {
    &&& counter_installed(pre, p)
    &&& post.cells@ == pre.cells@.update(
        count_addr(pre, p),
        vstd::wrapping::u32_specs::wrapping_add(counter_value(pre, p), 1),
    )
    &&& post.packages == pre.packages
    &&& post.namespace == pre.namespace
}

/// Increment entry point, run in the installed package's own context: looks
/// up "count_key" in the package's registry, resolves it to a storage cell,
/// and atomically adds 1. It succeeds exactly when the registry entry is
/// present and addresses a cell; on failure the transaction reverts, so the
/// host is left exactly as it was.
pub fn increment_count(host: &mut Host, contract: usize) -> (r: Result<(), Error>)
    requires
        old(host).wf(),
        contract < old(host).packages@.len(),
    ensures
        final(host).wf(),
        r is Ok <==> counter_installed(*old(host), contract as int),
        match r {
            Ok(()) => increment_step(*old(host), *final(host), contract as int),
            Err(e) => {
                &&& *final(host) == *old(host)
                &&& e == (if !current_keys(*old(host), contract as int).contains_key(
                    "count_key"@,
                ) {
                    Error::KeyNotFound
                } else {
                    Error::TypeMismatch
                })
            },
        },
{
    proof {
        assert(host.packages@[contract as int].versions@.len() >= 1);
    }
    let version_count = host.packages[contract].versions.len();
    let name = String::from_str("count_key");
    let found = host.packages[contract].versions[version_count - 1].named_keys.get(&name);
    match found {
        None => Err(Error::KeyNotFound),
        Some(KeyRef::Package { .. }) => Err(Error::TypeMismatch),
        Some(KeyRef::Cell { addr }) => {
            proof {
                assert(current_keys(*host, contract as int).contains_key("count_key"@));
                assert(host.registry_valid(
                    host.packages@[contract as int].versions@[version_count - 1].named_keys,
                ));
            }
            host.add(addr, 1);
            Ok(())
        },
    }
}

/// For all n ≥ 0 within the counter's range: starting from an installed
/// package whose counter reads 0, n increment transactions in sequence
/// leave the counter at exactly n — no under- or over-count and no skipped
/// increment. `hs` is the chain of committed host states, so `hs.len() - 1`
/// is the number of increments.
pub proof fn lemma_sequential_increments_count(hs: Seq<Host>, p: int)
    requires
        hs.len() >= 1,
        counter_installed(hs[0], p),
        counter_value(hs[0], p) == 0,
        hs.len() - 1 <= u32::MAX,
        forall|i: int| 0 <= i < hs.len() - 1 ==> increment_step(#[trigger] hs[i], hs[i + 1], p),
    ensures
        counter_value(hs.last(), p) == hs.len() - 1,
    decreases hs.len(),
{
    if hs.len() > 1 {
        let pre = hs[hs.len() - 2];
        let post = hs[hs.len() - 1];
        assert forall|i: int| 0 <= i < hs.drop_last().len() - 1 implies increment_step(
            #[trigger] hs.drop_last()[i],
            hs.drop_last()[i + 1],
            p,
        ) by {
            assert(hs.drop_last()[i] == hs[i]);
            assert(hs.drop_last()[i + 1] == hs[i + 1]);
            assert(increment_step(hs[i], hs[i + 1], p));
        }
        assert(hs.drop_last()[0] == hs[0]);
        lemma_sequential_increments_count(hs.drop_last(), p);
        assert(hs.drop_last().last() == pre);
        assert(increment_step(pre, post, p));
        assert(current_keys(post, p) == current_keys(pre, p));
        assert(counter_value(post, p) == vstd::wrapping::u32_specs::wrapping_add(
            counter_value(pre, p),
            1,
        ));
    }
}

/// Two independent installations never share a storage cell: after a second
/// installation the two packages' counter cells sit at distinct addresses,
/// both counters read 0, and incrementing the first package's counter takes
/// it to 1 while leaving the second package's counter untouched at 0.
pub proof fn lemma_installations_independent(h0: Host, h1: Host, h2: Host, h3: Host)
    requires
        install_step(h0, h1),
        install_step(h1, h2),
        increment_step(h2, h3, installed_hash(h0)),
    ensures
        count_addr(h2, installed_hash(h0)) != count_addr(h2, installed_hash(h1)),
        counter_value(h2, installed_hash(h0)) == 0,
        counter_value(h2, installed_hash(h1)) == 0,
        counter_value(h3, installed_hash(h0)) == 1,
        counter_value(h3, installed_hash(h1)) == 0,
{
    let p1 = installed_hash(h0);
    let p2 = installed_hash(h1);
    vstd::std_specs::vec::axiom_spec_len(&h1.cells);
    vstd::std_specs::vec::axiom_spec_len(&h2.cells);
    assert(h2.packages@[p1] == h1.packages@[p1]);
    assert(count_addr(h2, p1) == h0.cells@.len());
    assert(count_addr(h2, p2) == h1.cells@.len());
    assert(h1.cells@.len() == h0.cells@.len() + 2);
    assert(counter_value(h2, p1) == 0);
    assert(counter_value(h2, p2) == 0);
    assert(count_addr(h3, p1) == count_addr(h2, p1));
    assert(count_addr(h3, p2) == count_addr(h2, p2));
    assert(counter_value(h3, p1) == vstd::wrapping::u32_specs::wrapping_add(0u32, 1u32));
}

} // verus!
