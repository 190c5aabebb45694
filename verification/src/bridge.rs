//! The event-name registry: the canonical names of the events the
//! orchestrator knows, and the translation between a name and the
//! FNV-1a-32 hash the bus dispatches by.

use vstd::prelude::*;

use std::collections::HashMap;

use crate::fnv::{fnv_prefix, fnv_step, lemma_ascii_hash, FNV_OFFSET_BASIS, fnv1a_32, fnv_spec, hex_u32_08, hex_u32_spec, str_hash};
use crate::ledger::views;
use crate::web::utf8;

verus! {

/// The hash an event name is dispatched by.
pub open spec fn name_hash(name: Seq<char>) -> u32 {
    fnv_spec(utf8(name))
}

/// The event names the orchestrator knows, in registry order.
#[verifier::opaque]
pub open spec fn known_event_names() -> Seq<Seq<char>> {
    seq![
        "r2.composer.apiary.list"@,
        "r2.composer.apiary.entry"@,
        "r2.composer.apiary.open"@,
        "r2.composer.apiary.active"@,
        "r2.composer.apiary.create"@,
        "r2.composer.apiary.save"@,
        "r2.composer.apiary.close"@,
        "r2.composer.apiary.git.init"@,
        "r2.composer.apiary.git.publish"@,
        "r2.composer.build.start"@,
        "r2.composer.build.progress"@,
        "r2.composer.build.done"@,
        "r2.composer.build.error"@,
        "r2.composer.flash.devices"@,
        "r2.composer.deploy.start"@,
        "r2.composer.deploy.progress"@,
        "r2.composer.deploy.done"@,
        "r2.composer.deploy.error"@,
        "r2.composer.device.slot.create"@,
        "r2.composer.device.list"@,
        "r2.composer.device.entry"@,
        "r2.composer.device.transition"@,
        "r2.composer.device.unaccounted"@,
        "r2.composer.device.revoke"@,
        "r2.composer.device.retire"@,
        "r2.composer.device.purge"@,
        "r2.composer.usb.attached"@,
        "r2.composer.usb.detached"@,
        "r2.composer.usb.list"@,
        "r2.composer.usb.identify"@,
        "r2.composer.deploy.first_install.start"@,
        "r2.composer.deploy.first_install.progress"@,
        "r2.composer.deploy.first_install.done"@,
        "r2.composer.deploy.first_install.error"@,
        "r2.composer.provision.network.upsert"@,
        "r2.composer.provision.network.upserted"@,
        "r2.composer.provision.networks.list"@,
        "r2.composer.provision.networks.listed"@,
        "r2.composer.provision.offer.start"@,
        "r2.composer.provision.offer.progress"@,
        "r2.composer.provision.offer.composed"@,
        "r2.composer.provision.cert_issued"@,
        "r2.composer.provision.cert_error"@,
        "r2.composer.provision.error"@,
        "r2.composer.device.identity_observed"@,
        "r2.composer.device.enrolled"@,
        "r2.composer.deploy.batch.start"@,
        "r2.composer.deploy.batch.done"@,
        "r2.composer.deploy.device.progress"@,
        "r2.composer.deploy.device.done"@,
        "r2.composer.deploy.device.error"@,
        "r2.composer.author.start"@,
        "r2.composer.author.prompt"@,
        "r2.composer.author.reply"@,
        "r2.composer.author.file_added"@,
        "r2.composer.author.done"@,
        "r2.composer.author.error"@,
        "r2.composer.tg.status"@,
        "r2.composer.tg.list_members"@,
        "r2.composer.tg.member"@,
        "r2.composer.tg.revoke_device"@,
        "r2.composer.tg.rotate_keyholder"@,
        "r2.composer.tg.reset"@,
        "r2.composer.tg.export_keyholder"@,
        "r2.composer.tg.import_keyholder"@,
        "r2.composer.catalogue.list"@,
        "r2.composer.catalogue.entry"@,
        "r2.composer.source.request"@,
        "r2.composer.source.delivered"@,
        "r2.composer.sync.start"@,
        "r2.composer.sync.progress"@,
        "r2.composer.sync.done"@,
        "r2.composer.material.upload"@,
        "r2.composer.material.link"@,
        "r2.composer.material.find"@,
        "r2.composer.material.found"@,
        "r2.composer.material.list"@,
        "r2.composer.material.item"@,
        "r2.composer.material.process.start"@,
        "r2.composer.material.process.progress"@,
        "r2.composer.material.process.done"@,
        "r2.composer.material.process.error"@
    ]
}

/// The event names the orchestrator knows.
pub fn known_events() -> (v: Vec<&'static str>)
    ensures
        views(v@) == known_event_names(),
{
    let mut v: Vec<&'static str> = Vec::new();
    v.push("r2.composer.apiary.list");
    v.push("r2.composer.apiary.entry");
    v.push("r2.composer.apiary.open");
    v.push("r2.composer.apiary.active");
    v.push("r2.composer.apiary.create");
    v.push("r2.composer.apiary.save");
    v.push("r2.composer.apiary.close");
    v.push("r2.composer.apiary.git.init");
    v.push("r2.composer.apiary.git.publish");
    v.push("r2.composer.build.start");
    v.push("r2.composer.build.progress");
    v.push("r2.composer.build.done");
    v.push("r2.composer.build.error");
    v.push("r2.composer.flash.devices");
    v.push("r2.composer.deploy.start");
    v.push("r2.composer.deploy.progress");
    v.push("r2.composer.deploy.done");
    v.push("r2.composer.deploy.error");
    v.push("r2.composer.device.slot.create");
    v.push("r2.composer.device.list");
    v.push("r2.composer.device.entry");
    v.push("r2.composer.device.transition");
    v.push("r2.composer.device.unaccounted");
    v.push("r2.composer.device.revoke");
    v.push("r2.composer.device.retire");
    v.push("r2.composer.device.purge");
    v.push("r2.composer.usb.attached");
    v.push("r2.composer.usb.detached");
    v.push("r2.composer.usb.list");
    v.push("r2.composer.usb.identify");
    v.push("r2.composer.deploy.first_install.start");
    v.push("r2.composer.deploy.first_install.progress");
    v.push("r2.composer.deploy.first_install.done");
    v.push("r2.composer.deploy.first_install.error");
    v.push("r2.composer.provision.network.upsert");
    v.push("r2.composer.provision.network.upserted");
    v.push("r2.composer.provision.networks.list");
    v.push("r2.composer.provision.networks.listed");
    v.push("r2.composer.provision.offer.start");
    v.push("r2.composer.provision.offer.progress");
    v.push("r2.composer.provision.offer.composed");
    v.push("r2.composer.provision.cert_issued");
    v.push("r2.composer.provision.cert_error");
    v.push("r2.composer.provision.error");
    v.push("r2.composer.device.identity_observed");
    v.push("r2.composer.device.enrolled");
    v.push("r2.composer.deploy.batch.start");
    v.push("r2.composer.deploy.batch.done");
    v.push("r2.composer.deploy.device.progress");
    v.push("r2.composer.deploy.device.done");
    v.push("r2.composer.deploy.device.error");
    v.push("r2.composer.author.start");
    v.push("r2.composer.author.prompt");
    v.push("r2.composer.author.reply");
    v.push("r2.composer.author.file_added");
    v.push("r2.composer.author.done");
    v.push("r2.composer.author.error");
    v.push("r2.composer.tg.status");
    v.push("r2.composer.tg.list_members");
    v.push("r2.composer.tg.member");
    v.push("r2.composer.tg.revoke_device");
    v.push("r2.composer.tg.rotate_keyholder");
    v.push("r2.composer.tg.reset");
    v.push("r2.composer.tg.export_keyholder");
    v.push("r2.composer.tg.import_keyholder");
    v.push("r2.composer.catalogue.list");
    v.push("r2.composer.catalogue.entry");
    v.push("r2.composer.source.request");
    v.push("r2.composer.source.delivered");
    v.push("r2.composer.sync.start");
    v.push("r2.composer.sync.progress");
    v.push("r2.composer.sync.done");
    v.push("r2.composer.material.upload");
    v.push("r2.composer.material.link");
    v.push("r2.composer.material.find");
    v.push("r2.composer.material.found");
    v.push("r2.composer.material.list");
    v.push("r2.composer.material.item");
    v.push("r2.composer.material.process.start");
    v.push("r2.composer.material.process.progress");
    v.push("r2.composer.material.process.done");
    v.push("r2.composer.material.process.error");
    assert(views(v@) =~= known_event_names()) by {
        reveal(known_event_names);
    }
    v
}

/// The last name of `names` whose hash is `hash`, if any: the one a
/// hash-keyed table keeps when later names overwrite earlier ones.
pub open spec fn last_named(names: Seq<Seq<char>>, hash: u32) -> Option<Seq<char>>
    decreases names.len(),
{
    if names.len() == 0 {
        None
    } else if name_hash(names.last()) == hash {
        Some(names.last())
    } else {
        last_named(names.drop_last(), hash)
    }
}

/// The table a registry of `names` builds: each name under its hash,
/// a later name replacing an earlier one with the same hash.
pub open spec fn names_table(names: Seq<Seq<char>>) -> Map<u32, Seq<char>>
    decreases names.len(),
{
    if names.len() == 0 {
        Map::empty()
    } else {
        names_table(names.drop_last()).insert(name_hash(names.last()), names.last())
    }
}

/// The table holds, under each hash, the last name with that hash.
proof fn lemma_table_last_named(names: Seq<Seq<char>>, hash: u32)
    ensures
        names_table(names).contains_key(hash) <==> last_named(names, hash) is Some,
        names_table(names).contains_key(hash) ==> last_named(names, hash) == Some(names_table(names)[hash]),
    decreases names.len(),
{
    if names.len() > 0 {
        lemma_table_last_named(names.drop_last(), hash);
    }
}

/// The registry: each known name under its hash.
pub struct EventNames {
    by_hash: HashMap<u32, &'static str>,
}

impl EventNames {
    /// The registry's table: each hash with the name it holds.
    pub closed spec fn table(self) -> Map<u32, Seq<char>> {
        Map::new(|h: u32| self.by_hash@.contains_key(h), |h: u32| self.by_hash@[h]@)
    }

    #[verifier::type_invariant]
    spec fn well_formed(self) -> bool {
        &&& forall|h: u32| #[trigger] self.by_hash@.contains_key(h) == names_table(known_event_names()).contains_key(h)
        &&& forall|h: u32| #[trigger] self.by_hash@.contains_key(h) ==> self.by_hash@[h]@ == names_table(known_event_names())[h]
    }

    /// Builds the registry from the known names.
    pub fn new() -> (r: Self)
        ensures
            r.table() == names_table(known_event_names()),
    {
        broadcast use vstd::std_specs::hash::group_hash_axioms;
        let names = known_events();
        let ghost k = known_event_names();
        let mut by_hash: HashMap<u32, &'static str> = HashMap::new();
        let mut i: usize = 0;
        assert(k.take(0) =~= Seq::<Seq<char>>::empty());
        while i < names.len()
            invariant
                i <= names@.len(),
                views(names@) == k,
                k == known_event_names(),
                forall|h: u32| #[trigger] by_hash@.contains_key(h) == names_table(k.take(i as int)).contains_key(h),
                forall|h: u32| #[trigger] by_hash@.contains_key(h) ==> by_hash@[h]@ == names_table(k.take(i as int))[h],
            decreases names@.len() - i,
        {
            let name: &'static str = names[i];
            assert(name@ == k[i as int]);
            let h = fnv1a_32(name);
            by_hash.insert(h, name);
            proof {
                assert(k.take(i + 1).drop_last() =~= k.take(i as int));
                assert(k.take(i + 1).last() == k[i as int]);
            }
            i = i + 1;
        }
        assert(k.take(names@.len() as int) =~= k);
        let r = EventNames { by_hash };
        assert(r.table() =~= names_table(k));
        r
    }

    /// The hash of a name, known or not (the bus dispatches any name).
    pub fn hash_of(&self, name: &str) -> (r: Option<u32>)
        ensures
            r == Some(str_hash(name)),
    {
        Some(fnv1a_32(name))
    }

    /// The known name with this hash (the last one registered, should
    /// two share it); `None` for a hash no known name has.
    pub fn name_of(&self, hash: u32) -> (r: Option<&'static str>)
        ensures
            match r {
                Some(n) => last_named(known_event_names(), hash) == Some(n@),
                None => last_named(known_event_names(), hash) is None,
            },
            forall|i: int|
                0 <= i < known_event_names().len() && name_hash(#[trigger] known_event_names()[i]) == hash
                    ==> (r matches Some(n) && n@ == known_event_names()[i]),
            (forall|i: int| 0 <= i < known_event_names().len() ==> name_hash(#[trigger] known_event_names()[i]) != hash)
                ==> r is None,
    {
        broadcast use vstd::std_specs::hash::group_hash_axioms;
        proof {
            use_type_invariant(self);
            lemma_table_last_named(known_event_names(), hash);
            lemma_known_hash_lookup(hash);
        }
        match self.by_hash.get(&hash) {
            Some(n) => Some(*n),
            None => None,
        }
    }

    /// The name to display for a hash: the known name, or the hash as
    /// `0x` and eight lowercase hex digits.
    pub fn display_name(&self, hash: u32) -> (s: String)
        ensures
            s@ == match last_named(known_event_names(), hash) {
                Some(n) => n,
                None => hex_u32_spec(hash),
            },
    {
        match self.name_of(hash) {
            Some(n) => n.to_owned(),
            None => hex_u32_08(hash),
        }
    }
}

/// A fresh registry (the orchestrator shares one).
pub fn registry() -> (r: EventNames)
    ensures
        r.table() == names_table(known_event_names()),
{
    EventNames::new()
}

/// A name found by hash has that hash.
pub proof fn law_name_of_has_hash(names: Seq<Seq<char>>, hash: u32)
    ensures
        last_named(names, hash) matches Some(n) ==> name_hash(n) == hash && names.contains(n),
    decreases names.len(),
{
    if names.len() > 0 {
        if name_hash(names.last()) != hash {
            law_name_of_has_hash(names.drop_last(), hash);
            match last_named(names, hash) {
                Some(n) => {
                    let j = choose|j: int| 0 <= j < names.drop_last().len() && names.drop_last()[j] == n;
                    assert(names[j] == n);
                },
                None => {},
            }
        } else {
            assert(names[names.len() - 1] == names.last());
        }
    }
}

/// A known name comes back from its own hash, provided no name
/// registered after it shares that hash.
pub proof fn law_known_name_round_trip(names: Seq<Seq<char>>, i: int)
    requires
        0 <= i < names.len(),
        forall|j: int| i < j < names.len() ==> name_hash(#[trigger] names[j]) != name_hash(names[i]),
    ensures
        last_named(names, name_hash(names[i])) == Some(names[i]),
    decreases names.len(),
{
    if i < names.len() - 1 {
        assert(names.last() == names[names.len() - 1]);
        assert(names.drop_last()[i] == names[i]);
        assert forall|j: int| i < j < names.drop_last().len() implies name_hash(#[trigger] names.drop_last()[j]) != name_hash(names.drop_last()[i]) by {
            assert(names.drop_last()[j] == names[j]);
        }
        law_known_name_round_trip(names.drop_last(), i);
    }
}

/// The FNV-1a folds of known event names, byte by byte.
proof fn lemma_fnv_chains_0()
    by (bit_vector)
    ensures
        fnv_step(fnv_step(fnv_step(fnv_step(fnv_step(fnv_step(fnv_step(fnv_step(fnv_step(fnv_step(fnv_step(fnv_step(fnv_step(fnv_step(fnv_step(fnv_step(fnv_step(fnv_step(fnv_step(fnv_step(fnv_step(fnv_step(fnv_step(FNV_OFFSET_BASIS, 114u8), 50u8), 46u8), 99u8), 111u8), 109u8), 112u8), 111u8), 115u8), 101u8), 114u8), 46u8), 97u8), 112u8), 105u8), 97u8), 114u8), 121u8), 46u8), 108u8), 105u8), 115u8), 116u8) == 0xf81ba1d5u32,
        fnv_step(fnv_step(fnv_step(fnv_step(fnv_step(fnv_step(fnv_step(fnv_step(fnv_step(fnv_step(fnv_step(fnv_step(fnv_step(fnv_step(fnv_step(fnv_step(fnv_step(fnv_step(fnv_step(fnv_step(fnv_step(fnv_step(fnv_step(fnv_step(FNV_OFFSET_BASIS, 114u8), 50u8), 46u8), 99u8), 111u8), 109u8), 112u8), 111u8), 115u8), 101u8), 114u8), 46u8), 97u8), 112u8), 105u8), 97u8), 114u8), 121u8), 46u8), 101u8), 110u8), 116u8), 114u8), 121u8) == 0xac44f447u32,
        fnv_step(fnv_step(fnv_step(fnv_step(fnv_step(fnv_step(fnv_step(fnv_step(fnv_step(fnv_step(fnv_step(fnv_step(fnv_step(fnv_step(fnv_step(fnv_step(fnv_step(fnv_step(fnv_step(fnv_step(fnv_step(fnv_step(fnv_step(FNV_OFFSET_BASIS, 114u8), 50u8), 46u8), 99u8), 111u8), 109u8), 112u8), 111u8), 115u8), 101u8), 114u8), 46u8), 97u8), 112u8), 105u8), 97u8), 114u8), 121u8), 46u8), 111u8), 112u8), 101u8), 110u8) == 0x7a3419d5u32,
        fnv_step(fnv_step(fnv_step(fnv_step(fnv_step(fnv_step(fnv_step(fnv_step(fnv_step(fnv_step(fnv_step(fnv_step(fnv_step(fnv_step(fnv_step(fnv_step(fnv_step(fnv_step(fnv_step(fnv_step(fnv_step(fnv_step(fnv_step(fnv_step(fnv_step(FNV_OFFSET_BASIS, 114u8), 50u8), 46u8), 99u8), 111u8), 109u8), 112u8), 111u8), 115u8), 101u8), 114u8), 46u8), 97u8), 112u8), 105u8), 97u8), 114u8), 121u8), 46u8), 97u8), 99u8), 116u8), 105u8), 118u8), 101u8) == 0x292fe80bu32,
        fnv_step(fnv_step(fnv_step(fnv_step(fnv_step(fnv_step(fnv_step(fnv_step(fnv_step(fnv_step(fnv_step(fnv_step(fnv_step(fnv_step(fnv_step(fnv_step(fnv_step(fnv_step(fnv_step(fnv_step(fnv_step(fnv_step(fnv_step(fnv_step(fnv_step(FNV_OFFSET_BASIS, 114u8), 50u8), 46u8), 99u8), 111u8), 109u8), 112u8), 111u8), 115u8), 101u8), 114u8), 46u8), 97u8), 112u8), 105u8), 97u8), 114u8), 121u8), 46u8), 99u8), 114u8), 101u8), 97u8), 116u8), 101u8) == 0x8c1d7959u32,
        fnv_step(fnv_step(fnv_step(fnv_step(fnv_step(fnv_step(fnv_step(fnv_step(fnv_step(fnv_step(fnv_step(fnv_step(fnv_step(fnv_step(fnv_step(fnv_step(fnv_step(fnv_step(fnv_step(fnv_step(fnv_step(fnv_step(fnv_step(FNV_OFFSET_BASIS, 114u8), 50u8), 46u8), 99u8), 111u8), 109u8), 112u8), 111u8), 115u8), 101u8), 114u8), 46u8), 97u8), 112u8), 105u8), 97u8), 114u8), 121u8), 46u8), 115u8), 97u8), 118u8), 101u8) == 0x3674651cu32,
        fnv_step(fnv_step(fnv_step(fnv_step(fnv_step(fnv_step(fnv_step(fnv_step(fnv_step(fnv_step(fnv_step(fnv_step(fnv_step(fnv_step(fnv_step(fnv_step(fnv_step(fnv_step(fnv_step(fnv_step(fnv_step(fnv_step(fnv_step(fnv_step(FNV_OFFSET_BASIS, 114u8), 50u8), 46u8), 99u8), 111u8), 109u8), 112u8), 111u8), 115u8), 101u8), 114u8), 46u8), 97u8), 112u8), 105u8), 97u8), 114u8), 121u8), 46u8), 99u8), 108u8), 111u8), 115u8), 101u8) == 0x4c1e5ce7u32,
        fnv_step(fnv_step(fnv_step(fnv_step(fnv_step(fnv_step(fnv_step(fnv_step(fnv_step(fnv_step(fnv_step(fnv_step(fnv_step(fnv_step(fnv_step(fnv_step(fnv_step(fnv_step(fnv_step(fnv_step(fnv_step(fnv_step(fnv_step(fnv_step(fnv_step(fnv_step(fnv_step(FNV_OFFSET_BASIS, 114u8), 50u8), 46u8), 99u8), 111u8), 109u8), 112u8), 111u8), 115u8), 101u8), 114u8), 46u8), 97u8), 112u8), 105u8), 97u8), 114u8), 121u8), 46u8), 103u8), 105u8), 116u8), 46u8), 105u8), 110u8), 105u8), 116u8) == 0x5f88f205u32,
        fnv_step(fnv_step(fnv_step(fnv_step(fnv_step(fnv_step(fnv_step(fnv_step(fnv_step(fnv_step(fnv_step(fnv_step(fnv_step(fnv_step(fnv_step(fnv_step(fnv_step(fnv_step(fnv_step(fnv_step(fnv_step(fnv_step(fnv_step(fnv_step(fnv_step(fnv_step(fnv_step(fnv_step(fnv_step(fnv_step(FNV_OFFSET_BASIS, 114u8), 50u8), 46u8), 99u8), 111u8), 109u8), 112u8), 111u8), 115u8), 101u8), 114u8), 46u8), 97u8), 112u8), 105u8), 97u8), 114u8), 121u8), 46u8), 103u8), 105u8), 116u8), 46u8), 112u8), 117u8), 98u8), 108u8), 105u8), 115u8), 104u8) == 0x396b61bau32,
        fnv_step(fnv_step(fnv_step(fnv_step(fnv_step(fnv_step(fnv_step(fnv_step(fnv_step(fnv_step(fnv_step(fnv_step(fnv_step(fnv_step(fnv_step(fnv_step(fnv_step(fnv_step(fnv_step(fnv_step(fnv_step(fnv_step(fnv_step(FNV_OFFSET_BASIS, 114u8), 50u8), 46u8), 99u8), 111u8), 109u8), 112u8), 111u8), 115u8), 101u8), 114u8), 46u8), 98u8), 117u8), 105u8), 108u8), 100u8), 46u8), 115u8), 116u8), 97u8), 114u8), 116u8) == 0x75baddefu32,
        fnv_step(fnv_step(fnv_step(fnv_step(fnv_step(fnv_step(fnv_step(fnv_step(fnv_step(fnv_step(fnv_step(fnv_step(fnv_step(fnv_step(fnv_step(fnv_step(fnv_step(fnv_step(fnv_step(fnv_step(fnv_step(fnv_step(fnv_step(fnv_step(fnv_step(fnv_step(FNV_OFFSET_BASIS, 114u8), 50u8), 46u8), 99u8), 111u8), 109u8), 112u8), 111u8), 115u8), 101u8), 114u8), 46u8), 98u8), 117u8), 105u8), 108u8), 100u8), 46u8), 112u8), 114u8), 111u8), 103u8), 114u8), 101u8), 115u8), 115u8) == 0xfaf83696u32,
        fnv_step(fnv_step(fnv_step(fnv_step(fnv_step(fnv_step(fnv_step(fnv_step(fnv_step(fnv_step(fnv_step(fnv_step(fnv_step(fnv_step(fnv_step(fnv_step(fnv_step(fnv_step(fnv_step(fnv_step(fnv_step(fnv_step(FNV_OFFSET_BASIS, 114u8), 50u8), 46u8), 99u8), 111u8), 109u8), 112u8), 111u8), 115u8), 101u8), 114u8), 46u8), 98u8), 117u8), 105u8), 108u8), 100u8), 46u8), 100u8), 111u8), 110u8), 101u8) == 0xe1e691e1u32,
{
}

proof fn lemma_known_hash_0()
    ensures
        name_hash("r2.composer.apiary.list"@) == 0xf81ba1d5u32,
{
    reveal_strlit("r2.composer.apiary.list");
    assert(vstd::utf8::is_ascii_chars("r2.composer.apiary.list"@));
    lemma_ascii_hash("r2.composer.apiary.list"@);
    reveal_with_fuel(fnv_prefix, 24);
    lemma_fnv_chains_0();
}

proof fn lemma_known_hash_1()
    ensures
        name_hash("r2.composer.apiary.entry"@) == 0xac44f447u32,
{
    reveal_strlit("r2.composer.apiary.entry");
    assert(vstd::utf8::is_ascii_chars("r2.composer.apiary.entry"@));
    lemma_ascii_hash("r2.composer.apiary.entry"@);
    reveal_with_fuel(fnv_prefix, 25);
    lemma_fnv_chains_0();
}

proof fn lemma_known_hash_2()
    ensures
        name_hash("r2.composer.apiary.open"@) == 0x7a3419d5u32,
{
    reveal_strlit("r2.composer.apiary.open");
    assert(vstd::utf8::is_ascii_chars("r2.composer.apiary.open"@));
    lemma_ascii_hash("r2.composer.apiary.open"@);
    reveal_with_fuel(fnv_prefix, 24);
    lemma_fnv_chains_0();
}

proof fn lemma_known_hash_3()
    ensures
        name_hash("r2.composer.apiary.active"@) == 0x292fe80bu32,
{
    reveal_strlit("r2.composer.apiary.active");
    assert(vstd::utf8::is_ascii_chars("r2.composer.apiary.active"@));
    lemma_ascii_hash("r2.composer.apiary.active"@);
    reveal_with_fuel(fnv_prefix, 26);
    lemma_fnv_chains_0();
}

proof fn lemma_known_hash_4()
    ensures
        name_hash("r2.composer.apiary.create"@) == 0x8c1d7959u32,
{
    reveal_strlit("r2.composer.apiary.create");
    assert(vstd::utf8::is_ascii_chars("r2.composer.apiary.create"@));
    lemma_ascii_hash("r2.composer.apiary.create"@);
    reveal_with_fuel(fnv_prefix, 26);
    lemma_fnv_chains_0();
}

proof fn lemma_known_hash_5()
    ensures
        name_hash("r2.composer.apiary.save"@) == 0x3674651cu32,
{
    reveal_strlit("r2.composer.apiary.save");
    assert(vstd::utf8::is_ascii_chars("r2.composer.apiary.save"@));
    lemma_ascii_hash("r2.composer.apiary.save"@);
    reveal_with_fuel(fnv_prefix, 24);
    lemma_fnv_chains_0();
}

proof fn lemma_known_hash_6()
    ensures
        name_hash("r2.composer.apiary.close"@) == 0x4c1e5ce7u32,
{
    reveal_strlit("r2.composer.apiary.close");
    assert(vstd::utf8::is_ascii_chars("r2.composer.apiary.close"@));
    lemma_ascii_hash("r2.composer.apiary.close"@);
    reveal_with_fuel(fnv_prefix, 25);
    lemma_fnv_chains_0();
}

proof fn lemma_known_hash_7()
    ensures
        name_hash("r2.composer.apiary.git.init"@) == 0x5f88f205u32,
{
    reveal_strlit("r2.composer.apiary.git.init");
    assert(vstd::utf8::is_ascii_chars("r2.composer.apiary.git.init"@));
    lemma_ascii_hash("r2.composer.apiary.git.init"@);
    reveal_with_fuel(fnv_prefix, 28);
    lemma_fnv_chains_0();
}

proof fn lemma_known_hash_8()
    ensures
        name_hash("r2.composer.apiary.git.publish"@) == 0x396b61bau32,
{
    reveal_strlit("r2.composer.apiary.git.publish");
    assert(vstd::utf8::is_ascii_chars("r2.composer.apiary.git.publish"@));
    lemma_ascii_hash("r2.composer.apiary.git.publish"@);
    reveal_with_fuel(fnv_prefix, 31);
    lemma_fnv_chains_0();
}

proof fn lemma_known_hash_9()
    ensures
        name_hash("r2.composer.build.start"@) == 0x75baddefu32,
{
    reveal_strlit("r2.composer.build.start");
    assert(vstd::utf8::is_ascii_chars("r2.composer.build.start"@));
    lemma_ascii_hash("r2.composer.build.start"@);
    reveal_with_fuel(fnv_prefix, 24);
    lemma_fnv_chains_0();
}

proof fn lemma_known_hash_10()
    ensures
        name_hash("r2.composer.build.progress"@) == 0xfaf83696u32,
{
    reveal_strlit("r2.composer.build.progress");
    assert(vstd::utf8::is_ascii_chars("r2.composer.build.progress"@));
    lemma_ascii_hash("r2.composer.build.progress"@);
    reveal_with_fuel(fnv_prefix, 27);
    lemma_fnv_chains_0();
}

proof fn lemma_known_hash_11()
    ensures
        name_hash("r2.composer.build.done"@) == 0xe1e691e1u32,
{
    reveal_strlit("r2.composer.build.done");
    assert(vstd::utf8::is_ascii_chars("r2.composer.build.done"@));
    lemma_ascii_hash("r2.composer.build.done"@);
    reveal_with_fuel(fnv_prefix, 23);
    lemma_fnv_chains_0();
}

/// The FNV-1a folds of known event names, byte by byte.
proof fn lemma_fnv_chains_1()
    by (bit_vector)
    ensures
        fnv_step(fnv_step(fnv_step(fnv_step(fnv_step(fnv_step(fnv_step(fnv_step(fnv_step(fnv_step(fnv_step(fnv_step(fnv_step(fnv_step(fnv_step(fnv_step(fnv_step(fnv_step(fnv_step(fnv_step(fnv_step(fnv_step(fnv_step(FNV_OFFSET_BASIS, 114u8), 50u8), 46u8), 99u8), 111u8), 109u8), 112u8), 111u8), 115u8), 101u8), 114u8), 46u8), 98u8), 117u8), 105u8), 108u8), 100u8), 46u8), 101u8), 114u8), 114u8), 111u8), 114u8) == 0xef403841u32,
        fnv_step(fnv_step(fnv_step(fnv_step(fnv_step(fnv_step(fnv_step(fnv_step(fnv_step(fnv_step(fnv_step(fnv_step(fnv_step(fnv_step(fnv_step(fnv_step(fnv_step(fnv_step(fnv_step(fnv_step(fnv_step(fnv_step(fnv_step(fnv_step(fnv_step(FNV_OFFSET_BASIS, 114u8), 50u8), 46u8), 99u8), 111u8), 109u8), 112u8), 111u8), 115u8), 101u8), 114u8), 46u8), 102u8), 108u8), 97u8), 115u8), 104u8), 46u8), 100u8), 101u8), 118u8), 105u8), 99u8), 101u8), 115u8) == 0xcfb38852u32,
        fnv_step(fnv_step(fnv_step(fnv_step(fnv_step(fnv_step(fnv_step(fnv_step(fnv_step(fnv_step(fnv_step(fnv_step(fnv_step(fnv_step(fnv_step(fnv_step(fnv_step(fnv_step(fnv_step(fnv_step(fnv_step(fnv_step(fnv_step(fnv_step(FNV_OFFSET_BASIS, 114u8), 50u8), 46u8), 99u8), 111u8), 109u8), 112u8), 111u8), 115u8), 101u8), 114u8), 46u8), 100u8), 101u8), 112u8), 108u8), 111u8), 121u8), 46u8), 115u8), 116u8), 97u8), 114u8), 116u8) == 0x173e41dau32,
        fnv_step(fnv_step(fnv_step(fnv_step(fnv_step(fnv_step(fnv_step(fnv_step(fnv_step(fnv_step(fnv_step(fnv_step(fnv_step(fnv_step(fnv_step(fnv_step(fnv_step(fnv_step(fnv_step(fnv_step(fnv_step(fnv_step(fnv_step(fnv_step(fnv_step(fnv_step(fnv_step(FNV_OFFSET_BASIS, 114u8), 50u8), 46u8), 99u8), 111u8), 109u8), 112u8), 111u8), 115u8), 101u8), 114u8), 46u8), 100u8), 101u8), 112u8), 108u8), 111u8), 121u8), 46u8), 112u8), 114u8), 111u8), 103u8), 114u8), 101u8), 115u8), 115u8) == 0x9cd8fb9du32,
        fnv_step(fnv_step(fnv_step(fnv_step(fnv_step(fnv_step(fnv_step(fnv_step(fnv_step(fnv_step(fnv_step(fnv_step(fnv_step(fnv_step(fnv_step(fnv_step(fnv_step(fnv_step(fnv_step(fnv_step(fnv_step(fnv_step(fnv_step(FNV_OFFSET_BASIS, 114u8), 50u8), 46u8), 99u8), 111u8), 109u8), 112u8), 111u8), 115u8), 101u8), 114u8), 46u8), 100u8), 101u8), 112u8), 108u8), 111u8), 121u8), 46u8), 100u8), 111u8), 110u8), 101u8) == 0xc23badeau32,
        fnv_step(fnv_step(fnv_step(fnv_step(fnv_step(fnv_step(fnv_step(fnv_step(fnv_step(fnv_step(fnv_step(fnv_step(fnv_step(fnv_step(fnv_step(fnv_step(fnv_step(fnv_step(fnv_step(fnv_step(fnv_step(fnv_step(fnv_step(fnv_step(FNV_OFFSET_BASIS, 114u8), 50u8), 46u8), 99u8), 111u8), 109u8), 112u8), 111u8), 115u8), 101u8), 114u8), 46u8), 100u8), 101u8), 112u8), 108u8), 111u8), 121u8), 46u8), 101u8), 114u8), 114u8), 111u8), 114u8) == 0x0cad6c84u32,
        fnv_step(fnv_step(fnv_step(fnv_step(fnv_step(fnv_step(fnv_step(fnv_step(fnv_step(fnv_step(fnv_step(fnv_step(fnv_step(fnv_step(fnv_step(fnv_step(fnv_step(fnv_step(fnv_step(fnv_step(fnv_step(fnv_step(fnv_step(fnv_step(fnv_step(fnv_step(fnv_step(fnv_step(fnv_step(fnv_step(FNV_OFFSET_BASIS, 114u8), 50u8), 46u8), 99u8), 111u8), 109u8), 112u8), 111u8), 115u8), 101u8), 114u8), 46u8), 100u8), 101u8), 118u8), 105u8), 99u8), 101u8), 46u8), 115u8), 108u8), 111u8), 116u8), 46u8), 99u8), 114u8), 101u8), 97u8), 116u8), 101u8) == 0xcf9f5015u32,
        fnv_step(fnv_step(fnv_step(fnv_step(fnv_step(fnv_step(fnv_step(fnv_step(fnv_step(fnv_step(fnv_step(fnv_step(fnv_step(fnv_step(fnv_step(fnv_step(fnv_step(fnv_step(fnv_step(fnv_step(fnv_step(fnv_step(fnv_step(FNV_OFFSET_BASIS, 114u8), 50u8), 46u8), 99u8), 111u8), 109u8), 112u8), 111u8), 115u8), 101u8), 114u8), 46u8), 100u8), 101u8), 118u8), 105u8), 99u8), 101u8), 46u8), 108u8), 105u8), 115u8), 116u8) == 0x361cb0d1u32,
        fnv_step(fnv_step(fnv_step(fnv_step(fnv_step(fnv_step(fnv_step(fnv_step(fnv_step(fnv_step(fnv_step(fnv_step(fnv_step(fnv_step(fnv_step(fnv_step(fnv_step(fnv_step(fnv_step(fnv_step(fnv_step(fnv_step(fnv_step(fnv_step(FNV_OFFSET_BASIS, 114u8), 50u8), 46u8), 99u8), 111u8), 109u8), 112u8), 111u8), 115u8), 101u8), 114u8), 46u8), 100u8), 101u8), 118u8), 105u8), 99u8), 101u8), 46u8), 101u8), 110u8), 116u8), 114u8), 121u8) == 0x7fce3aa3u32,
        fnv_step(fnv_step(fnv_step(fnv_step(fnv_step(fnv_step(fnv_step(fnv_step(fnv_step(fnv_step(fnv_step(fnv_step(fnv_step(fnv_step(fnv_step(fnv_step(fnv_step(fnv_step(fnv_step(fnv_step(fnv_step(fnv_step(fnv_step(fnv_step(fnv_step(fnv_step(fnv_step(fnv_step(fnv_step(FNV_OFFSET_BASIS, 114u8), 50u8), 46u8), 99u8), 111u8), 109u8), 112u8), 111u8), 115u8), 101u8), 114u8), 46u8), 100u8), 101u8), 118u8), 105u8), 99u8), 101u8), 46u8), 116u8), 114u8), 97u8), 110u8), 115u8), 105u8), 116u8), 105u8), 111u8), 110u8) == 0xba37eb72u32,
        fnv_step(fnv_step(fnv_step(fnv_step(fnv_step(fnv_step(fnv_step(fnv_step(fnv_step(fnv_step(fnv_step(fnv_step(fnv_step(fnv_step(fnv_step(fnv_step(fnv_step(fnv_step(fnv_step(fnv_step(fnv_step(fnv_step(fnv_step(fnv_step(fnv_step(fnv_step(fnv_step(fnv_step(fnv_step(fnv_step(FNV_OFFSET_BASIS, 114u8), 50u8), 46u8), 99u8), 111u8), 109u8), 112u8), 111u8), 115u8), 101u8), 114u8), 46u8), 100u8), 101u8), 118u8), 105u8), 99u8), 101u8), 46u8), 117u8), 110u8), 97u8), 99u8), 99u8), 111u8), 117u8), 110u8), 116u8), 101u8), 100u8) == 0x0adf52ecu32,
        fnv_step(fnv_step(fnv_step(fnv_step(fnv_step(fnv_step(fnv_step(fnv_step(fnv_step(fnv_step(fnv_step(fnv_step(fnv_step(fnv_step(fnv_step(fnv_step(fnv_step(fnv_step(fnv_step(fnv_step(fnv_step(fnv_step(fnv_step(fnv_step(fnv_step(FNV_OFFSET_BASIS, 114u8), 50u8), 46u8), 99u8), 111u8), 109u8), 112u8), 111u8), 115u8), 101u8), 114u8), 46u8), 100u8), 101u8), 118u8), 105u8), 99u8), 101u8), 46u8), 114u8), 101u8), 118u8), 111u8), 107u8), 101u8) == 0x77ae8d43u32,
{
}

proof fn lemma_known_hash_12()
    ensures
        name_hash("r2.composer.build.error"@) == 0xef403841u32,
{
    reveal_strlit("r2.composer.build.error");
    assert(vstd::utf8::is_ascii_chars("r2.composer.build.error"@));
    lemma_ascii_hash("r2.composer.build.error"@);
    reveal_with_fuel(fnv_prefix, 24);
    lemma_fnv_chains_1();
}

proof fn lemma_known_hash_13()
    ensures
        name_hash("r2.composer.flash.devices"@) == 0xcfb38852u32,
{
    reveal_strlit("r2.composer.flash.devices");
    assert(vstd::utf8::is_ascii_chars("r2.composer.flash.devices"@));
    lemma_ascii_hash("r2.composer.flash.devices"@);
    reveal_with_fuel(fnv_prefix, 26);
    lemma_fnv_chains_1();
}

proof fn lemma_known_hash_14()
    ensures
        name_hash("r2.composer.deploy.start"@) == 0x173e41dau32,
{
    reveal_strlit("r2.composer.deploy.start");
    assert(vstd::utf8::is_ascii_chars("r2.composer.deploy.start"@));
    lemma_ascii_hash("r2.composer.deploy.start"@);
    reveal_with_fuel(fnv_prefix, 25);
    lemma_fnv_chains_1();
}

proof fn lemma_known_hash_15()
    ensures
        name_hash("r2.composer.deploy.progress"@) == 0x9cd8fb9du32,
{
    reveal_strlit("r2.composer.deploy.progress");
    assert(vstd::utf8::is_ascii_chars("r2.composer.deploy.progress"@));
    lemma_ascii_hash("r2.composer.deploy.progress"@);
    reveal_with_fuel(fnv_prefix, 28);
    lemma_fnv_chains_1();
}

proof fn lemma_known_hash_16()
    ensures
        name_hash("r2.composer.deploy.done"@) == 0xc23badeau32,
{
    reveal_strlit("r2.composer.deploy.done");
    assert(vstd::utf8::is_ascii_chars("r2.composer.deploy.done"@));
    lemma_ascii_hash("r2.composer.deploy.done"@);
    reveal_with_fuel(fnv_prefix, 24);
    lemma_fnv_chains_1();
}

proof fn lemma_known_hash_17()
    ensures
        name_hash("r2.composer.deploy.error"@) == 0x0cad6c84u32,
{
    reveal_strlit("r2.composer.deploy.error");
    assert(vstd::utf8::is_ascii_chars("r2.composer.deploy.error"@));
    lemma_ascii_hash("r2.composer.deploy.error"@);
    reveal_with_fuel(fnv_prefix, 25);
    lemma_fnv_chains_1();
}

proof fn lemma_known_hash_18()
    ensures
        name_hash("r2.composer.device.slot.create"@) == 0xcf9f5015u32,
{
    reveal_strlit("r2.composer.device.slot.create");
    assert(vstd::utf8::is_ascii_chars("r2.composer.device.slot.create"@));
    lemma_ascii_hash("r2.composer.device.slot.create"@);
    reveal_with_fuel(fnv_prefix, 31);
    lemma_fnv_chains_1();
}

proof fn lemma_known_hash_19()
    ensures
        name_hash("r2.composer.device.list"@) == 0x361cb0d1u32,
{
    reveal_strlit("r2.composer.device.list");
    assert(vstd::utf8::is_ascii_chars("r2.composer.device.list"@));
    lemma_ascii_hash("r2.composer.device.list"@);
    reveal_with_fuel(fnv_prefix, 24);
    lemma_fnv_chains_1();
}

proof fn lemma_known_hash_20()
    ensures
        name_hash("r2.composer.device.entry"@) == 0x7fce3aa3u32,
{
    reveal_strlit("r2.composer.device.entry");
    assert(vstd::utf8::is_ascii_chars("r2.composer.device.entry"@));
    lemma_ascii_hash("r2.composer.device.entry"@);
    reveal_with_fuel(fnv_prefix, 25);
    lemma_fnv_chains_1();
}

proof fn lemma_known_hash_21()
    ensures
        name_hash("r2.composer.device.transition"@) == 0xba37eb72u32,
{
    reveal_strlit("r2.composer.device.transition");
    assert(vstd::utf8::is_ascii_chars("r2.composer.device.transition"@));
    lemma_ascii_hash("r2.composer.device.transition"@);
    reveal_with_fuel(fnv_prefix, 30);
    lemma_fnv_chains_1();
}

proof fn lemma_known_hash_22()
    ensures
        name_hash("r2.composer.device.unaccounted"@) == 0x0adf52ecu32,
{
    reveal_strlit("r2.composer.device.unaccounted");
    assert(vstd::utf8::is_ascii_chars("r2.composer.device.unaccounted"@));
    lemma_ascii_hash("r2.composer.device.unaccounted"@);
    reveal_with_fuel(fnv_prefix, 31);
    lemma_fnv_chains_1();
}

proof fn lemma_known_hash_23()
    ensures
        name_hash("r2.composer.device.revoke"@) == 0x77ae8d43u32,
{
    reveal_strlit("r2.composer.device.revoke");
    assert(vstd::utf8::is_ascii_chars("r2.composer.device.revoke"@));
    lemma_ascii_hash("r2.composer.device.revoke"@);
    reveal_with_fuel(fnv_prefix, 26);
    lemma_fnv_chains_1();
}

/// The FNV-1a folds of known event names, byte by byte.
proof fn lemma_fnv_chains_2()
    by (bit_vector)
    ensures
        fnv_step(fnv_step(fnv_step(fnv_step(fnv_step(fnv_step(fnv_step(fnv_step(fnv_step(fnv_step(fnv_step(fnv_step(fnv_step(fnv_step(fnv_step(fnv_step(fnv_step(fnv_step(fnv_step(fnv_step(fnv_step(fnv_step(fnv_step(fnv_step(fnv_step(FNV_OFFSET_BASIS, 114u8), 50u8), 46u8), 99u8), 111u8), 109u8), 112u8), 111u8), 115u8), 101u8), 114u8), 46u8), 100u8), 101u8), 118u8), 105u8), 99u8), 101u8), 46u8), 114u8), 101u8), 116u8), 105u8), 114u8), 101u8) == 0xb32bfe26u32,
        fnv_step(fnv_step(fnv_step(fnv_step(fnv_step(fnv_step(fnv_step(fnv_step(fnv_step(fnv_step(fnv_step(fnv_step(fnv_step(fnv_step(fnv_step(fnv_step(fnv_step(fnv_step(fnv_step(fnv_step(fnv_step(fnv_step(fnv_step(fnv_step(FNV_OFFSET_BASIS, 114u8), 50u8), 46u8), 99u8), 111u8), 109u8), 112u8), 111u8), 115u8), 101u8), 114u8), 46u8), 100u8), 101u8), 118u8), 105u8), 99u8), 101u8), 46u8), 112u8), 117u8), 114u8), 103u8), 101u8) == 0x4247ea54u32,
        fnv_step(fnv_step(fnv_step(fnv_step(fnv_step(fnv_step(fnv_step(fnv_step(fnv_step(fnv_step(fnv_step(fnv_step(fnv_step(fnv_step(fnv_step(fnv_step(fnv_step(fnv_step(fnv_step(fnv_step(fnv_step(fnv_step(fnv_step(fnv_step(FNV_OFFSET_BASIS, 114u8), 50u8), 46u8), 99u8), 111u8), 109u8), 112u8), 111u8), 115u8), 101u8), 114u8), 46u8), 117u8), 115u8), 98u8), 46u8), 97u8), 116u8), 116u8), 97u8), 99u8), 104u8), 101u8), 100u8) == 0xb9d72303u32,
        fnv_step(fnv_step(fnv_step(fnv_step(fnv_step(fnv_step(fnv_step(fnv_step(fnv_step(fnv_step(fnv_step(fnv_step(fnv_step(fnv_step(fnv_step(fnv_step(fnv_step(fnv_step(fnv_step(fnv_step(fnv_step(fnv_step(fnv_step(fnv_step(FNV_OFFSET_BASIS, 114u8), 50u8), 46u8), 99u8), 111u8), 109u8), 112u8), 111u8), 115u8), 101u8), 114u8), 46u8), 117u8), 115u8), 98u8), 46u8), 100u8), 101u8), 116u8), 97u8), 99u8), 104u8), 101u8), 100u8) == 0x1d8bc559u32,
        fnv_step(fnv_step(fnv_step(fnv_step(fnv_step(fnv_step(fnv_step(fnv_step(fnv_step(fnv_step(fnv_step(fnv_step(fnv_step(fnv_step(fnv_step(fnv_step(fnv_step(fnv_step(fnv_step(fnv_step(FNV_OFFSET_BASIS, 114u8), 50u8), 46u8), 99u8), 111u8), 109u8), 112u8), 111u8), 115u8), 101u8), 114u8), 46u8), 117u8), 115u8), 98u8), 46u8), 108u8), 105u8), 115u8), 116u8) == 0x7a6509ffu32,
        fnv_step(fnv_step(fnv_step(fnv_step(fnv_step(fnv_step(fnv_step(fnv_step(fnv_step(fnv_step(fnv_step(fnv_step(fnv_step(fnv_step(fnv_step(fnv_step(fnv_step(fnv_step(fnv_step(fnv_step(fnv_step(fnv_step(fnv_step(fnv_step(FNV_OFFSET_BASIS, 114u8), 50u8), 46u8), 99u8), 111u8), 109u8), 112u8), 111u8), 115u8), 101u8), 114u8), 46u8), 117u8), 115u8), 98u8), 46u8), 105u8), 100u8), 101u8), 110u8), 116u8), 105u8), 102u8), 121u8) == 0x5a922df7u32,
        fnv_step(fnv_step(fnv_step(fnv_step(fnv_step(fnv_step(fnv_step(fnv_step(fnv_step(fnv_step(fnv_step(fnv_step(fnv_step(fnv_step(fnv_step(fnv_step(fnv_step(fnv_step(fnv_step(fnv_step(fnv_step(fnv_step(fnv_step(fnv_step(fnv_step(fnv_step(fnv_step(fnv_step(fnv_step(fnv_step(fnv_step(fnv_step(fnv_step(fnv_step(fnv_step(fnv_step(fnv_step(fnv_step(FNV_OFFSET_BASIS, 114u8), 50u8), 46u8), 99u8), 111u8), 109u8), 112u8), 111u8), 115u8), 101u8), 114u8), 46u8), 100u8), 101u8), 112u8), 108u8), 111u8), 121u8), 46u8), 102u8), 105u8), 114u8), 115u8), 116u8), 95u8), 105u8), 110u8), 115u8), 116u8), 97u8), 108u8), 108u8), 46u8), 115u8), 116u8), 97u8), 114u8), 116u8) == 0xd18a0c02u32,
        fnv_step(fnv_step(fnv_step(fnv_step(fnv_step(fnv_step(fnv_step(fnv_step(fnv_step(fnv_step(fnv_step(fnv_step(fnv_step(fnv_step(fnv_step(fnv_step(fnv_step(fnv_step(fnv_step(fnv_step(fnv_step(fnv_step(fnv_step(fnv_step(fnv_step(fnv_step(fnv_step(fnv_step(fnv_step(fnv_step(fnv_step(fnv_step(fnv_step(fnv_step(fnv_step(fnv_step(fnv_step(fnv_step(fnv_step(fnv_step(fnv_step(FNV_OFFSET_BASIS, 114u8), 50u8), 46u8), 99u8), 111u8), 109u8), 112u8), 111u8), 115u8), 101u8), 114u8), 46u8), 100u8), 101u8), 112u8), 108u8), 111u8), 121u8), 46u8), 102u8), 105u8), 114u8), 115u8), 116u8), 95u8), 105u8), 110u8), 115u8), 116u8), 97u8), 108u8), 108u8), 46u8), 112u8), 114u8), 111u8), 103u8), 114u8), 101u8), 115u8), 115u8) == 0x707618e5u32,
        fnv_step(fnv_step(fnv_step(fnv_step(fnv_step(fnv_step(fnv_step(fnv_step(fnv_step(fnv_step(fnv_step(fnv_step(fnv_step(fnv_step(fnv_step(fnv_step(fnv_step(fnv_step(fnv_step(fnv_step(fnv_step(fnv_step(fnv_step(fnv_step(fnv_step(fnv_step(fnv_step(fnv_step(fnv_step(fnv_step(fnv_step(fnv_step(fnv_step(fnv_step(fnv_step(fnv_step(fnv_step(FNV_OFFSET_BASIS, 114u8), 50u8), 46u8), 99u8), 111u8), 109u8), 112u8), 111u8), 115u8), 101u8), 114u8), 46u8), 100u8), 101u8), 112u8), 108u8), 111u8), 121u8), 46u8), 102u8), 105u8), 114u8), 115u8), 116u8), 95u8), 105u8), 110u8), 115u8), 116u8), 97u8), 108u8), 108u8), 46u8), 100u8), 111u8), 110u8), 101u8) == 0xf5b8c5a2u32,
        fnv_step(fnv_step(fnv_step(fnv_step(fnv_step(fnv_step(fnv_step(fnv_step(fnv_step(fnv_step(fnv_step(fnv_step(fnv_step(fnv_step(fnv_step(fnv_step(fnv_step(fnv_step(fnv_step(fnv_step(fnv_step(fnv_step(fnv_step(fnv_step(fnv_step(fnv_step(fnv_step(fnv_step(fnv_step(fnv_step(fnv_step(fnv_step(fnv_step(fnv_step(fnv_step(fnv_step(fnv_step(fnv_step(FNV_OFFSET_BASIS, 114u8), 50u8), 46u8), 99u8), 111u8), 109u8), 112u8), 111u8), 115u8), 101u8), 114u8), 46u8), 100u8), 101u8), 112u8), 108u8), 111u8), 121u8), 46u8), 102u8), 105u8), 114u8), 115u8), 116u8), 95u8), 105u8), 110u8), 115u8), 116u8), 97u8), 108u8), 108u8), 46u8), 101u8), 114u8), 114u8), 111u8), 114u8) == 0xd5ac88dcu32,
        fnv_step(fnv_step(fnv_step(fnv_step(fnv_step(fnv_step(fnv_step(fnv_step(fnv_step(fnv_step(fnv_step(fnv_step(fnv_step(fnv_step(fnv_step(fnv_step(fnv_step(fnv_step(fnv_step(fnv_step(fnv_step(fnv_step(fnv_step(fnv_step(fnv_step(fnv_step(fnv_step(fnv_step(fnv_step(fnv_step(fnv_step(fnv_step(fnv_step(fnv_step(fnv_step(fnv_step(FNV_OFFSET_BASIS, 114u8), 50u8), 46u8), 99u8), 111u8), 109u8), 112u8), 111u8), 115u8), 101u8), 114u8), 46u8), 112u8), 114u8), 111u8), 118u8), 105u8), 115u8), 105u8), 111u8), 110u8), 46u8), 110u8), 101u8), 116u8), 119u8), 111u8), 114u8), 107u8), 46u8), 117u8), 112u8), 115u8), 101u8), 114u8), 116u8) == 0xda2b9a87u32,
        fnv_step(fnv_step(fnv_step(fnv_step(fnv_step(fnv_step(fnv_step(fnv_step(fnv_step(fnv_step(fnv_step(fnv_step(fnv_step(fnv_step(fnv_step(fnv_step(fnv_step(fnv_step(fnv_step(fnv_step(fnv_step(fnv_step(fnv_step(fnv_step(fnv_step(fnv_step(fnv_step(fnv_step(fnv_step(fnv_step(fnv_step(fnv_step(fnv_step(fnv_step(fnv_step(fnv_step(fnv_step(fnv_step(FNV_OFFSET_BASIS, 114u8), 50u8), 46u8), 99u8), 111u8), 109u8), 112u8), 111u8), 115u8), 101u8), 114u8), 46u8), 112u8), 114u8), 111u8), 118u8), 105u8), 115u8), 105u8), 111u8), 110u8), 46u8), 110u8), 101u8), 116u8), 119u8), 111u8), 114u8), 107u8), 46u8), 117u8), 112u8), 115u8), 101u8), 114u8), 116u8), 101u8), 100u8) == 0xe1760206u32,
{
}

proof fn lemma_known_hash_24()
    ensures
        name_hash("r2.composer.device.retire"@) == 0xb32bfe26u32,
{
    reveal_strlit("r2.composer.device.retire");
    assert(vstd::utf8::is_ascii_chars("r2.composer.device.retire"@));
    lemma_ascii_hash("r2.composer.device.retire"@);
    reveal_with_fuel(fnv_prefix, 26);
    lemma_fnv_chains_2();
}

proof fn lemma_known_hash_25()
    ensures
        name_hash("r2.composer.device.purge"@) == 0x4247ea54u32,
{
    reveal_strlit("r2.composer.device.purge");
    assert(vstd::utf8::is_ascii_chars("r2.composer.device.purge"@));
    lemma_ascii_hash("r2.composer.device.purge"@);
    reveal_with_fuel(fnv_prefix, 25);
    lemma_fnv_chains_2();
}

proof fn lemma_known_hash_26()
    ensures
        name_hash("r2.composer.usb.attached"@) == 0xb9d72303u32,
{
    reveal_strlit("r2.composer.usb.attached");
    assert(vstd::utf8::is_ascii_chars("r2.composer.usb.attached"@));
    lemma_ascii_hash("r2.composer.usb.attached"@);
    reveal_with_fuel(fnv_prefix, 25);
    lemma_fnv_chains_2();
}

proof fn lemma_known_hash_27()
    ensures
        name_hash("r2.composer.usb.detached"@) == 0x1d8bc559u32,
{
    reveal_strlit("r2.composer.usb.detached");
    assert(vstd::utf8::is_ascii_chars("r2.composer.usb.detached"@));
    lemma_ascii_hash("r2.composer.usb.detached"@);
    reveal_with_fuel(fnv_prefix, 25);
    lemma_fnv_chains_2();
}

proof fn lemma_known_hash_28()
    ensures
        name_hash("r2.composer.usb.list"@) == 0x7a6509ffu32,
{
    reveal_strlit("r2.composer.usb.list");
    assert(vstd::utf8::is_ascii_chars("r2.composer.usb.list"@));
    lemma_ascii_hash("r2.composer.usb.list"@);
    reveal_with_fuel(fnv_prefix, 21);
    lemma_fnv_chains_2();
}

proof fn lemma_known_hash_29()
    ensures
        name_hash("r2.composer.usb.identify"@) == 0x5a922df7u32,
{
    reveal_strlit("r2.composer.usb.identify");
    assert(vstd::utf8::is_ascii_chars("r2.composer.usb.identify"@));
    lemma_ascii_hash("r2.composer.usb.identify"@);
    reveal_with_fuel(fnv_prefix, 25);
    lemma_fnv_chains_2();
}

proof fn lemma_known_hash_30()
    ensures
        name_hash("r2.composer.deploy.first_install.start"@) == 0xd18a0c02u32,
{
    reveal_strlit("r2.composer.deploy.first_install.start");
    assert(vstd::utf8::is_ascii_chars("r2.composer.deploy.first_install.start"@));
    lemma_ascii_hash("r2.composer.deploy.first_install.start"@);
    reveal_with_fuel(fnv_prefix, 39);
    lemma_fnv_chains_2();
}

proof fn lemma_known_hash_31()
    ensures
        name_hash("r2.composer.deploy.first_install.progress"@) == 0x707618e5u32,
{
    reveal_strlit("r2.composer.deploy.first_install.progress");
    assert(vstd::utf8::is_ascii_chars("r2.composer.deploy.first_install.progress"@));
    lemma_ascii_hash("r2.composer.deploy.first_install.progress"@);
    reveal_with_fuel(fnv_prefix, 42);
    lemma_fnv_chains_2();
}

proof fn lemma_known_hash_32()
    ensures
        name_hash("r2.composer.deploy.first_install.done"@) == 0xf5b8c5a2u32,
{
    reveal_strlit("r2.composer.deploy.first_install.done");
    assert(vstd::utf8::is_ascii_chars("r2.composer.deploy.first_install.done"@));
    lemma_ascii_hash("r2.composer.deploy.first_install.done"@);
    reveal_with_fuel(fnv_prefix, 38);
    lemma_fnv_chains_2();
}

proof fn lemma_known_hash_33()
    ensures
        name_hash("r2.composer.deploy.first_install.error"@) == 0xd5ac88dcu32,
{
    reveal_strlit("r2.composer.deploy.first_install.error");
    assert(vstd::utf8::is_ascii_chars("r2.composer.deploy.first_install.error"@));
    lemma_ascii_hash("r2.composer.deploy.first_install.error"@);
    reveal_with_fuel(fnv_prefix, 39);
    lemma_fnv_chains_2();
}

proof fn lemma_known_hash_34()
    ensures
        name_hash("r2.composer.provision.network.upsert"@) == 0xda2b9a87u32,
{
    reveal_strlit("r2.composer.provision.network.upsert");
    assert(vstd::utf8::is_ascii_chars("r2.composer.provision.network.upsert"@));
    lemma_ascii_hash("r2.composer.provision.network.upsert"@);
    reveal_with_fuel(fnv_prefix, 37);
    lemma_fnv_chains_2();
}

proof fn lemma_known_hash_35()
    ensures
        name_hash("r2.composer.provision.network.upserted"@) == 0xe1760206u32,
{
    reveal_strlit("r2.composer.provision.network.upserted");
    assert(vstd::utf8::is_ascii_chars("r2.composer.provision.network.upserted"@));
    lemma_ascii_hash("r2.composer.provision.network.upserted"@);
    reveal_with_fuel(fnv_prefix, 39);
    lemma_fnv_chains_2();
}

/// The FNV-1a folds of known event names, byte by byte.
proof fn lemma_fnv_chains_3()
    by (bit_vector)
    ensures
        fnv_step(fnv_step(fnv_step(fnv_step(fnv_step(fnv_step(fnv_step(fnv_step(fnv_step(fnv_step(fnv_step(fnv_step(fnv_step(fnv_step(fnv_step(fnv_step(fnv_step(fnv_step(fnv_step(fnv_step(fnv_step(fnv_step(fnv_step(fnv_step(fnv_step(fnv_step(fnv_step(fnv_step(fnv_step(fnv_step(fnv_step(fnv_step(fnv_step(fnv_step(fnv_step(FNV_OFFSET_BASIS, 114u8), 50u8), 46u8), 99u8), 111u8), 109u8), 112u8), 111u8), 115u8), 101u8), 114u8), 46u8), 112u8), 114u8), 111u8), 118u8), 105u8), 115u8), 105u8), 111u8), 110u8), 46u8), 110u8), 101u8), 116u8), 119u8), 111u8), 114u8), 107u8), 115u8), 46u8), 108u8), 105u8), 115u8), 116u8) == 0xb4ac314fu32,
        fnv_step(fnv_step(fnv_step(fnv_step(fnv_step(fnv_step(fnv_step(fnv_step(fnv_step(fnv_step(fnv_step(fnv_step(fnv_step(fnv_step(fnv_step(fnv_step(fnv_step(fnv_step(fnv_step(fnv_step(fnv_step(fnv_step(fnv_step(fnv_step(fnv_step(fnv_step(fnv_step(fnv_step(fnv_step(fnv_step(fnv_step(fnv_step(fnv_step(fnv_step(fnv_step(fnv_step(fnv_step(FNV_OFFSET_BASIS, 114u8), 50u8), 46u8), 99u8), 111u8), 109u8), 112u8), 111u8), 115u8), 101u8), 114u8), 46u8), 112u8), 114u8), 111u8), 118u8), 105u8), 115u8), 105u8), 111u8), 110u8), 46u8), 110u8), 101u8), 116u8), 119u8), 111u8), 114u8), 107u8), 115u8), 46u8), 108u8), 105u8), 115u8), 116u8), 101u8), 100u8) == 0x2462bf0eu32,
        fnv_step(fnv_step(fnv_step(fnv_step(fnv_step(fnv_step(fnv_step(fnv_step(fnv_step(fnv_step(fnv_step(fnv_step(fnv_step(fnv_step(fnv_step(fnv_step(fnv_step(fnv_step(fnv_step(fnv_step(fnv_step(fnv_step(fnv_step(fnv_step(fnv_step(fnv_step(fnv_step(fnv_step(fnv_step(fnv_step(fnv_step(fnv_step(fnv_step(FNV_OFFSET_BASIS, 114u8), 50u8), 46u8), 99u8), 111u8), 109u8), 112u8), 111u8), 115u8), 101u8), 114u8), 46u8), 112u8), 114u8), 111u8), 118u8), 105u8), 115u8), 105u8), 111u8), 110u8), 46u8), 111u8), 102u8), 102u8), 101u8), 114u8), 46u8), 115u8), 116u8), 97u8), 114u8), 116u8) == 0x205b8590u32,
        fnv_step(fnv_step(fnv_step(fnv_step(fnv_step(fnv_step(fnv_step(fnv_step(fnv_step(fnv_step(fnv_step(fnv_step(fnv_step(fnv_step(fnv_step(fnv_step(fnv_step(fnv_step(fnv_step(fnv_step(fnv_step(fnv_step(fnv_step(fnv_step(fnv_step(fnv_step(fnv_step(fnv_step(fnv_step(fnv_step(fnv_step(fnv_step(fnv_step(fnv_step(fnv_step(fnv_step(FNV_OFFSET_BASIS, 114u8), 50u8), 46u8), 99u8), 111u8), 109u8), 112u8), 111u8), 115u8), 101u8), 114u8), 46u8), 112u8), 114u8), 111u8), 118u8), 105u8), 115u8), 105u8), 111u8), 110u8), 46u8), 111u8), 102u8), 102u8), 101u8), 114u8), 46u8), 112u8), 114u8), 111u8), 103u8), 114u8), 101u8), 115u8), 115u8) == 0xb5e1fef7u32,
        fnv_step(fnv_step(fnv_step(fnv_step(fnv_step(fnv_step(fnv_step(fnv_step(fnv_step(fnv_step(fnv_step(fnv_step(fnv_step(fnv_step(fnv_step(fnv_step(fnv_step(fnv_step(fnv_step(fnv_step(fnv_step(fnv_step(fnv_step(fnv_step(fnv_step(fnv_step(fnv_step(fnv_step(fnv_step(fnv_step(fnv_step(fnv_step(fnv_step(fnv_step(fnv_step(fnv_step(FNV_OFFSET_BASIS, 114u8), 50u8), 46u8), 99u8), 111u8), 109u8), 112u8), 111u8), 115u8), 101u8), 114u8), 46u8), 112u8), 114u8), 111u8), 118u8), 105u8), 115u8), 105u8), 111u8), 110u8), 46u8), 111u8), 102u8), 102u8), 101u8), 114u8), 46u8), 99u8), 111u8), 109u8), 112u8), 111u8), 115u8), 101u8), 100u8) == 0x14a3810cu32,
        fnv_step(fnv_step(fnv_step(fnv_step(fnv_step(fnv_step(fnv_step(fnv_step(fnv_step(fnv_step(fnv_step(fnv_step(fnv_step(fnv_step(fnv_step(fnv_step(fnv_step(fnv_step(fnv_step(fnv_step(fnv_step(fnv_step(fnv_step(fnv_step(fnv_step(fnv_step(fnv_step(fnv_step(fnv_step(fnv_step(fnv_step(fnv_step(fnv_step(FNV_OFFSET_BASIS, 114u8), 50u8), 46u8), 99u8), 111u8), 109u8), 112u8), 111u8), 115u8), 101u8), 114u8), 46u8), 112u8), 114u8), 111u8), 118u8), 105u8), 115u8), 105u8), 111u8), 110u8), 46u8), 99u8), 101u8), 114u8), 116u8), 95u8), 105u8), 115u8), 115u8), 117u8), 101u8), 100u8) == 0xc1b01d8au32,
        fnv_step(fnv_step(fnv_step(fnv_step(fnv_step(fnv_step(fnv_step(fnv_step(fnv_step(fnv_step(fnv_step(fnv_step(fnv_step(fnv_step(fnv_step(fnv_step(fnv_step(fnv_step(fnv_step(fnv_step(fnv_step(fnv_step(fnv_step(fnv_step(fnv_step(fnv_step(fnv_step(fnv_step(fnv_step(fnv_step(fnv_step(fnv_step(FNV_OFFSET_BASIS, 114u8), 50u8), 46u8), 99u8), 111u8), 109u8), 112u8), 111u8), 115u8), 101u8), 114u8), 46u8), 112u8), 114u8), 111u8), 118u8), 105u8), 115u8), 105u8), 111u8), 110u8), 46u8), 99u8), 101u8), 114u8), 116u8), 95u8), 101u8), 114u8), 114u8), 111u8), 114u8) == 0x8470bd3bu32,
        fnv_step(fnv_step(fnv_step(fnv_step(fnv_step(fnv_step(fnv_step(fnv_step(fnv_step(fnv_step(fnv_step(fnv_step(fnv_step(fnv_step(fnv_step(fnv_step(fnv_step(fnv_step(fnv_step(fnv_step(fnv_step(fnv_step(fnv_step(fnv_step(fnv_step(fnv_step(fnv_step(FNV_OFFSET_BASIS, 114u8), 50u8), 46u8), 99u8), 111u8), 109u8), 112u8), 111u8), 115u8), 101u8), 114u8), 46u8), 112u8), 114u8), 111u8), 118u8), 105u8), 115u8), 105u8), 111u8), 110u8), 46u8), 101u8), 114u8), 114u8), 111u8), 114u8) == 0x3316472au32,
        fnv_step(fnv_step(fnv_step(fnv_step(fnv_step(fnv_step(fnv_step(fnv_step(fnv_step(fnv_step(fnv_step(fnv_step(fnv_step(fnv_step(fnv_step(fnv_step(fnv_step(fnv_step(fnv_step(fnv_step(fnv_step(fnv_step(fnv_step(fnv_step(fnv_step(fnv_step(fnv_step(fnv_step(fnv_step(fnv_step(fnv_step(fnv_step(fnv_step(fnv_step(fnv_step(fnv_step(FNV_OFFSET_BASIS, 114u8), 50u8), 46u8), 99u8), 111u8), 109u8), 112u8), 111u8), 115u8), 101u8), 114u8), 46u8), 100u8), 101u8), 118u8), 105u8), 99u8), 101u8), 46u8), 105u8), 100u8), 101u8), 110u8), 116u8), 105u8), 116u8), 121u8), 95u8), 111u8), 98u8), 115u8), 101u8), 114u8), 118u8), 101u8), 100u8) == 0x921f348cu32,
        fnv_step(fnv_step(fnv_step(fnv_step(fnv_step(fnv_step(fnv_step(fnv_step(fnv_step(fnv_step(fnv_step(fnv_step(fnv_step(fnv_step(fnv_step(fnv_step(fnv_step(fnv_step(fnv_step(fnv_step(fnv_step(fnv_step(fnv_step(fnv_step(fnv_step(fnv_step(fnv_step(FNV_OFFSET_BASIS, 114u8), 50u8), 46u8), 99u8), 111u8), 109u8), 112u8), 111u8), 115u8), 101u8), 114u8), 46u8), 100u8), 101u8), 118u8), 105u8), 99u8), 101u8), 46u8), 101u8), 110u8), 114u8), 111u8), 108u8), 108u8), 101u8), 100u8) == 0xb9cc069cu32,
        fnv_step(fnv_step(fnv_step(fnv_step(fnv_step(fnv_step(fnv_step(fnv_step(fnv_step(fnv_step(fnv_step(fnv_step(fnv_step(fnv_step(fnv_step(fnv_step(fnv_step(fnv_step(fnv_step(fnv_step(fnv_step(fnv_step(fnv_step(fnv_step(fnv_step(fnv_step(fnv_step(fnv_step(fnv_step(fnv_step(FNV_OFFSET_BASIS, 114u8), 50u8), 46u8), 99u8), 111u8), 109u8), 112u8), 111u8), 115u8), 101u8), 114u8), 46u8), 100u8), 101u8), 112u8), 108u8), 111u8), 121u8), 46u8), 98u8), 97u8), 116u8), 99u8), 104u8), 46u8), 115u8), 116u8), 97u8), 114u8), 116u8) == 0x08c9a77cu32,
        fnv_step(fnv_step(fnv_step(fnv_step(fnv_step(fnv_step(fnv_step(fnv_step(fnv_step(fnv_step(fnv_step(fnv_step(fnv_step(fnv_step(fnv_step(fnv_step(fnv_step(fnv_step(fnv_step(fnv_step(fnv_step(fnv_step(fnv_step(fnv_step(fnv_step(fnv_step(fnv_step(fnv_step(fnv_step(FNV_OFFSET_BASIS, 114u8), 50u8), 46u8), 99u8), 111u8), 109u8), 112u8), 111u8), 115u8), 101u8), 114u8), 46u8), 100u8), 101u8), 112u8), 108u8), 111u8), 121u8), 46u8), 98u8), 97u8), 116u8), 99u8), 104u8), 46u8), 100u8), 111u8), 110u8), 101u8) == 0xc600ae30u32,
{
}

proof fn lemma_known_hash_36()
    ensures
        name_hash("r2.composer.provision.networks.list"@) == 0xb4ac314fu32,
{
    reveal_strlit("r2.composer.provision.networks.list");
    assert(vstd::utf8::is_ascii_chars("r2.composer.provision.networks.list"@));
    lemma_ascii_hash("r2.composer.provision.networks.list"@);
    reveal_with_fuel(fnv_prefix, 36);
    lemma_fnv_chains_3();
}

proof fn lemma_known_hash_37()
    ensures
        name_hash("r2.composer.provision.networks.listed"@) == 0x2462bf0eu32,
{
    reveal_strlit("r2.composer.provision.networks.listed");
    assert(vstd::utf8::is_ascii_chars("r2.composer.provision.networks.listed"@));
    lemma_ascii_hash("r2.composer.provision.networks.listed"@);
    reveal_with_fuel(fnv_prefix, 38);
    lemma_fnv_chains_3();
}

proof fn lemma_known_hash_38()
    ensures
        name_hash("r2.composer.provision.offer.start"@) == 0x205b8590u32,
{
    reveal_strlit("r2.composer.provision.offer.start");
    assert(vstd::utf8::is_ascii_chars("r2.composer.provision.offer.start"@));
    lemma_ascii_hash("r2.composer.provision.offer.start"@);
    reveal_with_fuel(fnv_prefix, 34);
    lemma_fnv_chains_3();
}

proof fn lemma_known_hash_39()
    ensures
        name_hash("r2.composer.provision.offer.progress"@) == 0xb5e1fef7u32,
{
    reveal_strlit("r2.composer.provision.offer.progress");
    assert(vstd::utf8::is_ascii_chars("r2.composer.provision.offer.progress"@));
    lemma_ascii_hash("r2.composer.provision.offer.progress"@);
    reveal_with_fuel(fnv_prefix, 37);
    lemma_fnv_chains_3();
}

proof fn lemma_known_hash_40()
    ensures
        name_hash("r2.composer.provision.offer.composed"@) == 0x14a3810cu32,
{
    reveal_strlit("r2.composer.provision.offer.composed");
    assert(vstd::utf8::is_ascii_chars("r2.composer.provision.offer.composed"@));
    lemma_ascii_hash("r2.composer.provision.offer.composed"@);
    reveal_with_fuel(fnv_prefix, 37);
    lemma_fnv_chains_3();
}

proof fn lemma_known_hash_41()
    ensures
        name_hash("r2.composer.provision.cert_issued"@) == 0xc1b01d8au32,
{
    reveal_strlit("r2.composer.provision.cert_issued");
    assert(vstd::utf8::is_ascii_chars("r2.composer.provision.cert_issued"@));
    lemma_ascii_hash("r2.composer.provision.cert_issued"@);
    reveal_with_fuel(fnv_prefix, 34);
    lemma_fnv_chains_3();
}

proof fn lemma_known_hash_42()
    ensures
        name_hash("r2.composer.provision.cert_error"@) == 0x8470bd3bu32,
{
    reveal_strlit("r2.composer.provision.cert_error");
    assert(vstd::utf8::is_ascii_chars("r2.composer.provision.cert_error"@));
    lemma_ascii_hash("r2.composer.provision.cert_error"@);
    reveal_with_fuel(fnv_prefix, 33);
    lemma_fnv_chains_3();
}

proof fn lemma_known_hash_43()
    ensures
        name_hash("r2.composer.provision.error"@) == 0x3316472au32,
{
    reveal_strlit("r2.composer.provision.error");
    assert(vstd::utf8::is_ascii_chars("r2.composer.provision.error"@));
    lemma_ascii_hash("r2.composer.provision.error"@);
    reveal_with_fuel(fnv_prefix, 28);
    lemma_fnv_chains_3();
}

proof fn lemma_known_hash_44()
    ensures
        name_hash("r2.composer.device.identity_observed"@) == 0x921f348cu32,
{
    reveal_strlit("r2.composer.device.identity_observed");
    assert(vstd::utf8::is_ascii_chars("r2.composer.device.identity_observed"@));
    lemma_ascii_hash("r2.composer.device.identity_observed"@);
    reveal_with_fuel(fnv_prefix, 37);
    lemma_fnv_chains_3();
}

proof fn lemma_known_hash_45()
    ensures
        name_hash("r2.composer.device.enrolled"@) == 0xb9cc069cu32,
{
    reveal_strlit("r2.composer.device.enrolled");
    assert(vstd::utf8::is_ascii_chars("r2.composer.device.enrolled"@));
    lemma_ascii_hash("r2.composer.device.enrolled"@);
    reveal_with_fuel(fnv_prefix, 28);
    lemma_fnv_chains_3();
}

proof fn lemma_known_hash_46()
    ensures
        name_hash("r2.composer.deploy.batch.start"@) == 0x08c9a77cu32,
{
    reveal_strlit("r2.composer.deploy.batch.start");
    assert(vstd::utf8::is_ascii_chars("r2.composer.deploy.batch.start"@));
    lemma_ascii_hash("r2.composer.deploy.batch.start"@);
    reveal_with_fuel(fnv_prefix, 31);
    lemma_fnv_chains_3();
}

proof fn lemma_known_hash_47()
    ensures
        name_hash("r2.composer.deploy.batch.done"@) == 0xc600ae30u32,
{
    reveal_strlit("r2.composer.deploy.batch.done");
    assert(vstd::utf8::is_ascii_chars("r2.composer.deploy.batch.done"@));
    lemma_ascii_hash("r2.composer.deploy.batch.done"@);
    reveal_with_fuel(fnv_prefix, 30);
    lemma_fnv_chains_3();
}

/// The FNV-1a folds of known event names, byte by byte.
proof fn lemma_fnv_chains_4()
    by (bit_vector)
    ensures
        fnv_step(fnv_step(fnv_step(fnv_step(fnv_step(fnv_step(fnv_step(fnv_step(fnv_step(fnv_step(fnv_step(fnv_step(fnv_step(fnv_step(fnv_step(fnv_step(fnv_step(fnv_step(fnv_step(fnv_step(fnv_step(fnv_step(fnv_step(fnv_step(fnv_step(fnv_step(fnv_step(fnv_step(fnv_step(fnv_step(fnv_step(fnv_step(fnv_step(fnv_step(FNV_OFFSET_BASIS, 114u8), 50u8), 46u8), 99u8), 111u8), 109u8), 112u8), 111u8), 115u8), 101u8), 114u8), 46u8), 100u8), 101u8), 112u8), 108u8), 111u8), 121u8), 46u8), 100u8), 101u8), 118u8), 105u8), 99u8), 101u8), 46u8), 112u8), 114u8), 111u8), 103u8), 114u8), 101u8), 115u8), 115u8) == 0x0c057dd1u32,
        fnv_step(fnv_step(fnv_step(fnv_step(fnv_step(fnv_step(fnv_step(fnv_step(fnv_step(fnv_step(fnv_step(fnv_step(fnv_step(fnv_step(fnv_step(fnv_step(fnv_step(fnv_step(fnv_step(fnv_step(fnv_step(fnv_step(fnv_step(fnv_step(fnv_step(fnv_step(fnv_step(fnv_step(fnv_step(fnv_step(FNV_OFFSET_BASIS, 114u8), 50u8), 46u8), 99u8), 111u8), 109u8), 112u8), 111u8), 115u8), 101u8), 114u8), 46u8), 100u8), 101u8), 112u8), 108u8), 111u8), 121u8), 46u8), 100u8), 101u8), 118u8), 105u8), 99u8), 101u8), 46u8), 100u8), 111u8), 110u8), 101u8) == 0x77785fa6u32,
        fnv_step(fnv_step(fnv_step(fnv_step(fnv_step(fnv_step(fnv_step(fnv_step(fnv_step(fnv_step(fnv_step(fnv_step(fnv_step(fnv_step(fnv_step(fnv_step(fnv_step(fnv_step(fnv_step(fnv_step(fnv_step(fnv_step(fnv_step(fnv_step(fnv_step(fnv_step(fnv_step(fnv_step(fnv_step(fnv_step(fnv_step(FNV_OFFSET_BASIS, 114u8), 50u8), 46u8), 99u8), 111u8), 109u8), 112u8), 111u8), 115u8), 101u8), 114u8), 46u8), 100u8), 101u8), 112u8), 108u8), 111u8), 121u8), 46u8), 100u8), 101u8), 118u8), 105u8), 99u8), 101u8), 46u8), 101u8), 114u8), 114u8), 111u8), 114u8) == 0x7b7207c8u32,
        fnv_step(fnv_step(fnv_step(fnv_step(fnv_step(fnv_step(fnv_step(fnv_step(fnv_step(fnv_step(fnv_step(fnv_step(fnv_step(fnv_step(fnv_step(fnv_step(fnv_step(fnv_step(fnv_step(fnv_step(fnv_step(fnv_step(fnv_step(fnv_step(FNV_OFFSET_BASIS, 114u8), 50u8), 46u8), 99u8), 111u8), 109u8), 112u8), 111u8), 115u8), 101u8), 114u8), 46u8), 97u8), 117u8), 116u8), 104u8), 111u8), 114u8), 46u8), 115u8), 116u8), 97u8), 114u8), 116u8) == 0x051bf636u32,
        fnv_step(fnv_step(fnv_step(fnv_step(fnv_step(fnv_step(fnv_step(fnv_step(fnv_step(fnv_step(fnv_step(fnv_step(fnv_step(fnv_step(fnv_step(fnv_step(fnv_step(fnv_step(fnv_step(fnv_step(fnv_step(fnv_step(fnv_step(fnv_step(fnv_step(FNV_OFFSET_BASIS, 114u8), 50u8), 46u8), 99u8), 111u8), 109u8), 112u8), 111u8), 115u8), 101u8), 114u8), 46u8), 97u8), 117u8), 116u8), 104u8), 111u8), 114u8), 46u8), 112u8), 114u8), 111u8), 109u8), 112u8), 116u8) == 0xae77d6bcu32,
        fnv_step(fnv_step(fnv_step(fnv_step(fnv_step(fnv_step(fnv_step(fnv_step(fnv_step(fnv_step(fnv_step(fnv_step(fnv_step(fnv_step(fnv_step(fnv_step(fnv_step(fnv_step(fnv_step(fnv_step(fnv_step(fnv_step(fnv_step(fnv_step(FNV_OFFSET_BASIS, 114u8), 50u8), 46u8), 99u8), 111u8), 109u8), 112u8), 111u8), 115u8), 101u8), 114u8), 46u8), 97u8), 117u8), 116u8), 104u8), 111u8), 114u8), 46u8), 114u8), 101u8), 112u8), 108u8), 121u8) == 0xbe66b26au32,
        fnv_step(fnv_step(fnv_step(fnv_step(fnv_step(fnv_step(fnv_step(fnv_step(fnv_step(fnv_step(fnv_step(fnv_step(fnv_step(fnv_step(fnv_step(fnv_step(fnv_step(fnv_step(fnv_step(fnv_step(fnv_step(fnv_step(fnv_step(fnv_step(fnv_step(fnv_step(fnv_step(fnv_step(fnv_step(FNV_OFFSET_BASIS, 114u8), 50u8), 46u8), 99u8), 111u8), 109u8), 112u8), 111u8), 115u8), 101u8), 114u8), 46u8), 97u8), 117u8), 116u8), 104u8), 111u8), 114u8), 46u8), 102u8), 105u8), 108u8), 101u8), 95u8), 97u8), 100u8), 100u8), 101u8), 100u8) == 0xe02d294du32,
        fnv_step(fnv_step(fnv_step(fnv_step(fnv_step(fnv_step(fnv_step(fnv_step(fnv_step(fnv_step(fnv_step(fnv_step(fnv_step(fnv_step(fnv_step(fnv_step(fnv_step(fnv_step(fnv_step(fnv_step(fnv_step(fnv_step(fnv_step(FNV_OFFSET_BASIS, 114u8), 50u8), 46u8), 99u8), 111u8), 109u8), 112u8), 111u8), 115u8), 101u8), 114u8), 46u8), 97u8), 117u8), 116u8), 104u8), 111u8), 114u8), 46u8), 100u8), 111u8), 110u8), 101u8) == 0x0028363eu32,
        fnv_step(fnv_step(fnv_step(fnv_step(fnv_step(fnv_step(fnv_step(fnv_step(fnv_step(fnv_step(fnv_step(fnv_step(fnv_step(fnv_step(fnv_step(fnv_step(fnv_step(fnv_step(fnv_step(fnv_step(fnv_step(fnv_step(fnv_step(fnv_step(FNV_OFFSET_BASIS, 114u8), 50u8), 46u8), 99u8), 111u8), 109u8), 112u8), 111u8), 115u8), 101u8), 114u8), 46u8), 97u8), 117u8), 116u8), 104u8), 111u8), 114u8), 46u8), 101u8), 114u8), 114u8), 111u8), 114u8) == 0x924b8b40u32,
        fnv_step(fnv_step(fnv_step(fnv_step(fnv_step(fnv_step(fnv_step(fnv_step(fnv_step(fnv_step(fnv_step(fnv_step(fnv_step(fnv_step(fnv_step(fnv_step(fnv_step(fnv_step(fnv_step(fnv_step(fnv_step(FNV_OFFSET_BASIS, 114u8), 50u8), 46u8), 99u8), 111u8), 109u8), 112u8), 111u8), 115u8), 101u8), 114u8), 46u8), 116u8), 103u8), 46u8), 115u8), 116u8), 97u8), 116u8), 117u8), 115u8) == 0xcb9266bau32,
        fnv_step(fnv_step(fnv_step(fnv_step(fnv_step(fnv_step(fnv_step(fnv_step(fnv_step(fnv_step(fnv_step(fnv_step(fnv_step(fnv_step(fnv_step(fnv_step(fnv_step(fnv_step(fnv_step(fnv_step(fnv_step(fnv_step(fnv_step(fnv_step(fnv_step(fnv_step(fnv_step(FNV_OFFSET_BASIS, 114u8), 50u8), 46u8), 99u8), 111u8), 109u8), 112u8), 111u8), 115u8), 101u8), 114u8), 46u8), 116u8), 103u8), 46u8), 108u8), 105u8), 115u8), 116u8), 95u8), 109u8), 101u8), 109u8), 98u8), 101u8), 114u8), 115u8) == 0x7448daa8u32,
        fnv_step(fnv_step(fnv_step(fnv_step(fnv_step(fnv_step(fnv_step(fnv_step(fnv_step(fnv_step(fnv_step(fnv_step(fnv_step(fnv_step(fnv_step(fnv_step(fnv_step(fnv_step(fnv_step(fnv_step(fnv_step(FNV_OFFSET_BASIS, 114u8), 50u8), 46u8), 99u8), 111u8), 109u8), 112u8), 111u8), 115u8), 101u8), 114u8), 46u8), 116u8), 103u8), 46u8), 109u8), 101u8), 109u8), 98u8), 101u8), 114u8) == 0x1adab74au32,
{
}

proof fn lemma_known_hash_48()
    ensures
        name_hash("r2.composer.deploy.device.progress"@) == 0x0c057dd1u32,
{
    reveal_strlit("r2.composer.deploy.device.progress");
    assert(vstd::utf8::is_ascii_chars("r2.composer.deploy.device.progress"@));
    lemma_ascii_hash("r2.composer.deploy.device.progress"@);
    reveal_with_fuel(fnv_prefix, 35);
    lemma_fnv_chains_4();
}

proof fn lemma_known_hash_49()
    ensures
        name_hash("r2.composer.deploy.device.done"@) == 0x77785fa6u32,
{
    reveal_strlit("r2.composer.deploy.device.done");
    assert(vstd::utf8::is_ascii_chars("r2.composer.deploy.device.done"@));
    lemma_ascii_hash("r2.composer.deploy.device.done"@);
    reveal_with_fuel(fnv_prefix, 31);
    lemma_fnv_chains_4();
}

proof fn lemma_known_hash_50()
    ensures
        name_hash("r2.composer.deploy.device.error"@) == 0x7b7207c8u32,
{
    reveal_strlit("r2.composer.deploy.device.error");
    assert(vstd::utf8::is_ascii_chars("r2.composer.deploy.device.error"@));
    lemma_ascii_hash("r2.composer.deploy.device.error"@);
    reveal_with_fuel(fnv_prefix, 32);
    lemma_fnv_chains_4();
}

proof fn lemma_known_hash_51()
    ensures
        name_hash("r2.composer.author.start"@) == 0x051bf636u32,
{
    reveal_strlit("r2.composer.author.start");
    assert(vstd::utf8::is_ascii_chars("r2.composer.author.start"@));
    lemma_ascii_hash("r2.composer.author.start"@);
    reveal_with_fuel(fnv_prefix, 25);
    lemma_fnv_chains_4();
}

proof fn lemma_known_hash_52()
    ensures
        name_hash("r2.composer.author.prompt"@) == 0xae77d6bcu32,
{
    reveal_strlit("r2.composer.author.prompt");
    assert(vstd::utf8::is_ascii_chars("r2.composer.author.prompt"@));
    lemma_ascii_hash("r2.composer.author.prompt"@);
    reveal_with_fuel(fnv_prefix, 26);
    lemma_fnv_chains_4();
}

proof fn lemma_known_hash_53()
    ensures
        name_hash("r2.composer.author.reply"@) == 0xbe66b26au32,
{
    reveal_strlit("r2.composer.author.reply");
    assert(vstd::utf8::is_ascii_chars("r2.composer.author.reply"@));
    lemma_ascii_hash("r2.composer.author.reply"@);
    reveal_with_fuel(fnv_prefix, 25);
    lemma_fnv_chains_4();
}

proof fn lemma_known_hash_54()
    ensures
        name_hash("r2.composer.author.file_added"@) == 0xe02d294du32,
{
    reveal_strlit("r2.composer.author.file_added");
    assert(vstd::utf8::is_ascii_chars("r2.composer.author.file_added"@));
    lemma_ascii_hash("r2.composer.author.file_added"@);
    reveal_with_fuel(fnv_prefix, 30);
    lemma_fnv_chains_4();
}

proof fn lemma_known_hash_55()
    ensures
        name_hash("r2.composer.author.done"@) == 0x0028363eu32,
{
    reveal_strlit("r2.composer.author.done");
    assert(vstd::utf8::is_ascii_chars("r2.composer.author.done"@));
    lemma_ascii_hash("r2.composer.author.done"@);
    reveal_with_fuel(fnv_prefix, 24);
    lemma_fnv_chains_4();
}

proof fn lemma_known_hash_56()
    ensures
        name_hash("r2.composer.author.error"@) == 0x924b8b40u32,
{
    reveal_strlit("r2.composer.author.error");
    assert(vstd::utf8::is_ascii_chars("r2.composer.author.error"@));
    lemma_ascii_hash("r2.composer.author.error"@);
    reveal_with_fuel(fnv_prefix, 25);
    lemma_fnv_chains_4();
}

proof fn lemma_known_hash_57()
    ensures
        name_hash("r2.composer.tg.status"@) == 0xcb9266bau32,
{
    reveal_strlit("r2.composer.tg.status");
    assert(vstd::utf8::is_ascii_chars("r2.composer.tg.status"@));
    lemma_ascii_hash("r2.composer.tg.status"@);
    reveal_with_fuel(fnv_prefix, 22);
    lemma_fnv_chains_4();
}

proof fn lemma_known_hash_58()
    ensures
        name_hash("r2.composer.tg.list_members"@) == 0x7448daa8u32,
{
    reveal_strlit("r2.composer.tg.list_members");
    assert(vstd::utf8::is_ascii_chars("r2.composer.tg.list_members"@));
    lemma_ascii_hash("r2.composer.tg.list_members"@);
    reveal_with_fuel(fnv_prefix, 28);
    lemma_fnv_chains_4();
}

proof fn lemma_known_hash_59()
    ensures
        name_hash("r2.composer.tg.member"@) == 0x1adab74au32,
{
    reveal_strlit("r2.composer.tg.member");
    assert(vstd::utf8::is_ascii_chars("r2.composer.tg.member"@));
    lemma_ascii_hash("r2.composer.tg.member"@);
    reveal_with_fuel(fnv_prefix, 22);
    lemma_fnv_chains_4();
}

/// The FNV-1a folds of known event names, byte by byte.
proof fn lemma_fnv_chains_5()
    by (bit_vector)
    ensures
        fnv_step(fnv_step(fnv_step(fnv_step(fnv_step(fnv_step(fnv_step(fnv_step(fnv_step(fnv_step(fnv_step(fnv_step(fnv_step(fnv_step(fnv_step(fnv_step(fnv_step(fnv_step(fnv_step(fnv_step(fnv_step(fnv_step(fnv_step(fnv_step(fnv_step(fnv_step(fnv_step(fnv_step(FNV_OFFSET_BASIS, 114u8), 50u8), 46u8), 99u8), 111u8), 109u8), 112u8), 111u8), 115u8), 101u8), 114u8), 46u8), 116u8), 103u8), 46u8), 114u8), 101u8), 118u8), 111u8), 107u8), 101u8), 95u8), 100u8), 101u8), 118u8), 105u8), 99u8), 101u8) == 0x54709b69u32,
        fnv_step(fnv_step(fnv_step(fnv_step(fnv_step(fnv_step(fnv_step(fnv_step(fnv_step(fnv_step(fnv_step(fnv_step(fnv_step(fnv_step(fnv_step(fnv_step(fnv_step(fnv_step(fnv_step(fnv_step(fnv_step(fnv_step(fnv_step(fnv_step(fnv_step(fnv_step(fnv_step(fnv_step(fnv_step(fnv_step(fnv_step(FNV_OFFSET_BASIS, 114u8), 50u8), 46u8), 99u8), 111u8), 109u8), 112u8), 111u8), 115u8), 101u8), 114u8), 46u8), 116u8), 103u8), 46u8), 114u8), 111u8), 116u8), 97u8), 116u8), 101u8), 95u8), 107u8), 101u8), 121u8), 104u8), 111u8), 108u8), 100u8), 101u8), 114u8) == 0x5d289159u32,
        fnv_step(fnv_step(fnv_step(fnv_step(fnv_step(fnv_step(fnv_step(fnv_step(fnv_step(fnv_step(fnv_step(fnv_step(fnv_step(fnv_step(fnv_step(fnv_step(fnv_step(fnv_step(fnv_step(fnv_step(FNV_OFFSET_BASIS, 114u8), 50u8), 46u8), 99u8), 111u8), 109u8), 112u8), 111u8), 115u8), 101u8), 114u8), 46u8), 116u8), 103u8), 46u8), 114u8), 101u8), 115u8), 101u8), 116u8) == 0x9f1b3367u32,
        fnv_step(fnv_step(fnv_step(fnv_step(fnv_step(fnv_step(fnv_step(fnv_step(fnv_step(fnv_step(fnv_step(fnv_step(fnv_step(fnv_step(fnv_step(fnv_step(fnv_step(fnv_step(fnv_step(fnv_step(fnv_step(fnv_step(fnv_step(fnv_step(fnv_step(fnv_step(fnv_step(fnv_step(fnv_step(fnv_step(fnv_step(FNV_OFFSET_BASIS, 114u8), 50u8), 46u8), 99u8), 111u8), 109u8), 112u8), 111u8), 115u8), 101u8), 114u8), 46u8), 116u8), 103u8), 46u8), 101u8), 120u8), 112u8), 111u8), 114u8), 116u8), 95u8), 107u8), 101u8), 121u8), 104u8), 111u8), 108u8), 100u8), 101u8), 114u8) == 0xc95a0ab0u32,
        fnv_step(fnv_step(fnv_step(fnv_step(fnv_step(fnv_step(fnv_step(fnv_step(fnv_step(fnv_step(fnv_step(fnv_step(fnv_step(fnv_step(fnv_step(fnv_step(fnv_step(fnv_step(fnv_step(fnv_step(fnv_step(fnv_step(fnv_step(fnv_step(fnv_step(fnv_step(fnv_step(fnv_step(fnv_step(fnv_step(fnv_step(FNV_OFFSET_BASIS, 114u8), 50u8), 46u8), 99u8), 111u8), 109u8), 112u8), 111u8), 115u8), 101u8), 114u8), 46u8), 116u8), 103u8), 46u8), 105u8), 109u8), 112u8), 111u8), 114u8), 116u8), 95u8), 107u8), 101u8), 121u8), 104u8), 111u8), 108u8), 100u8), 101u8), 114u8) == 0x477cefbfu32,
        fnv_step(fnv_step(fnv_step(fnv_step(fnv_step(fnv_step(fnv_step(fnv_step(fnv_step(fnv_step(fnv_step(fnv_step(fnv_step(fnv_step(fnv_step(fnv_step(fnv_step(fnv_step(fnv_step(fnv_step(fnv_step(fnv_step(fnv_step(fnv_step(fnv_step(fnv_step(FNV_OFFSET_BASIS, 114u8), 50u8), 46u8), 99u8), 111u8), 109u8), 112u8), 111u8), 115u8), 101u8), 114u8), 46u8), 99u8), 97u8), 116u8), 97u8), 108u8), 111u8), 103u8), 117u8), 101u8), 46u8), 108u8), 105u8), 115u8), 116u8) == 0x98da3982u32,
        fnv_step(fnv_step(fnv_step(fnv_step(fnv_step(fnv_step(fnv_step(fnv_step(fnv_step(fnv_step(fnv_step(fnv_step(fnv_step(fnv_step(fnv_step(fnv_step(fnv_step(fnv_step(fnv_step(fnv_step(fnv_step(fnv_step(fnv_step(fnv_step(fnv_step(fnv_step(fnv_step(FNV_OFFSET_BASIS, 114u8), 50u8), 46u8), 99u8), 111u8), 109u8), 112u8), 111u8), 115u8), 101u8), 114u8), 46u8), 99u8), 97u8), 116u8), 97u8), 108u8), 111u8), 103u8), 117u8), 101u8), 46u8), 101u8), 110u8), 116u8), 114u8), 121u8) == 0x1ba3c54eu32,
        fnv_step(fnv_step(fnv_step(fnv_step(fnv_step(fnv_step(fnv_step(fnv_step(fnv_step(fnv_step(fnv_step(fnv_step(fnv_step(fnv_step(fnv_step(fnv_step(fnv_step(fnv_step(fnv_step(fnv_step(fnv_step(fnv_step(fnv_step(fnv_step(fnv_step(fnv_step(FNV_OFFSET_BASIS, 114u8), 50u8), 46u8), 99u8), 111u8), 109u8), 112u8), 111u8), 115u8), 101u8), 114u8), 46u8), 115u8), 111u8), 117u8), 114u8), 99u8), 101u8), 46u8), 114u8), 101u8), 113u8), 117u8), 101u8), 115u8), 116u8) == 0xbbdead69u32,
        fnv_step(fnv_step(fnv_step(fnv_step(fnv_step(fnv_step(fnv_step(fnv_step(fnv_step(fnv_step(fnv_step(fnv_step(fnv_step(fnv_step(fnv_step(fnv_step(fnv_step(fnv_step(fnv_step(fnv_step(fnv_step(fnv_step(fnv_step(fnv_step(fnv_step(fnv_step(fnv_step(fnv_step(FNV_OFFSET_BASIS, 114u8), 50u8), 46u8), 99u8), 111u8), 109u8), 112u8), 111u8), 115u8), 101u8), 114u8), 46u8), 115u8), 111u8), 117u8), 114u8), 99u8), 101u8), 46u8), 100u8), 101u8), 108u8), 105u8), 118u8), 101u8), 114u8), 101u8), 100u8) == 0x76509ec0u32,
        fnv_step(fnv_step(fnv_step(fnv_step(fnv_step(fnv_step(fnv_step(fnv_step(fnv_step(fnv_step(fnv_step(fnv_step(fnv_step(fnv_step(fnv_step(fnv_step(fnv_step(fnv_step(fnv_step(fnv_step(fnv_step(fnv_step(FNV_OFFSET_BASIS, 114u8), 50u8), 46u8), 99u8), 111u8), 109u8), 112u8), 111u8), 115u8), 101u8), 114u8), 46u8), 115u8), 121u8), 110u8), 99u8), 46u8), 115u8), 116u8), 97u8), 114u8), 116u8) == 0x5277dd6eu32,
        fnv_step(fnv_step(fnv_step(fnv_step(fnv_step(fnv_step(fnv_step(fnv_step(fnv_step(fnv_step(fnv_step(fnv_step(fnv_step(fnv_step(fnv_step(fnv_step(fnv_step(fnv_step(fnv_step(fnv_step(fnv_step(fnv_step(fnv_step(fnv_step(fnv_step(FNV_OFFSET_BASIS, 114u8), 50u8), 46u8), 99u8), 111u8), 109u8), 112u8), 111u8), 115u8), 101u8), 114u8), 46u8), 115u8), 121u8), 110u8), 99u8), 46u8), 112u8), 114u8), 111u8), 103u8), 114u8), 101u8), 115u8), 115u8) == 0x2acaa911u32,
        fnv_step(fnv_step(fnv_step(fnv_step(fnv_step(fnv_step(fnv_step(fnv_step(fnv_step(fnv_step(fnv_step(fnv_step(fnv_step(fnv_step(fnv_step(fnv_step(fnv_step(fnv_step(fnv_step(fnv_step(fnv_step(FNV_OFFSET_BASIS, 114u8), 50u8), 46u8), 99u8), 111u8), 109u8), 112u8), 111u8), 115u8), 101u8), 114u8), 46u8), 115u8), 121u8), 110u8), 99u8), 46u8), 100u8), 111u8), 110u8), 101u8) == 0xce3a7de6u32,
{
}

proof fn lemma_known_hash_60()
    ensures
        name_hash("r2.composer.tg.revoke_device"@) == 0x54709b69u32,
{
    reveal_strlit("r2.composer.tg.revoke_device");
    assert(vstd::utf8::is_ascii_chars("r2.composer.tg.revoke_device"@));
    lemma_ascii_hash("r2.composer.tg.revoke_device"@);
    reveal_with_fuel(fnv_prefix, 29);
    lemma_fnv_chains_5();
}

proof fn lemma_known_hash_61()
    ensures
        name_hash("r2.composer.tg.rotate_keyholder"@) == 0x5d289159u32,
{
    reveal_strlit("r2.composer.tg.rotate_keyholder");
    assert(vstd::utf8::is_ascii_chars("r2.composer.tg.rotate_keyholder"@));
    lemma_ascii_hash("r2.composer.tg.rotate_keyholder"@);
    reveal_with_fuel(fnv_prefix, 32);
    lemma_fnv_chains_5();
}

proof fn lemma_known_hash_62()
    ensures
        name_hash("r2.composer.tg.reset"@) == 0x9f1b3367u32,
{
    reveal_strlit("r2.composer.tg.reset");
    assert(vstd::utf8::is_ascii_chars("r2.composer.tg.reset"@));
    lemma_ascii_hash("r2.composer.tg.reset"@);
    reveal_with_fuel(fnv_prefix, 21);
    lemma_fnv_chains_5();
}

proof fn lemma_known_hash_63()
    ensures
        name_hash("r2.composer.tg.export_keyholder"@) == 0xc95a0ab0u32,
{
    reveal_strlit("r2.composer.tg.export_keyholder");
    assert(vstd::utf8::is_ascii_chars("r2.composer.tg.export_keyholder"@));
    lemma_ascii_hash("r2.composer.tg.export_keyholder"@);
    reveal_with_fuel(fnv_prefix, 32);
    lemma_fnv_chains_5();
}

proof fn lemma_known_hash_64()
    ensures
        name_hash("r2.composer.tg.import_keyholder"@) == 0x477cefbfu32,
{
    reveal_strlit("r2.composer.tg.import_keyholder");
    assert(vstd::utf8::is_ascii_chars("r2.composer.tg.import_keyholder"@));
    lemma_ascii_hash("r2.composer.tg.import_keyholder"@);
    reveal_with_fuel(fnv_prefix, 32);
    lemma_fnv_chains_5();
}

proof fn lemma_known_hash_65()
    ensures
        name_hash("r2.composer.catalogue.list"@) == 0x98da3982u32,
{
    reveal_strlit("r2.composer.catalogue.list");
    assert(vstd::utf8::is_ascii_chars("r2.composer.catalogue.list"@));
    lemma_ascii_hash("r2.composer.catalogue.list"@);
    reveal_with_fuel(fnv_prefix, 27);
    lemma_fnv_chains_5();
}

proof fn lemma_known_hash_66()
    ensures
        name_hash("r2.composer.catalogue.entry"@) == 0x1ba3c54eu32,
{
    reveal_strlit("r2.composer.catalogue.entry");
    assert(vstd::utf8::is_ascii_chars("r2.composer.catalogue.entry"@));
    lemma_ascii_hash("r2.composer.catalogue.entry"@);
    reveal_with_fuel(fnv_prefix, 28);
    lemma_fnv_chains_5();
}

proof fn lemma_known_hash_67()
    ensures
        name_hash("r2.composer.source.request"@) == 0xbbdead69u32,
{
    reveal_strlit("r2.composer.source.request");
    assert(vstd::utf8::is_ascii_chars("r2.composer.source.request"@));
    lemma_ascii_hash("r2.composer.source.request"@);
    reveal_with_fuel(fnv_prefix, 27);
    lemma_fnv_chains_5();
}

proof fn lemma_known_hash_68()
    ensures
        name_hash("r2.composer.source.delivered"@) == 0x76509ec0u32,
{
    reveal_strlit("r2.composer.source.delivered");
    assert(vstd::utf8::is_ascii_chars("r2.composer.source.delivered"@));
    lemma_ascii_hash("r2.composer.source.delivered"@);
    reveal_with_fuel(fnv_prefix, 29);
    lemma_fnv_chains_5();
}

proof fn lemma_known_hash_69()
    ensures
        name_hash("r2.composer.sync.start"@) == 0x5277dd6eu32,
{
    reveal_strlit("r2.composer.sync.start");
    assert(vstd::utf8::is_ascii_chars("r2.composer.sync.start"@));
    lemma_ascii_hash("r2.composer.sync.start"@);
    reveal_with_fuel(fnv_prefix, 23);
    lemma_fnv_chains_5();
}

proof fn lemma_known_hash_70()
    ensures
        name_hash("r2.composer.sync.progress"@) == 0x2acaa911u32,
{
    reveal_strlit("r2.composer.sync.progress");
    assert(vstd::utf8::is_ascii_chars("r2.composer.sync.progress"@));
    lemma_ascii_hash("r2.composer.sync.progress"@);
    reveal_with_fuel(fnv_prefix, 26);
    lemma_fnv_chains_5();
}

proof fn lemma_known_hash_71()
    ensures
        name_hash("r2.composer.sync.done"@) == 0xce3a7de6u32,
{
    reveal_strlit("r2.composer.sync.done");
    assert(vstd::utf8::is_ascii_chars("r2.composer.sync.done"@));
    lemma_ascii_hash("r2.composer.sync.done"@);
    reveal_with_fuel(fnv_prefix, 22);
    lemma_fnv_chains_5();
}

/// The FNV-1a folds of known event names, byte by byte.
proof fn lemma_fnv_chains_6()
    by (bit_vector)
    ensures
        fnv_step(fnv_step(fnv_step(fnv_step(fnv_step(fnv_step(fnv_step(fnv_step(fnv_step(fnv_step(fnv_step(fnv_step(fnv_step(fnv_step(fnv_step(fnv_step(fnv_step(fnv_step(fnv_step(fnv_step(fnv_step(fnv_step(fnv_step(fnv_step(fnv_step(fnv_step(fnv_step(FNV_OFFSET_BASIS, 114u8), 50u8), 46u8), 99u8), 111u8), 109u8), 112u8), 111u8), 115u8), 101u8), 114u8), 46u8), 109u8), 97u8), 116u8), 101u8), 114u8), 105u8), 97u8), 108u8), 46u8), 117u8), 112u8), 108u8), 111u8), 97u8), 100u8) == 0xd7abeb4du32,
        fnv_step(fnv_step(fnv_step(fnv_step(fnv_step(fnv_step(fnv_step(fnv_step(fnv_step(fnv_step(fnv_step(fnv_step(fnv_step(fnv_step(fnv_step(fnv_step(fnv_step(fnv_step(fnv_step(fnv_step(fnv_step(fnv_step(fnv_step(fnv_step(fnv_step(FNV_OFFSET_BASIS, 114u8), 50u8), 46u8), 99u8), 111u8), 109u8), 112u8), 111u8), 115u8), 101u8), 114u8), 46u8), 109u8), 97u8), 116u8), 101u8), 114u8), 105u8), 97u8), 108u8), 46u8), 108u8), 105u8), 110u8), 107u8) == 0x2a470cbcu32,
        fnv_step(fnv_step(fnv_step(fnv_step(fnv_step(fnv_step(fnv_step(fnv_step(fnv_step(fnv_step(fnv_step(fnv_step(fnv_step(fnv_step(fnv_step(fnv_step(fnv_step(fnv_step(fnv_step(fnv_step(fnv_step(fnv_step(fnv_step(fnv_step(fnv_step(FNV_OFFSET_BASIS, 114u8), 50u8), 46u8), 99u8), 111u8), 109u8), 112u8), 111u8), 115u8), 101u8), 114u8), 46u8), 109u8), 97u8), 116u8), 101u8), 114u8), 105u8), 97u8), 108u8), 46u8), 102u8), 105u8), 110u8), 100u8) == 0x3a691affu32,
        fnv_step(fnv_step(fnv_step(fnv_step(fnv_step(fnv_step(fnv_step(fnv_step(fnv_step(fnv_step(fnv_step(fnv_step(fnv_step(fnv_step(fnv_step(fnv_step(fnv_step(fnv_step(fnv_step(fnv_step(fnv_step(fnv_step(fnv_step(fnv_step(fnv_step(fnv_step(FNV_OFFSET_BASIS, 114u8), 50u8), 46u8), 99u8), 111u8), 109u8), 112u8), 111u8), 115u8), 101u8), 114u8), 46u8), 109u8), 97u8), 116u8), 101u8), 114u8), 105u8), 97u8), 108u8), 46u8), 102u8), 111u8), 117u8), 110u8), 100u8) == 0x2efb0960u32,
        fnv_step(fnv_step(fnv_step(fnv_step(fnv_step(fnv_step(fnv_step(fnv_step(fnv_step(fnv_step(fnv_step(fnv_step(fnv_step(fnv_step(fnv_step(fnv_step(fnv_step(fnv_step(fnv_step(fnv_step(fnv_step(fnv_step(fnv_step(fnv_step(fnv_step(FNV_OFFSET_BASIS, 114u8), 50u8), 46u8), 99u8), 111u8), 109u8), 112u8), 111u8), 115u8), 101u8), 114u8), 46u8), 109u8), 97u8), 116u8), 101u8), 114u8), 105u8), 97u8), 108u8), 46u8), 108u8), 105u8), 115u8), 116u8) == 0x1b765354u32,
        fnv_step(fnv_step(fnv_step(fnv_step(fnv_step(fnv_step(fnv_step(fnv_step(fnv_step(fnv_step(fnv_step(fnv_step(fnv_step(fnv_step(fnv_step(fnv_step(fnv_step(fnv_step(fnv_step(fnv_step(fnv_step(fnv_step(fnv_step(fnv_step(fnv_step(FNV_OFFSET_BASIS, 114u8), 50u8), 46u8), 99u8), 111u8), 109u8), 112u8), 111u8), 115u8), 101u8), 114u8), 46u8), 109u8), 97u8), 116u8), 101u8), 114u8), 105u8), 97u8), 108u8), 46u8), 105u8), 116u8), 101u8), 109u8) == 0xfe5d3b03u32,
        fnv_step(fnv_step(fnv_step(fnv_step(fnv_step(fnv_step(fnv_step(fnv_step(fnv_step(fnv_step(fnv_step(fnv_step(fnv_step(fnv_step(fnv_step(fnv_step(fnv_step(fnv_step(fnv_step(fnv_step(fnv_step(fnv_step(fnv_step(fnv_step(fnv_step(fnv_step(fnv_step(fnv_step(fnv_step(fnv_step(fnv_step(fnv_step(fnv_step(fnv_step(FNV_OFFSET_BASIS, 114u8), 50u8), 46u8), 99u8), 111u8), 109u8), 112u8), 111u8), 115u8), 101u8), 114u8), 46u8), 109u8), 97u8), 116u8), 101u8), 114u8), 105u8), 97u8), 108u8), 46u8), 112u8), 114u8), 111u8), 99u8), 101u8), 115u8), 115u8), 46u8), 115u8), 116u8), 97u8), 114u8), 116u8) == 0xdb14b387u32,
        fnv_step(fnv_step(fnv_step(fnv_step(fnv_step(fnv_step(fnv_step(fnv_step(fnv_step(fnv_step(fnv_step(fnv_step(fnv_step(fnv_step(fnv_step(fnv_step(fnv_step(fnv_step(fnv_step(fnv_step(fnv_step(fnv_step(fnv_step(fnv_step(fnv_step(fnv_step(fnv_step(fnv_step(fnv_step(fnv_step(fnv_step(fnv_step(fnv_step(fnv_step(fnv_step(fnv_step(fnv_step(FNV_OFFSET_BASIS, 114u8), 50u8), 46u8), 99u8), 111u8), 109u8), 112u8), 111u8), 115u8), 101u8), 114u8), 46u8), 109u8), 97u8), 116u8), 101u8), 114u8), 105u8), 97u8), 108u8), 46u8), 112u8), 114u8), 111u8), 99u8), 101u8), 115u8), 115u8), 46u8), 112u8), 114u8), 111u8), 103u8), 114u8), 101u8), 115u8), 115u8) == 0xb0e2b66eu32,
        fnv_step(fnv_step(fnv_step(fnv_step(fnv_step(fnv_step(fnv_step(fnv_step(fnv_step(fnv_step(fnv_step(fnv_step(fnv_step(fnv_step(fnv_step(fnv_step(fnv_step(fnv_step(fnv_step(fnv_step(fnv_step(fnv_step(fnv_step(fnv_step(fnv_step(fnv_step(fnv_step(fnv_step(fnv_step(fnv_step(fnv_step(fnv_step(fnv_step(FNV_OFFSET_BASIS, 114u8), 50u8), 46u8), 99u8), 111u8), 109u8), 112u8), 111u8), 115u8), 101u8), 114u8), 46u8), 109u8), 97u8), 116u8), 101u8), 114u8), 105u8), 97u8), 108u8), 46u8), 112u8), 114u8), 111u8), 99u8), 101u8), 115u8), 115u8), 46u8), 100u8), 111u8), 110u8), 101u8) == 0x8a4d6709u32,
        fnv_step(fnv_step(fnv_step(fnv_step(fnv_step(fnv_step(fnv_step(fnv_step(fnv_step(fnv_step(fnv_step(fnv_step(fnv_step(fnv_step(fnv_step(fnv_step(fnv_step(fnv_step(fnv_step(fnv_step(fnv_step(fnv_step(fnv_step(fnv_step(fnv_step(fnv_step(fnv_step(fnv_step(fnv_step(fnv_step(fnv_step(fnv_step(fnv_step(fnv_step(FNV_OFFSET_BASIS, 114u8), 50u8), 46u8), 99u8), 111u8), 109u8), 112u8), 111u8), 115u8), 101u8), 114u8), 46u8), 109u8), 97u8), 116u8), 101u8), 114u8), 105u8), 97u8), 108u8), 46u8), 112u8), 114u8), 111u8), 99u8), 101u8), 115u8), 115u8), 46u8), 101u8), 114u8), 114u8), 111u8), 114u8) == 0x60fffbe9u32,
{
}

proof fn lemma_known_hash_72()
    ensures
        name_hash("r2.composer.material.upload"@) == 0xd7abeb4du32,
{
    reveal_strlit("r2.composer.material.upload");
    assert(vstd::utf8::is_ascii_chars("r2.composer.material.upload"@));
    lemma_ascii_hash("r2.composer.material.upload"@);
    reveal_with_fuel(fnv_prefix, 28);
    lemma_fnv_chains_6();
}

proof fn lemma_known_hash_73()
    ensures
        name_hash("r2.composer.material.link"@) == 0x2a470cbcu32,
{
    reveal_strlit("r2.composer.material.link");
    assert(vstd::utf8::is_ascii_chars("r2.composer.material.link"@));
    lemma_ascii_hash("r2.composer.material.link"@);
    reveal_with_fuel(fnv_prefix, 26);
    lemma_fnv_chains_6();
}

proof fn lemma_known_hash_74()
    ensures
        name_hash("r2.composer.material.find"@) == 0x3a691affu32,
{
    reveal_strlit("r2.composer.material.find");
    assert(vstd::utf8::is_ascii_chars("r2.composer.material.find"@));
    lemma_ascii_hash("r2.composer.material.find"@);
    reveal_with_fuel(fnv_prefix, 26);
    lemma_fnv_chains_6();
}

proof fn lemma_known_hash_75()
    ensures
        name_hash("r2.composer.material.found"@) == 0x2efb0960u32,
{
    reveal_strlit("r2.composer.material.found");
    assert(vstd::utf8::is_ascii_chars("r2.composer.material.found"@));
    lemma_ascii_hash("r2.composer.material.found"@);
    reveal_with_fuel(fnv_prefix, 27);
    lemma_fnv_chains_6();
}

proof fn lemma_known_hash_76()
    ensures
        name_hash("r2.composer.material.list"@) == 0x1b765354u32,
{
    reveal_strlit("r2.composer.material.list");
    assert(vstd::utf8::is_ascii_chars("r2.composer.material.list"@));
    lemma_ascii_hash("r2.composer.material.list"@);
    reveal_with_fuel(fnv_prefix, 26);
    lemma_fnv_chains_6();
}

proof fn lemma_known_hash_77()
    ensures
        name_hash("r2.composer.material.item"@) == 0xfe5d3b03u32,
{
    reveal_strlit("r2.composer.material.item");
    assert(vstd::utf8::is_ascii_chars("r2.composer.material.item"@));
    lemma_ascii_hash("r2.composer.material.item"@);
    reveal_with_fuel(fnv_prefix, 26);
    lemma_fnv_chains_6();
}

proof fn lemma_known_hash_78()
    ensures
        name_hash("r2.composer.material.process.start"@) == 0xdb14b387u32,
{
    reveal_strlit("r2.composer.material.process.start");
    assert(vstd::utf8::is_ascii_chars("r2.composer.material.process.start"@));
    lemma_ascii_hash("r2.composer.material.process.start"@);
    reveal_with_fuel(fnv_prefix, 35);
    lemma_fnv_chains_6();
}

proof fn lemma_known_hash_79()
    ensures
        name_hash("r2.composer.material.process.progress"@) == 0xb0e2b66eu32,
{
    reveal_strlit("r2.composer.material.process.progress");
    assert(vstd::utf8::is_ascii_chars("r2.composer.material.process.progress"@));
    lemma_ascii_hash("r2.composer.material.process.progress"@);
    reveal_with_fuel(fnv_prefix, 38);
    lemma_fnv_chains_6();
}

proof fn lemma_known_hash_80()
    ensures
        name_hash("r2.composer.material.process.done"@) == 0x8a4d6709u32,
{
    reveal_strlit("r2.composer.material.process.done");
    assert(vstd::utf8::is_ascii_chars("r2.composer.material.process.done"@));
    lemma_ascii_hash("r2.composer.material.process.done"@);
    reveal_with_fuel(fnv_prefix, 34);
    lemma_fnv_chains_6();
}

proof fn lemma_known_hash_81()
    ensures
        name_hash("r2.composer.material.process.error"@) == 0x60fffbe9u32,
{
    reveal_strlit("r2.composer.material.process.error");
    assert(vstd::utf8::is_ascii_chars("r2.composer.material.process.error"@));
    lemma_ascii_hash("r2.composer.material.process.error"@);
    reveal_with_fuel(fnv_prefix, 35);
    lemma_fnv_chains_6();
}

/// The hash of each known event name.
pub proof fn lemma_known_event_hash_values()
    ensures
        name_hash("r2.composer.apiary.list"@) == 0xf81ba1d5u32,
        name_hash("r2.composer.apiary.entry"@) == 0xac44f447u32,
        name_hash("r2.composer.apiary.open"@) == 0x7a3419d5u32,
        name_hash("r2.composer.apiary.active"@) == 0x292fe80bu32,
        name_hash("r2.composer.apiary.create"@) == 0x8c1d7959u32,
        name_hash("r2.composer.apiary.save"@) == 0x3674651cu32,
        name_hash("r2.composer.apiary.close"@) == 0x4c1e5ce7u32,
        name_hash("r2.composer.apiary.git.init"@) == 0x5f88f205u32,
        name_hash("r2.composer.apiary.git.publish"@) == 0x396b61bau32,
        name_hash("r2.composer.build.start"@) == 0x75baddefu32,
        name_hash("r2.composer.build.progress"@) == 0xfaf83696u32,
        name_hash("r2.composer.build.done"@) == 0xe1e691e1u32,
        name_hash("r2.composer.build.error"@) == 0xef403841u32,
        name_hash("r2.composer.flash.devices"@) == 0xcfb38852u32,
        name_hash("r2.composer.deploy.start"@) == 0x173e41dau32,
        name_hash("r2.composer.deploy.progress"@) == 0x9cd8fb9du32,
        name_hash("r2.composer.deploy.done"@) == 0xc23badeau32,
        name_hash("r2.composer.deploy.error"@) == 0x0cad6c84u32,
        name_hash("r2.composer.device.slot.create"@) == 0xcf9f5015u32,
        name_hash("r2.composer.device.list"@) == 0x361cb0d1u32,
        name_hash("r2.composer.device.entry"@) == 0x7fce3aa3u32,
        name_hash("r2.composer.device.transition"@) == 0xba37eb72u32,
        name_hash("r2.composer.device.unaccounted"@) == 0x0adf52ecu32,
        name_hash("r2.composer.device.revoke"@) == 0x77ae8d43u32,
        name_hash("r2.composer.device.retire"@) == 0xb32bfe26u32,
        name_hash("r2.composer.device.purge"@) == 0x4247ea54u32,
        name_hash("r2.composer.usb.attached"@) == 0xb9d72303u32,
        name_hash("r2.composer.usb.detached"@) == 0x1d8bc559u32,
        name_hash("r2.composer.usb.list"@) == 0x7a6509ffu32,
        name_hash("r2.composer.usb.identify"@) == 0x5a922df7u32,
        name_hash("r2.composer.deploy.first_install.start"@) == 0xd18a0c02u32,
        name_hash("r2.composer.deploy.first_install.progress"@) == 0x707618e5u32,
        name_hash("r2.composer.deploy.first_install.done"@) == 0xf5b8c5a2u32,
        name_hash("r2.composer.deploy.first_install.error"@) == 0xd5ac88dcu32,
        name_hash("r2.composer.provision.network.upsert"@) == 0xda2b9a87u32,
        name_hash("r2.composer.provision.network.upserted"@) == 0xe1760206u32,
        name_hash("r2.composer.provision.networks.list"@) == 0xb4ac314fu32,
        name_hash("r2.composer.provision.networks.listed"@) == 0x2462bf0eu32,
        name_hash("r2.composer.provision.offer.start"@) == 0x205b8590u32,
        name_hash("r2.composer.provision.offer.progress"@) == 0xb5e1fef7u32,
        name_hash("r2.composer.provision.offer.composed"@) == 0x14a3810cu32,
        name_hash("r2.composer.provision.cert_issued"@) == 0xc1b01d8au32,
        name_hash("r2.composer.provision.cert_error"@) == 0x8470bd3bu32,
        name_hash("r2.composer.provision.error"@) == 0x3316472au32,
        name_hash("r2.composer.device.identity_observed"@) == 0x921f348cu32,
        name_hash("r2.composer.device.enrolled"@) == 0xb9cc069cu32,
        name_hash("r2.composer.deploy.batch.start"@) == 0x08c9a77cu32,
        name_hash("r2.composer.deploy.batch.done"@) == 0xc600ae30u32,
        name_hash("r2.composer.deploy.device.progress"@) == 0x0c057dd1u32,
        name_hash("r2.composer.deploy.device.done"@) == 0x77785fa6u32,
        name_hash("r2.composer.deploy.device.error"@) == 0x7b7207c8u32,
        name_hash("r2.composer.author.start"@) == 0x051bf636u32,
        name_hash("r2.composer.author.prompt"@) == 0xae77d6bcu32,
        name_hash("r2.composer.author.reply"@) == 0xbe66b26au32,
        name_hash("r2.composer.author.file_added"@) == 0xe02d294du32,
        name_hash("r2.composer.author.done"@) == 0x0028363eu32,
        name_hash("r2.composer.author.error"@) == 0x924b8b40u32,
        name_hash("r2.composer.tg.status"@) == 0xcb9266bau32,
        name_hash("r2.composer.tg.list_members"@) == 0x7448daa8u32,
        name_hash("r2.composer.tg.member"@) == 0x1adab74au32,
        name_hash("r2.composer.tg.revoke_device"@) == 0x54709b69u32,
        name_hash("r2.composer.tg.rotate_keyholder"@) == 0x5d289159u32,
        name_hash("r2.composer.tg.reset"@) == 0x9f1b3367u32,
        name_hash("r2.composer.tg.export_keyholder"@) == 0xc95a0ab0u32,
        name_hash("r2.composer.tg.import_keyholder"@) == 0x477cefbfu32,
        name_hash("r2.composer.catalogue.list"@) == 0x98da3982u32,
        name_hash("r2.composer.catalogue.entry"@) == 0x1ba3c54eu32,
        name_hash("r2.composer.source.request"@) == 0xbbdead69u32,
        name_hash("r2.composer.source.delivered"@) == 0x76509ec0u32,
        name_hash("r2.composer.sync.start"@) == 0x5277dd6eu32,
        name_hash("r2.composer.sync.progress"@) == 0x2acaa911u32,
        name_hash("r2.composer.sync.done"@) == 0xce3a7de6u32,
        name_hash("r2.composer.material.upload"@) == 0xd7abeb4du32,
        name_hash("r2.composer.material.link"@) == 0x2a470cbcu32,
        name_hash("r2.composer.material.find"@) == 0x3a691affu32,
        name_hash("r2.composer.material.found"@) == 0x2efb0960u32,
        name_hash("r2.composer.material.list"@) == 0x1b765354u32,
        name_hash("r2.composer.material.item"@) == 0xfe5d3b03u32,
        name_hash("r2.composer.material.process.start"@) == 0xdb14b387u32,
        name_hash("r2.composer.material.process.progress"@) == 0xb0e2b66eu32,
        name_hash("r2.composer.material.process.done"@) == 0x8a4d6709u32,
        name_hash("r2.composer.material.process.error"@) == 0x60fffbe9u32,
{
    lemma_known_hash_0();
    lemma_known_hash_1();
    lemma_known_hash_2();
    lemma_known_hash_3();
    lemma_known_hash_4();
    lemma_known_hash_5();
    lemma_known_hash_6();
    lemma_known_hash_7();
    lemma_known_hash_8();
    lemma_known_hash_9();
    lemma_known_hash_10();
    lemma_known_hash_11();
    lemma_known_hash_12();
    lemma_known_hash_13();
    lemma_known_hash_14();
    lemma_known_hash_15();
    lemma_known_hash_16();
    lemma_known_hash_17();
    lemma_known_hash_18();
    lemma_known_hash_19();
    lemma_known_hash_20();
    lemma_known_hash_21();
    lemma_known_hash_22();
    lemma_known_hash_23();
    lemma_known_hash_24();
    lemma_known_hash_25();
    lemma_known_hash_26();
    lemma_known_hash_27();
    lemma_known_hash_28();
    lemma_known_hash_29();
    lemma_known_hash_30();
    lemma_known_hash_31();
    lemma_known_hash_32();
    lemma_known_hash_33();
    lemma_known_hash_34();
    lemma_known_hash_35();
    lemma_known_hash_36();
    lemma_known_hash_37();
    lemma_known_hash_38();
    lemma_known_hash_39();
    lemma_known_hash_40();
    lemma_known_hash_41();
    lemma_known_hash_42();
    lemma_known_hash_43();
    lemma_known_hash_44();
    lemma_known_hash_45();
    lemma_known_hash_46();
    lemma_known_hash_47();
    lemma_known_hash_48();
    lemma_known_hash_49();
    lemma_known_hash_50();
    lemma_known_hash_51();
    lemma_known_hash_52();
    lemma_known_hash_53();
    lemma_known_hash_54();
    lemma_known_hash_55();
    lemma_known_hash_56();
    lemma_known_hash_57();
    lemma_known_hash_58();
    lemma_known_hash_59();
    lemma_known_hash_60();
    lemma_known_hash_61();
    lemma_known_hash_62();
    lemma_known_hash_63();
    lemma_known_hash_64();
    lemma_known_hash_65();
    lemma_known_hash_66();
    lemma_known_hash_67();
    lemma_known_hash_68();
    lemma_known_hash_69();
    lemma_known_hash_70();
    lemma_known_hash_71();
    lemma_known_hash_72();
    lemma_known_hash_73();
    lemma_known_hash_74();
    lemma_known_hash_75();
    lemma_known_hash_76();
    lemma_known_hash_77();
    lemma_known_hash_78();
    lemma_known_hash_79();
    lemma_known_hash_80();
    lemma_known_hash_81();
}

/// The hashes of the known event names, in registry order.
pub open spec fn known_event_hashes() -> Seq<u32> {
    seq![
        0xf81ba1d5,
        0xac44f447,
        0x7a3419d5,
        0x292fe80b,
        0x8c1d7959,
        0x3674651c,
        0x4c1e5ce7,
        0x5f88f205,
        0x396b61ba,
        0x75baddef,
        0xfaf83696,
        0xe1e691e1,
        0xef403841,
        0xcfb38852,
        0x173e41da,
        0x9cd8fb9d,
        0xc23badea,
        0x0cad6c84,
        0xcf9f5015,
        0x361cb0d1,
        0x7fce3aa3,
        0xba37eb72,
        0x0adf52ec,
        0x77ae8d43,
        0xb32bfe26,
        0x4247ea54,
        0xb9d72303,
        0x1d8bc559,
        0x7a6509ff,
        0x5a922df7,
        0xd18a0c02,
        0x707618e5,
        0xf5b8c5a2,
        0xd5ac88dc,
        0xda2b9a87,
        0xe1760206,
        0xb4ac314f,
        0x2462bf0e,
        0x205b8590,
        0xb5e1fef7,
        0x14a3810c,
        0xc1b01d8a,
        0x8470bd3b,
        0x3316472a,
        0x921f348c,
        0xb9cc069c,
        0x08c9a77c,
        0xc600ae30,
        0x0c057dd1,
        0x77785fa6,
        0x7b7207c8,
        0x051bf636,
        0xae77d6bc,
        0xbe66b26a,
        0xe02d294d,
        0x0028363e,
        0x924b8b40,
        0xcb9266ba,
        0x7448daa8,
        0x1adab74a,
        0x54709b69,
        0x5d289159,
        0x9f1b3367,
        0xc95a0ab0,
        0x477cefbf,
        0x98da3982,
        0x1ba3c54e,
        0xbbdead69,
        0x76509ec0,
        0x5277dd6e,
        0x2acaa911,
        0xce3a7de6,
        0xd7abeb4d,
        0x2a470cbc,
        0x3a691aff,
        0x2efb0960,
        0x1b765354,
        0xfe5d3b03,
        0xdb14b387,
        0xb0e2b66e,
        0x8a4d6709,
        0x60fffbe9
    ]
}

/// The known hashes are pairwise different.
proof fn lemma_known_event_hashes_distinct()
    ensures
        known_event_hashes().no_duplicates(),
{
}

/// Each known name hashes to its entry of [`known_event_hashes`], and
/// those hashes are pairwise different.
pub proof fn lemma_known_event_hashes()
    ensures
        known_event_hashes().len() == known_event_names().len(),
        forall|i: int|
            0 <= i < known_event_names().len() ==> name_hash(#[trigger] known_event_names()[i])
                == known_event_hashes()[i],
        known_event_hashes().no_duplicates(),
{
    reveal(known_event_names);
    assert forall|i: int| 0 <= i < known_event_names().len() implies name_hash(
        #[trigger] known_event_names()[i],
    ) == known_event_hashes()[i] by {
        if i == 0 {
            lemma_known_hash_0();
        } else if i == 1 {
            lemma_known_hash_1();
        } else if i == 2 {
            lemma_known_hash_2();
        } else if i == 3 {
            lemma_known_hash_3();
        } else if i == 4 {
            lemma_known_hash_4();
        } else if i == 5 {
            lemma_known_hash_5();
        } else if i == 6 {
            lemma_known_hash_6();
        } else if i == 7 {
            lemma_known_hash_7();
        } else if i == 8 {
            lemma_known_hash_8();
        } else if i == 9 {
            lemma_known_hash_9();
        } else if i == 10 {
            lemma_known_hash_10();
        } else if i == 11 {
            lemma_known_hash_11();
        } else if i == 12 {
            lemma_known_hash_12();
        } else if i == 13 {
            lemma_known_hash_13();
        } else if i == 14 {
            lemma_known_hash_14();
        } else if i == 15 {
            lemma_known_hash_15();
        } else if i == 16 {
            lemma_known_hash_16();
        } else if i == 17 {
            lemma_known_hash_17();
        } else if i == 18 {
            lemma_known_hash_18();
        } else if i == 19 {
            lemma_known_hash_19();
        } else if i == 20 {
            lemma_known_hash_20();
        } else if i == 21 {
            lemma_known_hash_21();
        } else if i == 22 {
            lemma_known_hash_22();
        } else if i == 23 {
            lemma_known_hash_23();
        } else if i == 24 {
            lemma_known_hash_24();
        } else if i == 25 {
            lemma_known_hash_25();
        } else if i == 26 {
            lemma_known_hash_26();
        } else if i == 27 {
            lemma_known_hash_27();
        } else if i == 28 {
            lemma_known_hash_28();
        } else if i == 29 {
            lemma_known_hash_29();
        } else if i == 30 {
            lemma_known_hash_30();
        } else if i == 31 {
            lemma_known_hash_31();
        } else if i == 32 {
            lemma_known_hash_32();
        } else if i == 33 {
            lemma_known_hash_33();
        } else if i == 34 {
            lemma_known_hash_34();
        } else if i == 35 {
            lemma_known_hash_35();
        } else if i == 36 {
            lemma_known_hash_36();
        } else if i == 37 {
            lemma_known_hash_37();
        } else if i == 38 {
            lemma_known_hash_38();
        } else if i == 39 {
            lemma_known_hash_39();
        } else if i == 40 {
            lemma_known_hash_40();
        } else if i == 41 {
            lemma_known_hash_41();
        } else if i == 42 {
            lemma_known_hash_42();
        } else if i == 43 {
            lemma_known_hash_43();
        } else if i == 44 {
            lemma_known_hash_44();
        } else if i == 45 {
            lemma_known_hash_45();
        } else if i == 46 {
            lemma_known_hash_46();
        } else if i == 47 {
            lemma_known_hash_47();
        } else if i == 48 {
            lemma_known_hash_48();
        } else if i == 49 {
            lemma_known_hash_49();
        } else if i == 50 {
            lemma_known_hash_50();
        } else if i == 51 {
            lemma_known_hash_51();
        } else if i == 52 {
            lemma_known_hash_52();
        } else if i == 53 {
            lemma_known_hash_53();
        } else if i == 54 {
            lemma_known_hash_54();
        } else if i == 55 {
            lemma_known_hash_55();
        } else if i == 56 {
            lemma_known_hash_56();
        } else if i == 57 {
            lemma_known_hash_57();
        } else if i == 58 {
            lemma_known_hash_58();
        } else if i == 59 {
            lemma_known_hash_59();
        } else if i == 60 {
            lemma_known_hash_60();
        } else if i == 61 {
            lemma_known_hash_61();
        } else if i == 62 {
            lemma_known_hash_62();
        } else if i == 63 {
            lemma_known_hash_63();
        } else if i == 64 {
            lemma_known_hash_64();
        } else if i == 65 {
            lemma_known_hash_65();
        } else if i == 66 {
            lemma_known_hash_66();
        } else if i == 67 {
            lemma_known_hash_67();
        } else if i == 68 {
            lemma_known_hash_68();
        } else if i == 69 {
            lemma_known_hash_69();
        } else if i == 70 {
            lemma_known_hash_70();
        } else if i == 71 {
            lemma_known_hash_71();
        } else if i == 72 {
            lemma_known_hash_72();
        } else if i == 73 {
            lemma_known_hash_73();
        } else if i == 74 {
            lemma_known_hash_74();
        } else if i == 75 {
            lemma_known_hash_75();
        } else if i == 76 {
            lemma_known_hash_76();
        } else if i == 77 {
            lemma_known_hash_77();
        } else if i == 78 {
            lemma_known_hash_78();
        } else if i == 79 {
            lemma_known_hash_79();
        } else if i == 80 {
            lemma_known_hash_80();
        } else if i == 81 {
            lemma_known_hash_81();
        }
    }
    lemma_known_event_hashes_distinct();
}

/// No two known event names share a hash.
pub proof fn law_known_names_hash_apart(i: int, j: int)
    requires
        0 <= i < known_event_names().len(),
        0 <= j < known_event_names().len(),
        i != j,
    ensures
        name_hash(known_event_names()[i]) != name_hash(known_event_names()[j]),
{
    lemma_known_event_hashes();
}

/// Every known name comes back from its own hash: the registry maps the
/// hash of the `i`-th known name to that name.
pub proof fn law_known_names_round_trip(i: int)
    requires
        0 <= i < known_event_names().len(),
    ensures
        last_named(known_event_names(), name_hash(known_event_names()[i])) == Some(known_event_names()[i]),
{
    let k = known_event_names();
    assert forall|j: int| i < j < k.len() implies name_hash(#[trigger] k[j]) != name_hash(k[i]) by {
        law_known_names_hash_apart(i, j);
    }
    law_known_name_round_trip(k, i);
}

/// The known name a hash leads to: a known name's own hash leads to it,
/// and a hash no known name has leads to none.
proof fn lemma_known_hash_lookup(hash: u32)
    ensures
        forall|i: int|
            0 <= i < known_event_names().len() && name_hash(#[trigger] known_event_names()[i]) == hash
                ==> last_named(known_event_names(), hash) == Some(known_event_names()[i]),
        (forall|i: int| 0 <= i < known_event_names().len() ==> name_hash(#[trigger] known_event_names()[i]) != hash)
            ==> last_named(known_event_names(), hash) is None,
{
    assert forall|i: int|
        0 <= i < known_event_names().len() && name_hash(#[trigger] known_event_names()[i]) == hash
            implies last_named(known_event_names(), hash) == Some(known_event_names()[i]) by {
        law_known_names_round_trip(i);
    }
    if forall|i: int| 0 <= i < known_event_names().len() ==> name_hash(#[trigger] known_event_names()[i]) != hash {
        law_unknown_hash_names_nothing(known_event_names(), hash);
    }
}

/// A hash that no name of `names` has names nothing.
pub proof fn law_unknown_hash_names_nothing(names: Seq<Seq<char>>, hash: u32)
    requires
        forall|i: int| 0 <= i < names.len() ==> name_hash(#[trigger] names[i]) != hash,
    ensures
        last_named(names, hash) is None,
{
    law_name_of_has_hash(names, hash);
    if let Some(n) = last_named(names, hash) {
        let j = choose|j: int| 0 <= j < names.len() && names[j] == n;
        assert(name_hash(names[j]) != hash);
    }
}

} // verus!
