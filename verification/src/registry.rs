//! The shared association between control-protocol addresses and hub
//! entities: one entity per address, created on first sight and never
//! replaced or removed, with a reverse lookup by command topic.
//!
//! The registry is the only state the two bridge loops share; its owner
//! serializes access to it, and every operation here is a single call, so
//! the whole check-derive-insert step of a registration is atomic under
//! that discipline. When a later value on an address carries a different
//! kind than the first, the stored entity — and with it the first kind —
//! is kept, and the mismatch is ignored.

use vstd::prelude::*;
use vstd::string::*;

use crate::entity::{entity_model_of, has_segment_char, EntityModel, HassEntity};
use crate::value::ValueKind;

verus! {

/// One registered address with its entity and the kind fixed by the first
/// observed value.
pub struct RegEntry {
    pub address: String,
    pub kind: ValueKind,
    pub entity: HassEntity,
}

/// No two entries hold the same address.
pub open spec fn distinct_addrs(s: Seq<RegEntry>) -> bool {
    forall|i: int, j: int|
        0 <= i < j < s.len() ==> (#[trigger] s[i]).address@ != (#[trigger] s[j]).address@
}

/// The address-to-entity mapping a sequence of entries denotes.
pub open spec fn reg_map(s: Seq<RegEntry>) -> Map<Seq<char>, EntityModel>
    decreases s.len(),
{
    if s.len() == 0 {
        Map::empty()
    } else {
        reg_map(s.drop_last()).insert(s.last().address@, s.last().entity@)
    }
}

/// Every entry's address is a key of the denoted mapping.
proof fn lemma_reg_map_complete(s: Seq<RegEntry>)
    ensures
        forall|i: int| 0 <= i < s.len() ==> reg_map(s).contains_key((#[trigger] s[i]).address@),
    decreases s.len(),
{
    if s.len() > 0 {
        lemma_reg_map_complete(s.drop_last());
        assert forall|i: int| 0 <= i < s.len() implies reg_map(s).contains_key(
            (#[trigger] s[i]).address@,
        ) by {
            if i < s.len() - 1 {
                assert(s.drop_last()[i] == s[i]);
            }
        }
    }
}

/// Every key of the denoted mapping is some entry's address.
proof fn lemma_reg_map_sound(s: Seq<RegEntry>)
    ensures
        forall|a: Seq<char>|
            #[trigger] reg_map(s).contains_key(a) ==> exists|i: int|
                0 <= i < s.len() && (#[trigger] s[i]).address@ == a,
    decreases s.len(),
{
    if s.len() > 0 {
        lemma_reg_map_sound(s.drop_last());
        assert forall|a: Seq<char>| #[trigger] reg_map(s).contains_key(a) implies exists|i: int|
            0 <= i < s.len() && (#[trigger] s[i]).address@ == a by {
            if a == s.last().address@ {
                assert(s[s.len() - 1].address@ == a);
            } else {
                assert(reg_map(s.drop_last()).contains_key(a));
                let i = choose|i: int|
                    0 <= i < s.drop_last().len() && (#[trigger] s.drop_last()[i]).address@ == a;
                assert(s[i].address@ == a);
            }
        }
    }
}

/// With distinct addresses, each entry's address is mapped to that entry's
/// entity.
proof fn lemma_reg_map_value(s: Seq<RegEntry>)
    requires
        distinct_addrs(s),
    ensures
        forall|i: int|
            0 <= i < s.len() ==> reg_map(s)[(#[trigger] s[i]).address@] == s[i].entity@,
    decreases s.len(),
{
    if s.len() > 0 {
        assert(distinct_addrs(s.drop_last())) by {
            assert(forall|i: int|
                0 <= i < s.drop_last().len() ==> #[trigger] s.drop_last()[i] == s[i]);
        }
        lemma_reg_map_value(s.drop_last());
        assert forall|i: int| 0 <= i < s.len() implies reg_map(s)[(#[trigger] s[i]).address@]
            == s[i].entity@ by {
            if i < s.len() - 1 {
                assert(s.drop_last()[i] == s[i]);
                assert(s[i].address@ != s.last().address@);
            }
        }
    }
}

/// What a registration step yields: the mapping afterwards, the entity
/// handed back, and whether the address was first seen in this step.
pub open spec fn get_or_register_spec(
    m: Map<Seq<char>, EntityModel>,
    addr: Seq<char>,
    kind: ValueKind,
) -> (Map<Seq<char>, EntityModel>, EntityModel, bool) {
    if m.contains_key(addr) {
        (m, m[addr], false)
    } else {
        (m.insert(addr, entity_model_of(addr, kind)), entity_model_of(addr, kind), true)
    }
}

/// The address-to-entity registry.
pub struct EntityRegistry {
    entries: Vec<RegEntry>,
}

impl View for EntityRegistry {
    type V = Map<Seq<char>, EntityModel>;

    closed spec fn view(&self) -> Map<Seq<char>, EntityModel> {
        reg_map(self.entries@)
    }
}

impl EntityRegistry {
    /// Addresses are unique and every stored entity is the one derived
    /// from its address and its recorded first kind.
    pub closed spec fn wf(&self) -> bool {
        &&& distinct_addrs(self.entries@)
        &&& forall|i: int|
            0 <= i < self.entries@.len() ==> (#[trigger] self.entries@[i]).entity@
                == entity_model_of(self.entries@[i].address@, self.entries@[i].kind)
    }

    /// An empty registry.
    pub fn new() -> (r: Self)
        ensures
            r.wf(),
            r@ == Map::<Seq<char>, EntityModel>::empty(),
    {
        EntityRegistry { entries: Vec::new() }
    }

    /// The entity registered for an address, when there is one.
    pub fn lookup(&self, address: &str) -> (r: Option<HassEntity>)
        requires
            self.wf(),
        ensures
            match r {
                Some(e) => self@.contains_key(address@) && e@ == self@[address@],
                None => !self@.contains_key(address@),
            },
    {
        let a = String::from_str(address);
        let n = self.entries.len();
        let mut i: usize = 0;
        while i < n
            invariant
                i <= n,
                n == self.entries@.len(),
                a@ == address@,
                self.wf(),
                forall|j: int| 0 <= j < i ==> (#[trigger] self.entries@[j]).address@ != address@,
            decreases n - i,
        {
            if self.entries[i].address.eq(&a) {
                proof {
                    lemma_reg_map_complete(self.entries@);
                    lemma_reg_map_value(self.entries@);
                }
                return Some(self.entries[i].entity.duplicate());
            }
            i = i + 1;
        }
        proof {
            lemma_reg_map_sound(self.entries@);
            if self@.contains_key(address@) {
                let j = choose|j: int|
                    0 <= j < self.entries@.len() && (#[trigger] self.entries@[j]).address@
                        == address@;
                assert(false);
            }
        }
        None
    }

    /// Whether an address already has an entity.
    pub fn contains(&self, address: &str) -> (b: bool)
        requires
            self.wf(),
        ensures
            b == self@.contains_key(address@),
    {
        match self.lookup(address) {
            Some(_) => true,
            None => false,
        }
    }

    /// Returns the entity for an address, deriving and inserting it when
    /// the address is first seen. The returned flag says whether this call
    /// registered the entity — exactly the calls whose entity must still
    /// be announced to the hub, so at most one announcement happens per
    /// address.
    pub fn get_or_register(&mut self, address: &str, kind: ValueKind) -> (r: (HassEntity, bool))
        requires
            old(self).wf(),
            has_segment_char(address@),
        ensures
            final(self).wf(),
            (final(self)@, r.0@, r.1) == get_or_register_spec(old(self)@, address@, kind),
    {
        let found = self.lookup(address);
        match found {
            Some(e) => (e, false),
            None => {
                proof {
                    lemma_reg_map_complete(self.entries@);
                }
                let e = HassEntity::new(address, kind);
                let entry = RegEntry {
                    address: String::from_str(address),
                    kind,
                    entity: e.duplicate(),
                };
                let ghost before = self.entries@;
                self.entries.push(entry);
                proof {
                    assert(self.entries@.drop_last() =~= before);
                    assert(distinct_addrs(self.entries@)) by {
                        assert(forall|i: int|
                            0 <= i < before.len() ==> #[trigger] self.entries@[i] == before[i]);
                    }
                    assert(forall|i: int|
                        0 <= i < before.len() ==> #[trigger] self.entries@[i] == before[i]);
                }
                (e, true)
            },
        }
    }

    /// The address and entity whose command topic is the given topic, when
    /// one is registered.
    pub fn find_by_command_topic(&self, topic: &str) -> (r: Option<(String, HassEntity)>)
        requires
            self.wf(),
        ensures
            match r {
                Some(p) => self@.contains_key(p.0@) && p.1@ == self@[p.0@]
                    && p.1@.command_topic == topic@,
                None => forall|a: Seq<char>|
                    #[trigger] self@.contains_key(a) ==> self@[a].command_topic != topic@,
            },
    {
        let t = String::from_str(topic);
        let n = self.entries.len();
        let mut i: usize = 0;
        while i < n
            invariant
                i <= n,
                n == self.entries@.len(),
                t@ == topic@,
                self.wf(),
                forall|j: int|
                    0 <= j < i ==> (#[trigger] self.entries@[j]).entity@.command_topic != topic@,
            decreases n - i,
        {
            if self.entries[i].entity.command_topic.eq(&t) {
                proof {
                    lemma_reg_map_complete(self.entries@);
                    lemma_reg_map_value(self.entries@);
                }
                return Some((self.entries[i].address.clone(), self.entries[i].entity.duplicate()));
            }
            i = i + 1;
        }
        proof {
            lemma_reg_map_sound(self.entries@);
            lemma_reg_map_value(self.entries@);
            assert forall|a: Seq<char>| #[trigger] self@.contains_key(a) implies self@[a].command_topic
                != topic@ by {
                let j = choose|j: int|
                    0 <= j < self.entries@.len() && (#[trigger] self.entries@[j]).address@ == a;
                assert(self@[a] == self.entries@[j].entity@);
            }
        }
        None
    }
}

/// At most one registration per address: after any step has the address in
/// the mapping, a further step for it registers nothing, changes nothing,
/// and hands back the same entity — in particular one equal by name.
pub proof fn lemma_at_most_one_registration(
    m: Map<Seq<char>, EntityModel>,
    addr: Seq<char>,
    k1: ValueKind,
    k2: ValueKind,
)
    ensures
        ({
            let (m1, e1, fresh1) = get_or_register_spec(m, addr, k1);
            let (m2, e2, fresh2) = get_or_register_spec(m1, addr, k2);
            &&& fresh2 == false
            &&& m2 == m1
            &&& e2 == e1
            &&& e2.name == e1.name
        }),
{
}

} // verus!
